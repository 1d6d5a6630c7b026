use ryt_core::events::DownloadStatus;
use ryt_core::events::ProcessEvent;
use ryt_core::events::StreamItem;
use ryt_core::events::TerminationOutcome;
use ryt_core::stream::stream_progress;
use ryt_core::stream::ProgressParser;

fn out(s: &str) -> ProcessEvent {
    ProcessEvent::Stdout(s.to_string())
}

fn err(s: &str) -> ProcessEvent {
    ProcessEvent::Stderr(s.to_string())
}

#[test]
fn two_progress_lines_then_clean_exit() {
    let events = vec![
        out("[download] 0.0% | 1.2MiB/s | Unknown ETA"),
        out("[download] 50.0% | 3.4MiB/s | 00:10"),
        ProcessEvent::Terminated(Some(0)),
    ];
    let items = stream_progress(7, &events);
    assert_eq!(items.len(), 3);
    match &items[0] {
        StreamItem::Progress(p) => {
            assert_eq!(p.id, 7);
            assert_eq!(p.percent.parse::<f64>().unwrap(), 0.0);
            assert_eq!(p.speed, "1.2MiB/s");
            assert_eq!(p.eta, "Unknown");
            assert!(matches!(p.status, DownloadStatus::Downloading));
        },
        _ => panic!("expected a progress event first"),
    }
    match &items[1] {
        StreamItem::Progress(p) => {
            assert_eq!(p.id, 7);
            assert_eq!(p.percent.parse::<f64>().unwrap(), 50.0);
            assert_eq!(p.speed, "3.4MiB/s");
            assert_eq!(p.eta, "00:10");
        },
        _ => panic!("expected a progress event second"),
    }
    assert!(matches!(items[2], StreamItem::Terminal(TerminationOutcome::Finished(7))));
}

#[test]
fn error_line_then_nonzero_exit_fails_with_it() {
    let events = vec![err("ERROR: Unsupported URL"), ProcessEvent::Terminated(Some(1))];
    let items = stream_progress(3, &events);
    assert_eq!(items.len(), 1);
    match &items[0] {
        StreamItem::Terminal(TerminationOutcome::Failed(id, message)) => {
            assert_eq!(*id, 3);
            assert_eq!(message, "ERROR: Unsupported URL");
        },
        _ => panic!("expected a failure outcome"),
    }
}

#[test]
fn warning_line_is_never_retained() {
    let events = vec![
        err("boom"),
        err("WARNING: ffmpeg not found"),
        ProcessEvent::Terminated(Some(2)),
    ];
    let items = stream_progress(5, &events);
    assert_eq!(items.len(), 1);
    match &items[0] {
        StreamItem::Terminal(TerminationOutcome::Failed(id, message)) => {
            assert_eq!(*id, 5);
            assert_eq!(message, "boom");
        },
        _ => panic!("expected a failure outcome"),
    }
}

#[test]
fn later_error_line_overwrites_earlier_one() {
    let events = vec![
        err("first problem"),
        err("second problem"),
        ProcessEvent::Terminated(Some(1)),
    ];
    let items = stream_progress(1, &events);
    match &items[0] {
        StreamItem::Terminal(TerminationOutcome::Failed(_, message)) => {
            assert_eq!(message, "second problem");
        },
        _ => panic!("expected a failure outcome"),
    }
}

#[test]
fn failure_without_error_lines_has_empty_message() {
    let events = vec![
        out("[download] 10.0% | 1.0MiB/s | 00:59"),
        ProcessEvent::Terminated(Some(101)),
    ];
    let items = stream_progress(9, &events);
    assert_eq!(items.len(), 2);
    match &items[1] {
        StreamItem::Terminal(TerminationOutcome::Failed(id, message)) => {
            assert_eq!(*id, 9);
            assert_eq!(message, "");
        },
        _ => panic!("expected a failure outcome"),
    }
}

#[test]
fn warning_only_failure_has_empty_message() {
    let events = vec![err("WARNING: just a warning"), ProcessEvent::Terminated(Some(1))];
    let items = stream_progress(2, &events);
    match &items[0] {
        StreamItem::Terminal(TerminationOutcome::Failed(_, message)) => {
            assert_eq!(message, "");
        },
        _ => panic!("expected a failure outcome"),
    }
}

#[test]
fn absent_exit_code_counts_as_finished() {
    let events = vec![err("late noise"), ProcessEvent::Terminated(None)];
    let items = stream_progress(4, &events);
    assert_eq!(items.len(), 1);
    assert!(matches!(items[0], StreamItem::Terminal(TerminationOutcome::Finished(4))));
}

#[test]
fn exactly_one_terminal_outcome_and_it_is_last() {
    let events = vec![
        out("[download] 1.0% | 9.9KiB/s | 10:00"),
        err("WARNING: throttled"),
        out("noise line"),
        out("[download] 99.9% | 9.9MiB/s | 00:01"),
        ProcessEvent::Terminated(Some(0)),
        out("[download] 99.9% | 9.9MiB/s | 00:01"),
        ProcessEvent::Terminated(Some(1)),
    ];
    let items = stream_progress(6, &events);
    let terminals = items
        .iter()
        .filter(|item| matches!(item, StreamItem::Terminal(_)))
        .count();
    assert_eq!(terminals, 1);
    assert!(matches!(items.last().unwrap(), StreamItem::Terminal(_)));
    assert!(matches!(items.last().unwrap(), StreamItem::Terminal(TerminationOutcome::Finished(6))));
    assert_eq!(items.len(), 3);
}

#[test]
fn step_classifies_each_unit() {
    let mut parser = ProgressParser::new(11);
    assert!(parser.step(&ProcessEvent::Other).is_none());
    assert!(parser.step(&out("no progress here")).is_none());
    let item = parser.step(&out("[download] 12.5% | 1.0MiB/s | 00:30"));
    match item {
        Some(StreamItem::Progress(p)) => {
            assert_eq!(p.id, 11);
            assert_eq!(p.percent, "12.5");
        },
        _ => panic!("expected a progress event"),
    }
    assert!(parser.step(&err("ERROR: boom")).is_none());
    assert_eq!(parser.last_error, "ERROR: boom");
    assert!(!parser.done);
    let last = parser.step(&ProcessEvent::Terminated(Some(1)));
    assert!(parser.done);
    match last {
        Some(StreamItem::Terminal(TerminationOutcome::Failed(11, message))) => {
            assert_eq!(message, "ERROR: boom");
        },
        _ => panic!("expected a failure outcome"),
    }
}

#[test]
fn embedded_warning_marker_is_still_a_warning() {
    let events = vec![err("xxWARNINGyy"), ProcessEvent::Terminated(Some(1))];
    let items = stream_progress(8, &events);
    match &items[0] {
        StreamItem::Terminal(TerminationOutcome::Failed(_, message)) => {
            assert_eq!(message, "");
        },
        _ => panic!("expected a failure outcome"),
    }
}

#[test]
fn lowercase_warning_is_a_real_error() {
    let events = vec![err("warning: lowercase is not the marker"), ProcessEvent::Terminated(Some(1))];
    let items = stream_progress(8, &events);
    match &items[0] {
        StreamItem::Terminal(TerminationOutcome::Failed(_, message)) => {
            assert_eq!(message, "warning: lowercase is not the marker");
        },
        _ => panic!("expected a failure outcome"),
    }
}

#[test]
fn empty_event_sequence_yields_no_items() {
    let events: Vec<ProcessEvent> = vec![];
    let items = stream_progress(1, &events);
    assert!(items.is_empty());
}
