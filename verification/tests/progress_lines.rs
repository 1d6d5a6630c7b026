use ryt_core::progress::parse_progress_line;
use ryt_core::progress::render_progress_line;

#[test]
fn parses_line_with_unknown_eta() {
    let r = parse_progress_line("[download] 0.0% | 1.2MiB/s | Unknown ETA").unwrap();
    assert_eq!(r.0, "0.0");
    assert_eq!(r.1, "1.2MiB/s");
    assert_eq!(r.2, "Unknown");
}

#[test]
fn parses_line_with_timed_eta() {
    let r = parse_progress_line("[download] 50.0% | 3.4MiB/s | 00:10").unwrap();
    assert_eq!(r.0, "50.0");
    assert_eq!(r.1, "3.4MiB/s");
    assert_eq!(r.2, "00:10");
}

#[test]
fn percentage_survives_numeric_round_trip() {
    let line = render_progress_line("37.5", "800.00KiB/s", "01:23");
    assert_eq!(line, "[download] 37.5% | 800.00KiB/s | 01:23");
    let r = parse_progress_line(&line).unwrap();
    assert_eq!(r.0.parse::<f64>().unwrap(), 37.5);
    assert_eq!(r.1, "800.00KiB/s");
    assert_eq!(r.2, "01:23");
}

#[test]
fn rendered_template_always_parses_back() {
    let percents = ["0.0", "5.25", "99.9", "100.0"];
    let speeds = ["1.2MiB/s", "?", "800B/s"];
    let etas = ["Unknown", "00:10", "12:34:56"];
    for p in percents.iter() {
        for s in speeds.iter() {
            for e in etas.iter() {
                let line = render_progress_line(p, s, e);
                let r = parse_progress_line(&line).unwrap();
                assert_eq!(&r.0, p);
                assert_eq!(&r.1, s);
                assert_eq!(&r.2, e);
            }
        }
    }
}

#[test]
fn destination_line_is_discarded() {
    assert!(parse_progress_line("[download] Destination: video.mp4").is_none());
}

#[test]
fn summary_line_without_decimal_percent_is_discarded() {
    assert!(parse_progress_line("[download] 100% of 10.00MiB in 00:05").is_none());
}

#[test]
fn empty_line_is_discarded() {
    assert!(parse_progress_line("").is_none());
}

#[test]
fn percentage_without_fraction_is_discarded() {
    assert!(parse_progress_line("7% | fast | soon").is_none());
}

#[test]
fn leftmost_match_wins() {
    let r = parse_progress_line("1.0% | a | b 2.0% | c | d").unwrap();
    assert_eq!(r.0, "1.0");
    assert_eq!(r.1, "a");
    assert_eq!(r.2, "b");
}

#[test]
fn separators_tolerate_tight_spacing() {
    let r = parse_progress_line("x 12.3%|y|z").unwrap();
    assert_eq!(r.0, "12.3");
    assert_eq!(r.1, "y");
    assert_eq!(r.2, "z");
}

#[test]
fn speed_stops_at_separator_eta_stops_at_space() {
    let r = parse_progress_line("[download]  5.0% | 1.2MiB/s | 00:10 remaining").unwrap();
    assert_eq!(r.0, "5.0");
    assert_eq!(r.1, "1.2MiB/s");
    assert_eq!(r.2, "00:10");
}

#[test]
fn missing_third_field_is_discarded() {
    assert!(parse_progress_line("[download] 12.0% | 1.2MiB/s |   ").is_none());
}

#[test]
fn speed_may_contain_percent_and_digits() {
    let r = parse_progress_line("[download] 1.2% | 3.4%ish | eta").unwrap();
    assert_eq!(r.0, "1.2");
    assert_eq!(r.1, "3.4%ish");
    assert_eq!(r.2, "eta");
}

#[test]
fn eta_may_contain_separator_char() {
    let r = parse_progress_line("[download] 1.2% | spd | a|b").unwrap();
    assert_eq!(r.2, "a|b");
}

#[test]
fn match_may_start_inside_a_dotted_number() {
    let r = parse_progress_line("12.3.4% | a | b").unwrap();
    assert_eq!(r.0, "3.4");
    assert_eq!(r.1, "a");
    assert_eq!(r.2, "b");
}
