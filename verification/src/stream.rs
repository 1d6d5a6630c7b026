//! The progress stream's state machine: one step per unit read from
//! the subprocess, and the fold of a whole event sequence into the
//! job's stream of items — progress events followed by exactly one
//! terminal outcome.

use crate::events::DownloadStatus;
use crate::events::ItemView;
use crate::events::OutcomeView;
use crate::events::ProcessEvent;
use crate::events::ProgressEvent;
use crate::events::ProgressView;
use crate::events::StreamItem;
use crate::events::TerminationOutcome;
use crate::progress;
use crate::scan;
use vstd::prelude::*;

verus! {

/// The error message retained after one event: a standard-error line
/// replaces it unless the line carries the warning marker; every other
/// event leaves it alone.
pub open spec fn step_error_spec(event: ProcessEvent, last_error: Seq<char>) -> Seq<char> {
    match event {
        ProcessEvent::Stderr(l) => if scan::has_warning(l@) {
            last_error
        } else {
            l@
        },
        _ => last_error,
    }
}

/// The terminal outcome for an exit code: failure exactly on a reported
/// non-zero code, carrying the retained error message; a zero or absent
/// code means the job finished.
pub open spec fn outcome_view(id: u64, code: Option<i32>, last_error: Seq<char>) -> OutcomeView {
    match code {
        Some(c) => if c != 0 {
            OutcomeView::Failed(id, last_error)
        } else {
            OutcomeView::Finished(id)
        },
        None => OutcomeView::Finished(id),
    }
}

/// The items one event contributes to the stream: a progress event for
/// a standard-output line the pattern matches, the terminal outcome for
/// a termination report, nothing otherwise.
pub open spec fn step_items_spec(id: u64, event: ProcessEvent, last_error: Seq<char>) -> Seq<
    ItemView,
> {
    match event {
        ProcessEvent::Stdout(l) => match progress::parse_line(l@) {
            Some(f) => seq![
                ItemView::Progress(
                    ProgressView { id, percent: f.percent, speed: f.speed, eta: f.eta },
                ),
            ],
            None => Seq::empty(),
        },
        ProcessEvent::Terminated(code) => seq![
            ItemView::Terminal(outcome_view(id, code, last_error)),
        ],
        _ => Seq::empty(),
    }
}

/// The whole stream for an event sequence: each event's items in order,
/// the retained error threaded through, stopping at the first
/// termination report.
pub open spec fn stream_spec(id: u64, events: Seq<ProcessEvent>, last_error: Seq<char>) -> Seq<
    ItemView,
>
    decreases events.len(),
{
    if events.len() == 0 {
        Seq::empty()
    } else if events[0] is Terminated {
        step_items_spec(id, events[0], last_error)
    } else {
        step_items_spec(id, events[0], last_error) + stream_spec(
            id,
            events.drop_first(),
            step_error_spec(events[0], last_error),
        )
    }
}

/// The error message retained after a whole event sequence.
pub open spec fn retained_error_spec(events: Seq<ProcessEvent>, last_error: Seq<char>) -> Seq<
    char,
>
    decreases events.len(),
{
    if events.len() == 0 {
        last_error
    } else {
        retained_error_spec(events.drop_first(), step_error_spec(events[0], last_error))
    }
}

/// The views of an optional stream item, as zero or one items.
pub open spec fn item_views(out: Option<StreamItem>) -> Seq<ItemView> {
    match out {
        Some(item) => seq![item@],
        None => Seq::empty(),
    }
}

/// One job's progress parser: the job id, the retained error message,
/// and whether the terminal outcome has been produced. Not restartable:
/// once done, the stream is closed.
pub struct ProgressParser {
    pub id: u64,
    pub last_error: String,
    pub done: bool,
}

impl ProgressParser {
    /// A parser for job `id`, with no error retained yet.
    pub fn new(id: u64) -> (parser: ProgressParser)
        ensures
            parser.id == id,
            parser.last_error@ == Seq::<char>::empty(),
            !parser.done,
    {
        ProgressParser { id, last_error: String::new(), done: false }
    }

    /// Classify one unit read from the subprocess and return what it
    /// contributes to the stream. A standard-output line yields a
    /// progress event exactly when the pattern matches it; a
    /// standard-error line only updates the retained error; the
    /// termination report closes the stream with the terminal outcome
    /// for its exit code.
    pub fn step(&mut self, event: &ProcessEvent) -> (out: Option<StreamItem>)
        requires
            !old(self).done,
        ensures
            final(self).id == old(self).id,
            final(self).last_error@ == step_error_spec(*event, old(self).last_error@),
            final(self).done == (*event is Terminated),
            item_views(out) == step_items_spec(old(self).id, *event, old(self).last_error@),
    {
        match event {
            ProcessEvent::Stdout(line) => {
                match progress::parse_progress_line(line.as_str()) {
                    Some((percent, speed, eta)) => {
                        let item = StreamItem::Progress(
                            ProgressEvent {
                                id: self.id,
                                percent,
                                speed,
                                eta,
                                status: DownloadStatus::Downloading,
                            },
                        );
                        proof {
                            assert(item_views(Some(item)) =~= step_items_spec(
                                self.id,
                                *event,
                                self.last_error@,
                            ));
                        }
                        Some(item)
                    },
                    None => None,
                }
            },
            ProcessEvent::Stderr(line) => {
                if !scan::contains_warning(line.as_str()) {
                    self.last_error = line.clone();
                }
                None
            },
            ProcessEvent::Terminated(code) => {
                self.done = true;
                let outcome = match code {
                    Some(c) => if *c != 0 {
                        TerminationOutcome::Failed(self.id, self.last_error.clone())
                    } else {
                        TerminationOutcome::Finished(self.id)
                    },
                    None => TerminationOutcome::Finished(self.id),
                };
                let item = StreamItem::Terminal(outcome);
                proof {
                    assert(item_views(Some(item)) =~= step_items_spec(
                        self.id,
                        *event,
                        old(self).last_error@,
                    ));
                }
                Some(item)
            },
            ProcessEvent::Other => None,
        }
    }
}

/// The views of a vector of stream items, in order.
pub open spec fn views_of(items: Seq<StreamItem>) -> Seq<ItemView> {
    items.map_values(|item: StreamItem| item@)
}

/// Fold a job's whole event sequence into its stream of items: every
/// recognized progress line in order, then the terminal outcome for the
/// first termination report; events after it are not read.
pub fn stream_progress(id: u64, events: &Vec<ProcessEvent>) -> (items: Vec<StreamItem>)
    ensures
        views_of(items@) == stream_spec(id, events@, Seq::<char>::empty()),
{
    let ghost initial: Seq<char> = Seq::<char>::empty();
    let mut parser = ProgressParser::new(id);
    let mut items: Vec<StreamItem> = Vec::new();
    let n = events.len();
    let mut k: usize = 0;
    proof {
        assert(events@.skip(0) =~= events@);
        assert(views_of(items@) + stream_spec(id, events@, initial) =~= stream_spec(
            id,
            events@,
            initial,
        ));
    }
    while k < n && !parser.done
        invariant
            n == events@.len(),
            k <= n,
            parser.id == id,
            parser.done ==> views_of(items@) == stream_spec(id, events@, initial),
            !parser.done ==> views_of(items@) + stream_spec(
                id,
                events@.skip(k as int),
                parser.last_error@,
            ) == stream_spec(id, events@, initial),
        decreases n - k,
    {
        let ghost rest = events@.skip(k as int);
        let ghost before_error = parser.last_error@;
        let ghost before_items = items@;
        let out = parser.step(&events[k]);
        proof {
            assert(rest[0] == events@[k as int]);
            assert(rest.drop_first() =~= events@.skip(k as int + 1));
        }
        match out {
            Some(item) => {
                items.push(item);
                proof {
                    assert(views_of(items@) =~= views_of(before_items) + seq![item@]);
                }
            },
            None => {
                proof {
                    assert(views_of(items@) + step_items_spec(id, events@[k as int], before_error)
                        =~= views_of(items@));
                }
            },
        }
        k = k + 1;
    }
    proof {
        if !parser.done {
            assert(events@.skip(k as int) =~= Seq::<ProcessEvent>::empty());
        }
    }
    items
}

/// Whether a stream item is a terminal outcome.
pub open spec fn is_terminal(item: ItemView) -> bool {
    item is Terminal
}

/// Law: a stream that sees a termination event yields exactly one
/// terminal outcome, and it is the last item of the stream.
pub proof fn lemma_single_terminal(id: u64, events: Seq<ProcessEvent>, last_error: Seq<char>)
    requires
        exists|i: int| 0 <= i < events.len() && #[trigger] (events[i] is Terminated),
    ensures
        stream_spec(id, events, last_error).len() > 0,
        is_terminal(stream_spec(id, events, last_error).last()),
        forall|j: int|
            0 <= j < stream_spec(id, events, last_error).len() - 1 ==> !is_terminal(
                #[trigger] stream_spec(id, events, last_error)[j],
            ),
    decreases events.len(),
{
    if events[0] is Terminated {
    } else {
        let i = choose|i: int| 0 <= i < events.len() && #[trigger] (events[i] is Terminated);
        assert(events.drop_first()[i - 1] is Terminated);
        lemma_single_terminal(id, events.drop_first(), step_error_spec(events[0], last_error));
    }
}

/// Law: the exit code alone decides the terminal outcome. A zero or
/// absent code closes the stream with `Finished`, however many progress
/// events came before; a non-zero code closes it with `Failed` carrying
/// the error message retained from the events before the termination.
pub proof fn lemma_exit_outcome(
    id: u64,
    events: Seq<ProcessEvent>,
    last_error: Seq<char>,
    k: int,
    code: Option<i32>,
)
    requires
        0 <= k < events.len(),
        events[k] == ProcessEvent::Terminated(code),
        forall|j: int| 0 <= j < k ==> !(#[trigger] (events[j] is Terminated)),
    ensures
        stream_spec(id, events, last_error).len() > 0,
        stream_spec(id, events, last_error).last() == ItemView::Terminal(
            outcome_view(id, code, retained_error_spec(events.take(k), last_error)),
        ),
        (code is None || code == Some(0i32)) ==> stream_spec(id, events, last_error).last()
            == ItemView::Terminal(OutcomeView::Finished(id)),
        (code matches Some(c) && c != 0) ==> stream_spec(id, events, last_error).last()
            == ItemView::Terminal(
            OutcomeView::Failed(id, retained_error_spec(events.take(k), last_error)),
        ),
    decreases k,
{
    if k == 0 {
        assert(events.take(0) =~= Seq::<ProcessEvent>::empty());
    } else {
        let rest = events.drop_first();
        let threaded = step_error_spec(events[0], last_error);
        assert(rest[k - 1] == ProcessEvent::Terminated(code));
        assert(forall|j: int| 0 <= j < k - 1 ==> !(#[trigger] (rest[j] is Terminated)));
        lemma_exit_outcome(id, rest, threaded, k - 1, code);
        assert(events.take(k).drop_first() =~= rest.take(k - 1));
        assert(retained_error_spec(events.take(k), last_error) == retained_error_spec(
            rest.take(k - 1),
            threaded,
        ));
    }
}

/// Law: a line carrying the warning marker never becomes the retained
/// error message. As long as the retained message is free of the
/// marker — as the initial empty message is — it stays free of it
/// through any event sequence.
pub proof fn lemma_warning_never_retained(events: Seq<ProcessEvent>, last_error: Seq<char>)
    requires
        !scan::has_warning(last_error),
    ensures
        !scan::has_warning(retained_error_spec(events, last_error)),
    decreases events.len(),
{
    if events.len() > 0 {
        lemma_warning_never_retained(events.drop_first(), step_error_spec(events[0], last_error));
    }
}

} // verus!
