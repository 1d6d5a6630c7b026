//! The shapes of what a download job produces: the events a subprocess
//! hands the parser, the progress events the parser hands on, and the
//! single terminal outcome that closes a job's stream.

use vstd::prelude::*;

verus! {

/// The one status a progress event can report.
#[derive(Clone, Copy, Debug, PartialEq, Eq)]
pub enum DownloadStatus {
    Downloading,
}

/// A structured progress report for the job `id`. The percentage is
/// kept as its matched text (digits, a point, digits); turning it into
/// a number is the caller's concern.
#[derive(Clone, Debug, PartialEq, Eq)]
pub struct ProgressEvent {
    pub id: u64,
    pub percent: String,
    pub speed: String,
    pub eta: String,
    pub status: DownloadStatus,
}

/// How a job ended: the subprocess exited cleanly, or it failed and the
/// most recently retained error line (possibly empty) says why.
#[derive(Clone, Debug, PartialEq, Eq)]
pub enum TerminationOutcome {
    Finished(u64),
    Failed(u64, String),
}

/// One item of a job's event stream.
#[derive(Clone, Debug, PartialEq, Eq)]
pub enum StreamItem {
    Progress(ProgressEvent),
    Terminal(TerminationOutcome),
}

/// One unit read from the subprocess: a standard-output line, a
/// standard-error line, the termination report with its exit code, or
/// anything else the process channel may carry.
#[derive(Clone, Debug, PartialEq, Eq)]
pub enum ProcessEvent {
    Stdout(String),
    Stderr(String),
    Terminated(Option<i32>),
    Other,
}

/// Mathematical shape of a progress event.
pub struct ProgressView {
    pub id: u64,
    pub percent: Seq<char>,
    pub speed: Seq<char>,
    pub eta: Seq<char>,
}

/// Mathematical shape of a terminal outcome.
pub enum OutcomeView {
    Finished(u64),
    Failed(u64, Seq<char>),
}

/// Mathematical shape of a stream item.
pub enum ItemView {
    Progress(ProgressView),
    Terminal(OutcomeView),
}

impl View for ProgressEvent {
    type V = ProgressView;

    open spec fn view(&self) -> ProgressView {
        ProgressView { id: self.id, percent: self.percent@, speed: self.speed@, eta: self.eta@ }
    }
}

impl View for TerminationOutcome {
    type V = OutcomeView;

    open spec fn view(&self) -> OutcomeView {
        match self {
            TerminationOutcome::Finished(id) => OutcomeView::Finished(*id),
            TerminationOutcome::Failed(id, message) => OutcomeView::Failed(*id, message@),
        }
    }
}

impl View for StreamItem {
    type V = ItemView;

    open spec fn view(&self) -> ItemView {
        match self {
            StreamItem::Progress(p) => ItemView::Progress(p@),
            StreamItem::Terminal(t) => ItemView::Terminal(t@),
        }
    }
}

} // verus!
