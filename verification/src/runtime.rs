//! Run status, progress, cancellation and error accounting.
//!
//! Concurrency itself is owned by a single scheduler and arrives with the
//! executor; what is frozen here is the *observable* behaviour every
//! front-end depends on.

use crate::error::ErrorBudget;
use crate::model::ids::RunId;
use std::sync::atomic::AtomicBool;
use std::sync::Arc;
use std::time::Duration;
use vstd::prelude::*;

verus! {

/// End state of a run.
///
/// `Partial` means the run stopped early (cancelled, or budget/entry errors
/// forced it to stop) **and** still returned usable results. Callers must not
/// treat a partial run as a complete one.
#[derive(Clone, Copy, PartialEq, Eq, Structural, Debug)]
pub enum RunStatus {
    Completed,
    /// Finished with results, but incompletely.
    Partial { errors: u64 },
    Cancelled,
    Failed,
}

impl RunStatus {
    /// Completed and partial runs carry results; cancelled and failed ones
    /// do not.
    pub open spec fn spec_is_usable(self) -> bool {
        self is Completed || self is Partial
    }

    pub fn is_usable(&self) -> (r: bool)
        ensures
            r == self.spec_is_usable(),
    {
        matches!(self, RunStatus::Completed | RunStatus::Partial { .. })
    }
}

/// Carried by the last progress event so consumers know the stream ended
/// instead of going quiet.
#[derive(Clone, Copy, PartialEq, Eq, Structural, Debug)]
pub enum TerminalEvent {
    Completed,
    Partial { errors: u64 },
    Cancelled,
    Failed,
}

/// The terminal event announcing a run status: same variant, same error
/// count.
pub open spec fn terminal_of(status: RunStatus) -> TerminalEvent {
    match status {
        RunStatus::Completed => TerminalEvent::Completed,
        RunStatus::Partial { errors } => TerminalEvent::Partial { errors },
        RunStatus::Cancelled => TerminalEvent::Cancelled,
        RunStatus::Failed => TerminalEvent::Failed,
    }
}

impl From<RunStatus> for TerminalEvent {
    fn from(status: RunStatus) -> (r: Self) {
        match status {
            RunStatus::Completed => TerminalEvent::Completed,
            RunStatus::Partial { errors } => TerminalEvent::Partial { errors },
            RunStatus::Cancelled => TerminalEvent::Cancelled,
            RunStatus::Failed => TerminalEvent::Failed,
        }
    }
}

impl vstd::std_specs::convert::FromSpecImpl<RunStatus> for TerminalEvent {
    open spec fn obeys_from_spec() -> bool {
        true
    }

    open spec fn from_spec(v: RunStatus) -> TerminalEvent {
        terminal_of(v)
    }
}

/// Distinct run statuses announce distinct terminal events.
pub proof fn lemma_terminal_event_injective(a: RunStatus, b: RunStatus)
    ensures
        terminal_of(a) == terminal_of(b) ==> a == b,
{
}

/// Coarse pipeline phase, for progress reporting only.
#[derive(Clone, Copy, PartialEq, Eq, Structural, Hash, Debug)]
pub enum ProgressStage {
    Scan,
    Filter,
    Group,
    Fingerprint,
    Sort,
    Materialize,
}

/// One progress sample.
///
/// The channel is bounded and lossy: a slow UI, or a client that stopped
/// reading, must never block a scanner. `sequence` therefore has gaps by
/// design, and consumers rely on `terminal` to know the run is over.
#[derive(Clone, Copy, PartialEq, Eq, Debug)]
pub struct ProgressEvent {
    pub run_id: RunId,
    /// Monotonic within a run; gaps are normal (lossy channel).
    pub sequence: u64,
    pub stage: ProgressStage,
    pub entries_seen: u64,
    pub bytes_read: u64,
    pub candidates: u64,
    pub elapsed: Duration,
    /// `Some` only on the final event.
    pub terminal: Option<TerminalEvent>,
}

/// `Duration::ZERO`.
///
/// `std::time::Duration` is opaque here: nothing is stated of the value.
#[verifier::external_body]
fn zero_duration() -> Duration {
    Duration::ZERO
}

impl ProgressEvent {
    /// A non-terminal sample with all counters at zero and zero elapsed
    /// time.
    pub fn sample(run_id: RunId, sequence: u64, stage: ProgressStage) -> (r: Self)
        ensures
            r.run_id == run_id,
            r.sequence == sequence,
            r.stage == stage,
            r.entries_seen == 0,
            r.bytes_read == 0,
            r.candidates == 0,
            r.terminal is None,
    {
        ProgressEvent {
            run_id,
            sequence,
            stage,
            entries_seen: 0,
            bytes_read: 0,
            candidates: 0,
            elapsed: zero_duration(),
            terminal: None,
        }
    }

    /// Turn the sample into the final event of a run with the given status.
    pub fn finish(self, status: RunStatus) -> (r: Self)
        ensures
            r == (ProgressEvent { terminal: Some(terminal_of(status)), ..self }),
            r.terminal is Some,
    {
        let mut event = self;
        event.terminal = Some(TerminalEvent::from(status));
        event
    }

    pub fn is_terminal(&self) -> (r: bool)
        ensures
            r == self.terminal is Some,
    {
        self.terminal.is_some()
    }
}

/// Cooperative cancellation.
///
/// Sources and the runtime check it at a reasonable granularity; it is never
/// a signal to kill a thread mid-syscall. Clones share one flag.
#[derive(Clone, Debug)]
pub struct CancellationToken {
    cancelled: Arc<AtomicBool>,
}

impl Default for CancellationToken {
    fn default() -> Self {
        Self::new()
    }
}

impl CancellationToken {
    /// A token that is not cancelled yet.
    pub fn new() -> Self {
        CancellationToken { cancelled: Arc::new(AtomicBool::new(false)) }
    }

    /// Request cancellation; every clone of the token observes it.
    pub fn cancel(&self) {
        self.cancelled.store(true, std::sync::atomic::Ordering::SeqCst);
    }

    /// Whether cancellation was requested on this token or one of its
    /// clones. The answer depends on other threads, so nothing is stated of
    /// it.
    pub fn is_cancelled(&self) -> bool {
        self.cancelled.load(std::sync::atomic::Ordering::SeqCst)
    }
}

/// Summary handed back with the results.
#[derive(Clone, Debug)]
pub struct RunReport {
    pub run_id: RunId,
    pub status: RunStatus,
    pub entries_seen: u64,
    pub bytes_read: u64,
    pub errors: ErrorBudget,
}

impl RunReport {
    /// A completed report with no counters and an empty default error
    /// budget.
    pub fn new(run_id: RunId) -> (r: Self)
        ensures
            r.run_id == run_id,
            r.status == RunStatus::Completed,
            r.entries_seen == 0,
            r.bytes_read == 0,
            r.errors.wf(),
            r.errors.cap() == 1024,
            r.errors.retained_errors() == Seq::<crate::error::EntryError>::empty(),
            r.errors.total_errors() == 0,
    {
        RunReport {
            run_id,
            status: RunStatus::Completed,
            entries_seen: 0,
            bytes_read: 0,
            errors: ErrorBudget::default(),
        }
    }
}

/// What each run status means to a consumer: completed and partial runs
/// carry results, cancelled and failed ones do not; the terminal event of a
/// run repeats its status, with the same error count for a partial run.
pub proof fn lemma_run_status_meaning(errors: u64)
    ensures
        RunStatus::Completed.spec_is_usable(),
        (RunStatus::Partial { errors }).spec_is_usable(),
        !RunStatus::Cancelled.spec_is_usable(),
        !RunStatus::Failed.spec_is_usable(),
        terminal_of(RunStatus::Completed) == TerminalEvent::Completed,
        terminal_of(RunStatus::Partial { errors }) == (TerminalEvent::Partial { errors }),
        terminal_of(RunStatus::Cancelled) == TerminalEvent::Cancelled,
        terminal_of(RunStatus::Failed) == TerminalEvent::Failed,
{
}

} // verus!
