use xlindisk::error::{EntryError, ErrorCode};
use xlindisk::model::ids::RunId;
use xlindisk::runtime::{
    CancellationToken, ProgressEvent, ProgressStage, RunReport, RunStatus, TerminalEvent,
};

#[test]
fn cancelled_runs_can_still_be_usable() {
    // Frozen decision: cancellation returns the partial results it has.
    assert!(RunStatus::Partial { errors: 3 }.is_usable());
    assert!(!RunStatus::Cancelled.is_usable());
    assert!(!RunStatus::Failed.is_usable());
}

#[test]
fn terminal_event_closes_the_progress_stream() {
    let event = ProgressEvent::sample(RunId(1), 0, ProgressStage::Scan)
        .finish(RunStatus::Partial { errors: 2 });
    assert!(event.is_terminal());
    assert_eq!(event.terminal, Some(TerminalEvent::Partial { errors: 2 }));
}

#[test]
fn cancellation_is_visible_to_clones() {
    let token = CancellationToken::new();
    let worker = token.clone();
    assert!(!worker.is_cancelled());
    token.cancel();
    assert!(worker.is_cancelled());
}

#[test]
fn report_tracks_error_totals() {
    let mut report = RunReport::new(RunId(7));
    report
        .errors
        .record(EntryError::new(ErrorCode::ReadFailed, None, None));
    assert_eq!(report.errors.total(), 1);
}

#[test]
fn samples_start_at_zero_and_are_not_terminal() {
    let event = ProgressEvent::sample(RunId(9), 4, ProgressStage::Fingerprint);
    assert!(!event.is_terminal());
    assert_eq!(event.sequence, 4);
    assert_eq!(event.entries_seen, 0);
    assert_eq!(event.elapsed, std::time::Duration::ZERO);
    assert!(RunStatus::Completed.is_usable());
    assert_eq!(TerminalEvent::from(RunStatus::Completed), TerminalEvent::Completed);
    assert_eq!(TerminalEvent::from(RunStatus::Cancelled), TerminalEvent::Cancelled);
    assert_eq!(TerminalEvent::from(RunStatus::Failed), TerminalEvent::Failed);
    let finished = event.finish(RunStatus::Failed);
    assert_eq!(finished.terminal, Some(TerminalEvent::Failed));
    assert_eq!(finished.sequence, 4);
}

#[test]
fn new_reports_are_complete_and_clean() {
    let report = RunReport::new(RunId(3));
    assert_eq!(report.status, RunStatus::Completed);
    assert!(report.errors.is_empty());
    assert_eq!(report.errors.max_retained, 1024);
    assert!(!CancellationToken::default().is_cancelled());
}
