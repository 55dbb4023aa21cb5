use xlindisk::error::{EntryError, Error, ErrorBudget, ErrorCode};
use xlindisk::model::ids::{EntryId, LocatorId, SourceId};

#[test]
fn entry_level_errors_never_abort_a_run() {
    assert!(!ErrorCode::PermissionDenied.is_fatal());
    assert!(!ErrorCode::GoneDuringScan.is_fatal());
    assert!(!ErrorCode::ReadFailed.is_fatal());
    assert!(ErrorCode::RootNotFound.is_fatal());
}

#[test]
fn codes_are_stable() {
    assert_eq!(ErrorCode::RootNotFound.code(), 100);
    assert_eq!(ErrorCode::PermissionDenied.code(), 200);
    assert_eq!(ErrorCode::Cancelled.code(), 300);
    assert_eq!(ErrorCode::Internal.code(), 400);
}

#[test]
fn budget_counts_beyond_the_cap() {
    let mut budget = ErrorBudget::new(3);
    for i in 0..10u32 {
        budget.record(EntryError::new(
            ErrorCode::PermissionDenied,
            Some(EntryId(i)),
            None,
        ));
    }
    assert_eq!(budget.total(), 10);
    assert_eq!(budget.retained().len(), 3);
    assert_eq!(budget.dropped(), 7);
}

#[test]
fn error_classes_partition_the_codes() {
    let all = [
        ErrorCode::RootNotFound,
        ErrorCode::SourceInitFailed,
        ErrorCode::ExecutorUnavailable,
        ErrorCode::PlanInvalid,
        ErrorCode::PermissionDenied,
        ErrorCode::GoneDuringScan,
        ErrorCode::ReadFailed,
        ErrorCode::LocatorInvalid,
        ErrorCode::LocatorExpired,
        ErrorCode::ObjectIdUnavailable,
        ErrorCode::UnsupportedEntry,
        ErrorCode::BudgetExceeded,
        ErrorCode::UnsupportedOperation,
        ErrorCode::Cancelled,
        ErrorCode::Internal,
    ];
    for code in all {
        let classes = [code.is_fatal(), code.is_entry_level(), code.is_cancelled()];
        assert_eq!(classes.iter().filter(|c| **c).count(), 1, "{code:?}");
        let hundreds = code.code() / 100;
        assert_eq!(code.is_fatal(), hundreds == 1 || hundreds == 4);
        assert_eq!(code.is_entry_level(), hundreds == 2);
        assert_eq!(code.is_cancelled(), hundreds == 3);
    }
    assert_eq!(ErrorCode::PlanInvalid.code(), 103);
    assert_eq!(ErrorCode::LocatorInvalid.code(), 205);
    assert_eq!(ErrorCode::LocatorExpired.code(), 206);
    assert_eq!(ErrorCode::ObjectIdUnavailable.code(), 207);
    assert_eq!(ErrorCode::UnsupportedOperation.code(), 208);
    assert_eq!(ErrorCode::BudgetExceeded.code(), 209);
    assert_eq!(ErrorCode::UnsupportedEntry.code(), 210);
    let mut numbers: Vec<u16> = all.iter().map(|c| c.code()).collect();
    numbers.sort();
    numbers.dedup();
    assert_eq!(numbers.len(), all.len());
}

#[test]
fn budget_keeps_the_first_errors_in_order() {
    let mut budget = ErrorBudget::new(2);
    assert!(budget.is_empty());
    assert_eq!(budget.dropped(), 0);
    for i in 0..4u32 {
        budget.record(EntryError::new(ErrorCode::ReadFailed, Some(EntryId(i)), None));
    }
    assert!(!budget.is_empty());
    assert_eq!(budget.retained()[0].entry, Some(EntryId(0)));
    assert_eq!(budget.retained()[1].entry, Some(EntryId(1)));
    assert_eq!(budget.dropped(), 2);

    let mut none_kept = ErrorBudget::new(0);
    none_kept.record(EntryError::new(ErrorCode::ReadFailed, None, None));
    assert_eq!(none_kept.retained().len(), 0);
    assert_eq!(none_kept.dropped(), 1);
}

#[test]
fn default_budget_retains_1024() {
    let mut budget = ErrorBudget::default();
    assert_eq!(budget.max_retained, 1024);
    assert_eq!(budget.max_retained(), 1024);
    assert_eq!(ErrorBudget::new(7).max_retained(), 7);
    assert_eq!(budget.total(), 0);
    assert!(budget.retained().is_empty());
    for _ in 0..1029u32 {
        budget.record(EntryError::new(ErrorCode::PermissionDenied, None, None));
    }
    assert_eq!(budget.retained().len(), 1024);
    assert_eq!(budget.dropped(), 5);
    assert_eq!(budget.total(), 1029);
}

#[test]
fn a_budget_keeps_the_first_errors_in_order() {
    let mut budget = ErrorBudget::new(3);
    assert!(budget.is_empty());
    for i in 0..7u32 {
        budget.record(EntryError::new(ErrorCode::ReadFailed, Some(EntryId(i)), None));
        assert_eq!(budget.total(), u64::from(i) + 1);
        assert!(budget.retained().len() <= budget.max_retained);
        assert_eq!(budget.retained().len() as u64 + budget.dropped(), budget.total());
    }
    assert!(!budget.is_empty());
    let kept: Vec<Option<EntryId>> = budget.retained().iter().map(|e| e.entry).collect();
    assert_eq!(kept, vec![Some(EntryId(0)), Some(EntryId(1)), Some(EntryId(2))]);
    assert_eq!(budget.dropped(), 4);
}

#[test]
fn errors_carry_context() {
    let error = Error::new(ErrorCode::ReadFailed)
        .on_entry(EntryId(3))
        .on_locator(LocatorId(9))
        .on_source(SourceId(2));
    assert_eq!(error.code, ErrorCode::ReadFailed);
    assert_eq!(error.entry, Some(EntryId(3)));
    assert_eq!(error.locator, Some(LocatorId(9)));
    assert_eq!(error.source, Some(SourceId(2)));
    assert_eq!(error.detail, None);
    let detailed = Error::with_detail(ErrorCode::PlanInvalid, "empty plan");
    assert_eq!(detailed.detail, Some("empty plan"));
    assert_eq!(detailed.entry, None);
}

#[test]
fn messages_render_code_name_and_detail() {
    assert_eq!(
        Error::with_detail(ErrorCode::PlanInvalid, "empty plan").message(),
        "E103 PlanInvalid: empty plan"
    );
    assert_eq!(Error::new(ErrorCode::Cancelled).message(), "E300 Cancelled");
    assert_eq!(ErrorCode::UnsupportedOperation.label(), "E208 UnsupportedOperation");
    assert_eq!(
        ErrorCode::Internal.label(),
        format!("E{} {:?}", ErrorCode::Internal.code(), ErrorCode::Internal)
    );
}
