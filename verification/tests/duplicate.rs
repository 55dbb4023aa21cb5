use xlindisk::duplicate::{CandidateBudget, DuplicateStage, SpillPolicy, SpillTarget};

#[test]
fn stage_order_is_size_then_partial_then_full() {
    assert_eq!(
        DuplicateStage::order(),
        [
            DuplicateStage::Size,
            DuplicateStage::PartialFingerprint,
            DuplicateStage::FullFingerprint
        ]
    );
}

#[test]
fn default_budget_does_not_spill() {
    let budget = CandidateBudget::default();
    assert_eq!(budget.spill, SpillPolicy::Forbid);
    assert!(budget.allows_group(u32::MAX));
}

#[test]
fn group_cap_is_enforced() {
    let budget = CandidateBudget {
        max_group_members: Some(64),
        ..CandidateBudget::default()
    };
    assert!(budget.allows_group(64));
    assert!(!budget.allows_group(65));
}

#[test]
fn default_budget_is_unbounded_and_rereads() {
    let budget = CandidateBudget::default();
    assert_eq!(budget.max_candidates, None);
    assert_eq!(budget.max_group_members, None);
    assert!(budget.re_read_instead_of_cache);
    let spilling = CandidateBudget {
        spill: SpillPolicy::TempFile(SpillTarget::SystemTemp),
        max_group_members: Some(0),
        ..CandidateBudget::default()
    };
    assert!(spilling.allows_group(0));
    assert!(!spilling.allows_group(1));
}
