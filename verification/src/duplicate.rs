//! Duplicate pipeline: staging and the memory model.
//!
//! A streaming scanner does **not** imply a low-memory duplicate query:
//! duplicate detection has to hold on to candidates until the last stage.
//! That cost is frozen here as an explicit budget instead of being discovered
//! in production.

use vstd::prelude::*;

verus! {

/// The three stages of the duplicate pipeline.
#[derive(Clone, Copy, PartialEq, Eq, Structural, Hash, Debug)]
pub enum DuplicateStage {
    /// Exact logical size grouping.
    Size,
    /// Cheap pre-filter (prefix + suffix).
    PartialFingerprint,
    /// Whole-content BLAKE3.
    FullFingerprint,
}

impl DuplicateStage {
    /// The frozen order of the pipeline: size, then partial, then full
    /// fingerprint.
    pub fn order() -> (r: [DuplicateStage; 3])
        ensures
            r@ == seq![
                DuplicateStage::Size,
                DuplicateStage::PartialFingerprint,
                DuplicateStage::FullFingerprint,
            ],
    {
        let r = [
            DuplicateStage::Size,
            DuplicateStage::PartialFingerprint,
            DuplicateStage::FullFingerprint,
        ];
        assert(r@ =~= seq![
            DuplicateStage::Size,
            DuplicateStage::PartialFingerprint,
            DuplicateStage::FullFingerprint,
        ]);
        r
    }
}

/// Where intermediate candidate state may go when memory runs out.
///
/// A path is deliberately *not* modelled here: the core has no notion of a
/// path, so the host names a target and resolves it.
#[derive(Clone, Copy, PartialEq, Eq, Structural, Debug)]
pub enum SpillTarget {
    /// Whatever the platform calls a temporary directory.
    SystemTemp,
    /// Host-resolved location, interpreted outside the core.
    Named,
}

#[derive(Clone, Copy, PartialEq, Eq, Structural, Debug)]
pub enum SpillPolicy {
    /// Refuse to spill: exceeding the budget is an error, not a slow scan.
    Forbid,
    /// Spill intermediate state to the given target.
    TempFile(SpillTarget),
}

/// The duplicate memory budget.
///
/// Without a persistent cache, these numbers are the only thing standing
/// between a dense-duplicate volume and an OOM kill, so they are part of the
/// contract.
#[derive(Clone, Copy, PartialEq, Eq, Structural, Debug)]
pub struct CandidateBudget {
    /// Maximum number of candidate entries kept between stages.
    pub max_candidates: Option<u64>,
    /// A single size group larger than this is not fully hashed.
    pub max_group_members: Option<u32>,
    /// What to do when a limit is hit.
    pub spill: SpillPolicy,
    /// Re-open the locator and read a second time instead of caching content.
    /// Cheap on local disks, expensive on network and cloud sources.
    pub re_read_instead_of_cache: bool,
}

impl Default for CandidateBudget {
    /// No limits, no spilling, re-read instead of caching.
    fn default() -> (r: Self)
        ensures
            r == (CandidateBudget {
                max_candidates: None,
                max_group_members: None,
                spill: SpillPolicy::Forbid,
                re_read_instead_of_cache: true,
            }),
    {
        CandidateBudget {
            max_candidates: None,
            max_group_members: None,
            spill: SpillPolicy::Forbid,
            re_read_instead_of_cache: true,
        }
    }
}

impl CandidateBudget {
    /// A group fits when there is no cap or it is within the cap.
    pub open spec fn spec_allows_group(self, members: u32) -> bool {
        match self.max_group_members {
            Some(max) => members <= max,
            None => true,
        }
    }

    /// True when a group of `members` candidates fits the budget.
    pub fn allows_group(&self, members: u32) -> (r: bool)
        ensures
            r == self.spec_allows_group(members),
    {
        match self.max_group_members {
            Some(max) => members <= max,
            None => true,
        }
    }
}

/// The group cap is monotone: a budget that admits a group admits every
/// smaller group, and a budget without a cap admits every group.
pub proof fn lemma_allows_group_monotone(budget: CandidateBudget, small: u32, large: u32)
    requires
        small <= large,
        budget.spec_allows_group(large),
    ensures
        budget.spec_allows_group(small),
        budget.max_group_members is None ==> budget.spec_allows_group(u32::MAX),
{
}

/// The group cap, exactly: a budget with a cap admits a group when it has at
/// most that many members and refuses it when it has more; a budget without
/// a cap admits every group.
pub proof fn lemma_allows_group_cap(budget: CandidateBudget, members: u32)
    ensures
        budget.max_group_members matches Some(max) && members <= max ==> budget.spec_allows_group(
            members,
        ),
        budget.max_group_members matches Some(max) && members > max
            ==> !budget.spec_allows_group(members),
        budget.max_group_members is None ==> budget.spec_allows_group(members),
{
}

} // verus!
