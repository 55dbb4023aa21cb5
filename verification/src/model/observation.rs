//! Observation: what the core saw, and whether it can still be trusted.
//!
//! Files move and change while a scan runs. A duplicate conclusion is only
//! valid if the observation was stable across both passes, so the snapshot
//! taken before hashing is part of the result, not an implementation detail.

use crate::model::fingerprint::{
    Fingerprint, VerificationStatus, FINGERPRINT_ALGORITHM, FINGERPRINT_ALGORITHM_VERSION,
};
use crate::model::ids::{LocatorId, ObjectId, ScanId, SessionId, SourceId};
use vstd::prelude::*;

verus! {

/// Wall-clock timestamp with nanoseconds. Source-provided; the core never
/// invents one.
#[derive(Clone, Copy, PartialEq, Eq, Structural, PartialOrd, Ord, Hash, Debug, Default)]
pub struct Timestamp {
    pub secs: i64,
    pub nanos: u32,
}

impl Timestamp {
    pub fn new(secs: i64, nanos: u32) -> (r: Self)
        ensures
            r.secs == secs,
            r.nanos == nanos,
    {
        Timestamp { secs, nanos }
    }
}

/// Two optional observations of one field agree unless both are known and
/// differ: an unknown value can never prove a change.
pub open spec fn agrees<T>(a: Option<T>, b: Option<T>) -> bool {
    match (a, b) {
        (Some(x), Some(y)) => x == y,
        _ => true,
    }
}

/// The metadata of an object at one instant.
#[derive(Clone, Copy, PartialEq, Eq, Structural, Hash, Debug, Default)]
pub struct Snapshot {
    pub logical_size: Option<u64>,
    pub modified: Option<Timestamp>,
    pub object: Option<ObjectId>,
    /// Platform change counter (Windows change time, generation number) when
    /// available; stronger than mtime alone.
    pub generation: Option<u64>,
}

impl Snapshot {
    /// No field that is known in both snapshots differs.
    pub open spec fn consistent(self, later: Snapshot) -> bool {
        &&& agrees(self.object, later.object)
        &&& agrees(self.logical_size, later.logical_size)
        &&& agrees(self.modified, later.modified)
        &&& agrees(self.generation, later.generation)
    }

    /// The class of a re-stat: gone when there is none, changed when it
    /// contradicts this snapshot, stable otherwise.
    pub open spec fn spec_classify(self, after: Option<Snapshot>) -> ObservationClass {
        match after {
            None => ObservationClass::Gone,
            Some(later) => if self.consistent(later) {
                ObservationClass::Stable
            } else {
                ObservationClass::ChangedDuringScan
            },
        }
    }

    /// Compare two snapshots of the same locator.
    ///
    /// Unknown fields (`None`) cannot prove a change and are ignored; a field
    /// that is known on both sides and differs does prove one.
    pub fn is_consistent_with(&self, later: &Self) -> (r: bool)
        ensures
            r == self.consistent(*later),
    {
        if let (Some(a), Some(b)) = (self.object, later.object) {
            if a != b {
                return false;
            }
        }
        if let (Some(a), Some(b)) = (self.logical_size, later.logical_size) {
            if a != b {
                return false;
            }
        }
        if let (Some(a), Some(b)) = (self.modified, later.modified) {
            if a != b {
                return false;
            }
        }
        if let (Some(a), Some(b)) = (self.generation, later.generation) {
            if a != b {
                return false;
            }
        }
        true
    }

    /// Classify a re-stat performed after hashing.
    ///
    /// `None` means the object is gone: it was deleted, renamed, or moved out
    /// of scope during the scan.
    pub fn classify(&self, after: Option<&Self>) -> (r: ObservationClass)
        ensures
            r == self.spec_classify(
                match after {
                    Some(s) => Some(*s),
                    None => None,
                },
            ),
    {
        match after {
            None => ObservationClass::Gone,
            Some(later) => if !self.is_consistent_with(later) {
                ObservationClass::ChangedDuringScan
            } else {
                ObservationClass::Stable
            },
        }
    }
}

/// Outcome of the observation-consistency check.
#[derive(Clone, Copy, PartialEq, Eq, Structural, Hash, Debug)]
pub enum ObservationClass {
    /// Both passes agree; the duplicate conclusion may stand.
    Stable,
    /// The object changed between passes: never report as a duplicate.
    ChangedDuringScan,
    /// The object disappeared; the entry is dropped from results.
    Gone,
    /// Content could not be read (permission, IO, ...).
    Unreadable,
}

impl ObservationClass {
    /// The verification status a class is recorded as.
    pub open spec fn spec_verification_status(self) -> VerificationStatus {
        match self {
            ObservationClass::Stable => VerificationStatus::HashMatched,
            ObservationClass::ChangedDuringScan => VerificationStatus::ChangedDuringScan,
            ObservationClass::Gone => VerificationStatus::ChangedDuringScan,
            ObservationClass::Unreadable => VerificationStatus::Unreadable,
        }
    }

    /// Map to the verification status recorded on the result.
    pub fn to_verification_status(self) -> (r: VerificationStatus)
        ensures
            r == self.spec_verification_status(),
    {
        match self {
            ObservationClass::Stable => VerificationStatus::HashMatched,
            ObservationClass::ChangedDuringScan => VerificationStatus::ChangedDuringScan,
            ObservationClass::Gone => VerificationStatus::ChangedDuringScan,
            ObservationClass::Unreadable => VerificationStatus::Unreadable,
        }
    }
}

/// Only a stable observation may ever become a confirmed result: gone and
/// changed objects are never confirmed, whatever their fingerprints say.
pub proof fn lemma_only_stable_is_confirmed(class: ObservationClass)
    ensures
        class.spec_verification_status().spec_is_confirmed() <==> class == ObservationClass::Stable,
{
}

/// A snapshot is always consistent with itself, and consistency does not
/// depend on which of the two snapshots came first.
pub proof fn lemma_consistency_reflexive_symmetric(a: Snapshot, b: Snapshot)
    ensures
        a.consistent(a),
        a.consistent(b) == b.consistent(a),
        a.spec_classify(Some(a)) == ObservationClass::Stable,
{
}

/// A snapshot that knows nothing is consistent with every later snapshot:
/// unknown fields never fake a change.
pub proof fn lemma_unknown_never_changes(later: Snapshot)
    ensures
        (Snapshot { logical_size: None, modified: None, object: None, generation: None }).consistent(
            later,
        ),
{
}

/// Classifying a re-stat, field by field: no re-stat means the object is
/// gone; a re-stat whose object id, size, mtime or generation is known on
/// both sides and differs means it changed during the scan; a re-stat in
/// which every field is equal or unknown on one side is stable.
pub proof fn lemma_classify_field_by_field(before: Snapshot, later: Snapshot)
    ensures
        before.spec_classify(None) == ObservationClass::Gone,
        before.object is Some && later.object is Some && before.object != later.object
            ==> before.spec_classify(Some(later)) == ObservationClass::ChangedDuringScan,
        before.logical_size is Some && later.logical_size is Some && before.logical_size
            != later.logical_size ==> before.spec_classify(Some(later))
            == ObservationClass::ChangedDuringScan,
        before.modified is Some && later.modified is Some && before.modified != later.modified
            ==> before.spec_classify(Some(later)) == ObservationClass::ChangedDuringScan,
        before.generation is Some && later.generation is Some && before.generation
            != later.generation ==> before.spec_classify(Some(later))
            == ObservationClass::ChangedDuringScan,
        (before.object is None || later.object is None || before.object == later.object)
            && (before.logical_size is None || later.logical_size is None || before.logical_size
            == later.logical_size) && (before.modified is None || later.modified is None
            || before.modified == later.modified) && (before.generation is None
            || later.generation is None || before.generation == later.generation)
            ==> before.spec_classify(Some(later)) == ObservationClass::Stable,
        before.spec_classify(Some(later)) != ObservationClass::Gone,
        before.spec_classify(Some(later)) != ObservationClass::Unreadable,
{
}

/// The status each class is recorded as: a stable observation is hash
/// matched; a changed or vanished object is recorded as changed during the
/// scan; unreadable content is recorded as unreadable. No class is recorded
/// as byte-exact verified or as unverified.
pub proof fn lemma_verification_status_of_each_class(class: ObservationClass)
    ensures
        ObservationClass::Stable.spec_verification_status() == VerificationStatus::HashMatched,
        ObservationClass::ChangedDuringScan.spec_verification_status()
            == VerificationStatus::ChangedDuringScan,
        ObservationClass::Gone.spec_verification_status() == VerificationStatus::ChangedDuringScan,
        ObservationClass::Unreadable.spec_verification_status() == VerificationStatus::Unreadable,
        class.spec_verification_status() != VerificationStatus::Unverified,
        class.spec_verification_status() != VerificationStatus::ByteExactVerified,
        class.spec_verification_status() == VerificationStatus::ChangedDuringScan <==> (class
            == ObservationClass::ChangedDuringScan || class == ObservationClass::Gone),
{
}

/// What a source observed about one object at one instant, including the
/// source-specific revision token when the platform has one.
#[derive(Clone, Copy, PartialEq, Eq, Structural, Hash, Debug)]
pub struct Observation {
    pub source: SourceId,
    pub locator: LocatorId,
    pub object: Option<ObjectId>,
    pub logical_size: Option<u64>,
    pub modified: Option<Timestamp>,
    /// Source-specific version information (generation, change counter,
    /// version token); `None` when the source has none.
    pub revision: Option<u64>,
}

/// Result of validating a re-observation against the first one.
#[derive(Clone, Copy, PartialEq, Eq, Structural, Hash, Debug)]
pub enum ObservationValidation {
    /// Identity, size, timestamp and revision agree.
    ObservationStable,
    /// Something observable changed between the two observations.
    ChangedDuringScan,
    /// The object disappeared: deleted, renamed or moved out of scope.
    Gone,
    /// The object is still there but can no longer be read.
    PermissionChanged,
    /// Content could not be read.
    Unreadable,
}

impl Observation {
    /// The conservative comparison: every field known on both sides agrees.
    pub open spec fn strictly_agrees(self, after: Observation) -> bool {
        &&& agrees(self.object, after.object)
        &&& agrees(self.logical_size, after.logical_size)
        &&& agrees(self.modified, after.modified)
        &&& agrees(self.revision, after.revision)
    }

    /// The outcome of the conservative comparison: stable when every field
    /// known on both sides agrees, changed otherwise.
    pub open spec fn spec_strict_compare(before: Observation, after: Observation) -> ObservationValidation {
        if before.strictly_agrees(after) {
            ObservationValidation::ObservationStable
        } else {
            ObservationValidation::ChangedDuringScan
        }
    }

    /// The conservative default validation: object id, size, mtime and
    /// revision must agree wherever both observations know them.
    pub fn strict_compare(before: &Observation, after: &Observation) -> (r: ObservationValidation)
        ensures
            r == Observation::spec_strict_compare(*before, *after),
    {
        if let (Some(a), Some(b)) = (before.object, after.object) {
            if a != b {
                return ObservationValidation::ChangedDuringScan;
            }
        }
        if let (Some(a), Some(b)) = (before.logical_size, after.logical_size) {
            if a != b {
                return ObservationValidation::ChangedDuringScan;
            }
        }
        if let (Some(a), Some(b)) = (before.modified, after.modified) {
            if a != b {
                return ObservationValidation::ChangedDuringScan;
            }
        }
        if let (Some(a), Some(b)) = (before.revision, after.revision) {
            if a != b {
                return ObservationValidation::ChangedDuringScan;
            }
        }
        ObservationValidation::ObservationStable
    }
}

/// One output row.
///
/// The field set is frozen: it already carries everything a future safe
/// deletion layer needs (session, observation time, scope, locator, object
/// identity, size/mtime, algorithm version, verification status). Deletion
/// must re-verify through the locator — never from a path or a digest alone.
#[derive(Clone, Copy, PartialEq, Eq, Debug)]
pub struct Record {
    pub scan_id: ScanId,
    pub session_id: SessionId,
    /// When the observation was made.
    pub observed_at: Option<Timestamp>,
    pub source: SourceId,
    pub locator: LocatorId,
    pub object: Option<ObjectId>,
    pub logical_size: Option<u64>,
    pub modified: Option<Timestamp>,
    pub fingerprint: Option<Fingerprint>,
    pub fingerprint_algorithm: &'static str,
    pub fingerprint_algorithm_version: u32,
    pub verification: VerificationStatus,
}

impl Record {
    /// A fresh, unverified row: nothing observed yet, tagged with the current
    /// fingerprint algorithm and its version.
    pub fn new(scan_id: ScanId, session_id: SessionId, source: SourceId, locator: LocatorId) -> (r:
        Self)
        ensures
            r.scan_id == scan_id,
            r.session_id == session_id,
            r.source == source,
            r.locator == locator,
            r.observed_at is None,
            r.object is None,
            r.logical_size is None,
            r.modified is None,
            r.fingerprint is None,
            r.fingerprint_algorithm == FINGERPRINT_ALGORITHM,
            r.fingerprint_algorithm_version == FINGERPRINT_ALGORITHM_VERSION,
            r.verification == VerificationStatus::Unverified,
    {
        Record {
            scan_id,
            session_id,
            observed_at: None,
            source,
            locator,
            object: None,
            logical_size: None,
            modified: None,
            fingerprint: None,
            fingerprint_algorithm: FINGERPRINT_ALGORITHM,
            fingerprint_algorithm_version: FINGERPRINT_ALGORITHM_VERSION,
            verification: VerificationStatus::Unverified,
        }
    }
}

/// Validating a re-observation, field by field: when the object id, the
/// size, the mtime or the revision is known in both observations and
/// differs, the object changed during the scan; when each of them is equal
/// or unknown on one side, the observation is stable. Nothing else is ever
/// the outcome.
pub proof fn lemma_strict_compare_field_by_field(before: Observation, after: Observation)
    ensures
        before.object is Some && after.object is Some && before.object != after.object
            ==> Observation::spec_strict_compare(before, after)
            == ObservationValidation::ChangedDuringScan,
        before.logical_size is Some && after.logical_size is Some && before.logical_size
            != after.logical_size ==> Observation::spec_strict_compare(before, after)
            == ObservationValidation::ChangedDuringScan,
        before.modified is Some && after.modified is Some && before.modified != after.modified
            ==> Observation::spec_strict_compare(before, after)
            == ObservationValidation::ChangedDuringScan,
        before.revision is Some && after.revision is Some && before.revision != after.revision
            ==> Observation::spec_strict_compare(before, after)
            == ObservationValidation::ChangedDuringScan,
        (before.object is None || after.object is None || before.object == after.object)
            && (before.logical_size is None || after.logical_size is None || before.logical_size
            == after.logical_size) && (before.modified is None || after.modified is None
            || before.modified == after.modified) && (before.revision is None
            || after.revision is None || before.revision == after.revision)
            ==> Observation::spec_strict_compare(before, after)
            == ObservationValidation::ObservationStable,
        Observation::spec_strict_compare(before, after) == ObservationValidation::ObservationStable
            || Observation::spec_strict_compare(before, after)
            == ObservationValidation::ChangedDuringScan,
{
}

/// Validation does not depend on which observation came first, and an
/// observation always validates against itself.
pub proof fn lemma_strict_compare_symmetric(a: Observation, b: Observation)
    ensures
        Observation::spec_strict_compare(a, b) == Observation::spec_strict_compare(b, a),
        Observation::spec_strict_compare(a, a) == ObservationValidation::ObservationStable,
{
}

} // verus!
