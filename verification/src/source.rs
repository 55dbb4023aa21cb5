//! The source contract.
//!
//! A source answers "what objects exist" and "how do I read one". It is the
//! only place that knows about paths, content URIs or photo-library
//! resources; the core only ever holds an opaque
//! [`crate::model::ids::LocatorId`].

use crate::error::Error;
use crate::model::entry::Entry;
use crate::model::ids::{LocatorId, SessionId, SourceId};
use crate::model::observation::{Observation, ObservationValidation};
use crate::runtime::CancellationToken;
use vstd::prelude::*;

verus! {

#[verifier::external_type_specification]
#[verifier::external_body]
pub struct ExIoError(std::io::Error);

/// What a source supports. Capabilities are not authorization: a source may
/// be able to delete and still be unauthorized right now.
///
/// A set of single-bit flags held in a `u32`; its view is that `u32`.
#[derive(Clone, Copy, PartialEq, Eq, Structural, Hash, Debug)]
pub struct SourceCapabilities {
    bits: u32,
}

impl View for SourceCapabilities {
    type V = u32;

    closed spec fn view(&self) -> u32 {
        self.bits
    }
}

impl SourceCapabilities {
    /// Every capability of `other` is in `self`.
    pub open spec fn has(self, other: SourceCapabilities) -> bool {
        self@ & other@ == other@
    }

    /// No capability at all.
    pub fn empty() -> (r: SourceCapabilities)
        ensures
            r@ == 0,
    {
        SourceCapabilities { bits: 0 }
    }

    /// The raw bit pattern.
    pub fn bits(&self) -> (r: u32)
        ensures
            r == self@,
    {
        self.bits
    }

    /// True when every capability of `other` is also in `self`.
    pub fn contains(&self, other: SourceCapabilities) -> (r: bool)
        ensures
            r == self.has(other),
    {
        self.bits & other.bits == other.bits
    }

    /// The capabilities of both sets.
    pub fn union(self, other: SourceCapabilities) -> (r: SourceCapabilities)
        ensures
            r@ == self@ | other@,
    {
        SourceCapabilities { bits: self.bits | other.bits }
    }

    /// Adds every capability of `other` to `self`.
    pub fn insert(&mut self, other: SourceCapabilities)
        ensures
            final(self)@ == old(self)@ | other@,
    {
        self.bits = self.bits | other.bits;
    }

    pub fn hierarchical() -> (r: SourceCapabilities)
        ensures
            r@ == 0x1,
    {
        SourceCapabilities { bits: 0x1 }
    }

    /// Can produce stable [`crate::model::ids::ObjectId`]s.
    pub fn stable_object_id() -> (r: SourceCapabilities)
        ensures
            r@ == 0x2,
    {
        SourceCapabilities { bits: 0x2 }
    }

    pub fn sequential_read() -> (r: SourceCapabilities)
        ensures
            r@ == 0x4,
    {
        SourceCapabilities { bits: 0x4 }
    }

    pub fn seek() -> (r: SourceCapabilities)
        ensures
            r@ == 0x8,
    {
        SourceCapabilities { bits: 0x8 }
    }

    pub fn range_read() -> (r: SourceCapabilities)
        ensures
            r@ == 0x10,
    {
        SourceCapabilities { bits: 0x10 }
    }

    /// Content lives on this machine; no network round-trip per read.
    pub fn local_only() -> (r: SourceCapabilities)
        ensures
            r@ == 0x20,
    {
        SourceCapabilities { bits: 0x20 }
    }

    /// Content reads must be serialized by the runtime. Unset means
    /// concurrent reads are allowed (the common case).
    pub fn serialize_reads() -> (r: SourceCapabilities)
        ensures
            r@ == 0x40,
    {
        SourceCapabilities { bits: 0x40 }
    }
}

/// Default capability set of a local filesystem source: hierarchical,
/// stable object ids, sequential, seekable and range reads, local only — and
/// concurrent reads allowed.
pub fn filesystem_capabilities() -> (r: SourceCapabilities)
    ensures
        r@ == 0x3f,
        r@ & 0x2 == 0x2 && r@ & 0x8 == 0x8 && r@ & 0x10 == 0x10,
        r@ & 0x40 == 0,
{
    let r = SourceCapabilities::hierarchical().union(SourceCapabilities::stable_object_id()).union(
        SourceCapabilities::sequential_read(),
    ).union(SourceCapabilities::seek()).union(SourceCapabilities::range_read()).union(
        SourceCapabilities::local_only(),
    );
    assert(((((0x1u32 | 0x2u32) | 0x4u32) | 0x8u32) | 0x10u32) | 0x20u32 == 0x3fu32) by (bit_vector);
    assert(0x3fu32 & 0x2u32 == 0x2u32 && 0x3fu32 & 0x8u32 == 0x8u32 && 0x3fu32 & 0x10u32 == 0x10u32
        && 0x3fu32 & 0x40u32 == 0u32) by (bit_vector);
    r
}

/// How symlinks / junctions / reparse points are treated.
///
/// Part of the request, so two runs with different policies are visibly
/// different runs.
#[derive(Clone, Copy, PartialEq, Eq, Structural, Hash, Debug, Default)]
pub enum LinkPolicy {
    /// Never traverse a link; report it as an entry with the `LINK` flag.
    #[default]
    DoNotFollow,
    /// Follow links whose target stays inside the requested roots. Cycles are
    /// reported, never traversed twice.
    FollowWithinRoots,
}

/// Whether traversal may leave the filesystem it started on.
#[derive(Clone, Copy, PartialEq, Eq, Structural, Hash, Debug, Default)]
pub enum BoundaryPolicy {
    /// Stop at mount points / volume boundaries; report them with the
    /// `MOUNT_BOUNDARY` flag.
    #[default]
    StayWithinRoots,
    /// Cross boundaries (explicit opt-in only).
    Cross,
}

/// What to enumerate.
#[derive(Clone, Debug)]
pub struct ScanRequest {
    pub source: SourceId,
    pub session: SessionId,
    /// Roots are locators, not paths: the core does not know what a path is.
    pub roots: Vec<LocatorId>,
    pub link_policy: LinkPolicy,
    pub boundary_policy: BoundaryPolicy,
}

impl ScanRequest {
    /// A request with the safe defaults: links are not followed and
    /// traversal stays within the roots.
    pub fn new(source: SourceId, session: SessionId, roots: Vec<LocatorId>) -> (r: Self)
        ensures
            r.source == source,
            r.session == session,
            r.roots@ == roots@,
            r.link_policy == LinkPolicy::DoNotFollow,
            r.boundary_policy == BoundaryPolicy::StayWithinRoots,
    {
        ScanRequest {
            source,
            session,
            roots,
            link_policy: LinkPolicy::DoNotFollow,
            boundary_policy: BoundaryPolicy::StayWithinRoots,
        }
    }
}

/// A chunk of entries.
///
/// Batching keeps allocation, channel and synchronization cost off the hot
/// path: one cross-thread message per file would dominate everything else.
#[derive(Clone, Copy, Debug)]
pub struct EntryBatch<'a> {
    pub source: SourceId,
    pub entries: &'a [Entry],
}

/// Receives batches. Implementations must tolerate batches arriving in any
/// order and from any worker: deterministic ordering is applied at output
/// time, not during the scan.
pub trait EntrySink {
    fn push(&mut self, batch: EntryBatch<'_>) -> Result<(), Error>;
}

/// What to read.
#[derive(Clone, Copy, PartialEq, Eq, Structural, Debug)]
pub enum ContentRequest {
    Whole,
    Range { offset: u64, len: u64 },
}

/// Stream of object content.
///
/// Not a filesystem file: the same pipeline must later read a photo-library
/// resource or a document-provider stream without changing the fingerprint
/// code. Readers can be moved between threads.
pub trait ContentReader: Send {
    fn read(&mut self, buf: &mut [u8]) -> std::io::Result<usize>;

    /// Optional hint; `None` when the length is unknown, which is what a
    /// reader that does not override it reports.
    fn remaining(&self) -> (r: Option<u64>)
        default_ensures
            r is None,
    {
        None
    }
}

/// Counters returned by a scan.
#[derive(Clone, Copy, PartialEq, Eq, Structural, Debug, Default)]
pub struct ScanOutcome {
    pub entries: u64,
    pub errors: u64,
}

/// The boundary between the core and a storage world.
///
/// Locator contract:
///
/// * a `LocatorId` is issued by a source and belongs to that source **and**
///   to the session that produced it — reusing it elsewhere is
///   `LocatorInvalid`;
/// * locators are `Copy`, so they may travel between threads and pipeline
///   stages; re-opening later is allowed unless the session ended
///   (`LocatorExpired`);
/// * `stat` is the re-validation primitive: the fingerprint pass re-stats and
///   validates against the observation taken during the scan, with the
///   source's own `validate_observation`;
/// * `display_locator` is the *only* way to obtain a human-readable path, and
///   it lives here precisely so the core never stores one.
pub trait Source: Send + Sync {
    fn id(&self) -> SourceId;

    fn capabilities(&self) -> SourceCapabilities;

    fn scan(&self, request: &ScanRequest, sink: &mut dyn EntrySink, cancel: &CancellationToken) -> Result<
        ScanOutcome,
        Error,
    >;

    /// Open content for reading.
    fn open_content(&self, locator: LocatorId, request: ContentRequest) -> Result<
        Box<dyn ContentReader + '_>,
        Error,
    >;

    /// Re-observe an object: re-validation before fingerprinting, and later
    /// before any destructive action.
    fn stat(&self, locator: LocatorId) -> Result<Observation, Error>;

    /// Human-readable rendering of a locator, for CLI / UI / logs only. Never
    /// feed the result back into the core as an identity.
    fn display_locator(&self, locator: LocatorId) -> Result<String, Error>;

    /// Canonical byte-level ordering key of a locator.
    fn sort_key(&self, locator: LocatorId) -> Result<Vec<u8>, Error>;

    /// Whether two observations of one locator show the same object state;
    /// each source decides how strong that judgement is.
    fn validate_observation(
        &self,
        locator: LocatorId,
        before: &Observation,
        after: &Observation,
    ) -> Result<ObservationValidation, Error>;
}

} // verus!
