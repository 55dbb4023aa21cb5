//! # xlindisk
//!
//! Read-only storage analysis kernel.
//!
//! Applications describe *what* they want; the core decides *how* to execute
//! it. The core never assumes that a storage object is a filesystem path, so
//! photo-library or content-provider adapters remain possible without a
//! rewrite.
//!
//! The crate holds the frozen contract types (identity, observation, locator,
//! run status, error, determinism, plan node IO, the duplicate candidate
//! budget and the result schema), the entry store, the plan presets and the
//! filesystem source skeleton. Nothing in it can unlink, move, trash or mutate
//! a storage object.

pub mod determinism;
pub mod duplicate;
pub mod error;
pub mod model;
pub mod plan;
pub mod presets;
pub mod runtime;
pub mod source;
pub mod source_fs;

pub use determinism::{canonical_cmp, sort_canonical, GroupOrderKey};
pub use duplicate::{CandidateBudget, DuplicateStage, SpillPolicy, SpillTarget};
pub use error::{EntryError, Error, ErrorBudget, ErrorCode};
pub use model::entry::{Entry, EntryFlags, EntryKind, SpecialSubtype};
pub use model::fingerprint::{
    Fingerprint, FingerprintSpec, VerificationMode, VerificationStatus, FINGERPRINT_ALGORITHM,
    FINGERPRINT_ALGORITHM_VERSION,
};
pub use model::ids::{
    EntryId, LocatorId, ObjectId, ObjectIdUnavailable, RunId, ScanId, SessionId, SourceId, VolumeId,
};
pub use model::observation::{
    Observation, ObservationClass, ObservationValidation, Record, Snapshot, Timestamp,
};
pub use model::store::{ChildIter, EntryStore, Session};
pub use plan::{Plan, PlanNode, PLAN_VERSION};
pub use runtime::{
    CancellationToken, ProgressEvent, ProgressStage, RunReport, RunStatus, TerminalEvent,
};
pub use source::{
    ContentReader, ContentRequest, EntryBatch, EntrySink, ScanOutcome, ScanRequest, Source,
    SourceCapabilities,
};
pub use source_fs::FilesystemSource;

use vstd::prelude::*;

verus! {

/// Version of the frozen core contract. Bumped only through a contract revision.
pub const CORE_CONTRACT_VERSION: u32 = 1;

} // verus!
