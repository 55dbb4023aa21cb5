//! Filesystem source.
//!
//! This source exists from day one so that the core never learns what a path
//! is: photo libraries and content providers do not offer "an openable path",
//! and modelling one inside the core would force a rewrite the moment a
//! mobile adapter appears.
//!
//! **Status: skeleton.** Every operation except identity, capabilities and
//! observation validation reports `UnsupportedOperation`; the walkers come
//! later.

use crate::error::{Error, ErrorCode};
use crate::model::ids::{LocatorId, SourceId};
use crate::model::observation::{Observation, ObservationValidation};
use crate::runtime::CancellationToken;
use crate::source::{
    filesystem_capabilities, ContentReader, ContentRequest, EntrySink, ScanOutcome, ScanRequest,
    Source, SourceCapabilities,
};
use vstd::prelude::*;

verus! {

/// Why every unimplemented operation fails.
pub const NOT_IMPLEMENTED: &'static str = "xlindisk-source-fs is a skeleton until PR3";

/// Placeholder filesystem source.
pub struct FilesystemSource {
    id: SourceId,
}

impl FilesystemSource {
    /// The identity this source reports.
    pub closed spec fn source_id(&self) -> SourceId {
        self.id
    }

    pub fn new(id: SourceId) -> (r: Self)
        ensures
            r.source_id() == id,
    {
        FilesystemSource { id }
    }
}

impl Source for FilesystemSource {
    fn id(&self) -> (r: SourceId)
        ensures
            r == self.source_id(),
    {
        self.id
    }

    fn capabilities(&self) -> (r: SourceCapabilities)
        ensures
            r@ == 0x3f,
    {
        filesystem_capabilities()
    }

    fn scan(&self, _request: &ScanRequest, _sink: &mut dyn EntrySink, _cancel: &CancellationToken) -> (r:
        Result<ScanOutcome, Error>)
        ensures
            r == Err::<ScanOutcome, Error>(
                Error::spec_new(ErrorCode::UnsupportedOperation, Some(NOT_IMPLEMENTED)),
            ),
    {
        Err(Error::with_detail(ErrorCode::UnsupportedOperation, NOT_IMPLEMENTED))
    }

    fn open_content(&self, _locator: LocatorId, _request: ContentRequest) -> (r: Result<
        Box<dyn ContentReader + '_>,
        Error,
    >)
        ensures
            r matches Err(e) && e == Error::spec_new(
                ErrorCode::UnsupportedOperation,
                Some(NOT_IMPLEMENTED),
            ),
    {
        Err(Error::with_detail(ErrorCode::UnsupportedOperation, NOT_IMPLEMENTED))
    }

    fn stat(&self, _locator: LocatorId) -> (r: Result<Observation, Error>)
        ensures
            r == Err::<Observation, Error>(
                Error::spec_new(ErrorCode::UnsupportedOperation, Some(NOT_IMPLEMENTED)),
            ),
    {
        Err(Error::with_detail(ErrorCode::UnsupportedOperation, NOT_IMPLEMENTED))
    }

    fn display_locator(&self, _locator: LocatorId) -> (r: Result<String, Error>)
        ensures
            r matches Err(e) && e == Error::spec_new(
                ErrorCode::UnsupportedOperation,
                Some(NOT_IMPLEMENTED),
            ),
    {
        Err(Error::with_detail(ErrorCode::UnsupportedOperation, NOT_IMPLEMENTED))
    }

    /// Canonical ordering key: raw filename bytes on Unix, lossless UTF-16
    /// code units on Windows, lexicographic either way — no case folding, no
    /// Unicode normalization. Not implemented yet.
    fn sort_key(&self, _locator: LocatorId) -> (r: Result<Vec<u8>, Error>)
        ensures
            r matches Err(e) && e == Error::spec_new(
                ErrorCode::UnsupportedOperation,
                Some(NOT_IMPLEMENTED),
            ),
    {
        Err(Error::with_detail(ErrorCode::UnsupportedOperation, NOT_IMPLEMENTED))
    }

    /// The filesystem rule: object id + size + mtime + revision must agree
    /// wherever both observations know them.
    fn validate_observation(&self, _locator: LocatorId, before: &Observation, after: &Observation) -> (r:
        Result<ObservationValidation, Error>)
        ensures
            r == Ok::<ObservationValidation, Error>(Observation::spec_strict_compare(*before, *after)),
    {
        Ok(Observation::strict_compare(before, after))
    }
}

} // verus!
