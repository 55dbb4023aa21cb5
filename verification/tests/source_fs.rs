use xlindisk::error::{Error, ErrorCode};
use xlindisk::model::ids::{LocatorId, SourceId};
use xlindisk::model::observation::{Observation, ObservationValidation};
use xlindisk::runtime::CancellationToken;
use xlindisk::source::{
    ContentRequest, EntryBatch, EntrySink, ScanRequest, Source, SourceCapabilities,
};
use xlindisk::source_fs::FilesystemSource;

struct Noop;

impl EntrySink for Noop {
    fn push(&mut self, _batch: EntryBatch<'_>) -> Result<(), Error> {
        Ok(())
    }
}

#[test]
fn skeleton_reports_the_capabilities_it_will_have() {
    let source = FilesystemSource::new(SourceId(1));
    assert_eq!(source.id(), SourceId(1));
    assert!(source
        .capabilities()
        .contains(SourceCapabilities::stable_object_id()));
}

#[test]
fn skeleton_refuses_to_scan() {
    let source = FilesystemSource::new(SourceId(1));
    let request = ScanRequest::new(SourceId(1), xlindisk::SessionId(1), vec![]);
    let err = source
        .scan(&request, &mut Noop, &CancellationToken::new())
        .unwrap_err();
    assert_eq!(err.code, ErrorCode::UnsupportedOperation);
}

#[test]
fn skeleton_refuses_content_but_validates_observations() {
    let source = FilesystemSource::new(SourceId(2));
    assert_eq!(
        source
            .open_content(LocatorId(1), ContentRequest::Whole)
            .err()
            .map(|e| e.code),
        Some(ErrorCode::UnsupportedOperation)
    );
    assert_eq!(source.stat(LocatorId(1)).unwrap_err().code, ErrorCode::UnsupportedOperation);
    assert!(source.display_locator(LocatorId(1)).is_err());
    assert!(source.sort_key(LocatorId(1)).is_err());
    let before = Observation {
        source: SourceId(2),
        locator: LocatorId(1),
        object: None,
        logical_size: Some(5),
        modified: None,
        revision: None,
    };
    let after = Observation {
        logical_size: Some(6),
        ..before
    };
    assert_eq!(
        source.validate_observation(LocatorId(1), &before, &before),
        Ok(ObservationValidation::ObservationStable)
    );
    assert_eq!(
        source.validate_observation(LocatorId(1), &before, &after),
        Ok(ObservationValidation::ChangedDuringScan)
    );
}
