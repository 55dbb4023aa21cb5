use xlindisk::model::fingerprint::{VerificationStatus, FINGERPRINT_ALGORITHM};
use xlindisk::model::ids::{LocatorId, ObjectId, ScanId, SessionId, SourceId, VolumeId};
use xlindisk::model::observation::{
    Observation, ObservationClass, ObservationValidation, Record, Snapshot, Timestamp,
};

fn snap() -> Snapshot {
    Snapshot {
        logical_size: Some(42),
        modified: Some(Timestamp::new(1_700_000_000, 0)),
        object: Some(ObjectId::new(SourceId(1), VolumeId(7), 99)),
        generation: None,
    }
}

#[test]
fn identical_snapshots_are_stable() {
    let a = snap();
    assert_eq!(a.classify(Some(&snap())), ObservationClass::Stable);
}

#[test]
fn size_change_is_detected() {
    let a = snap();
    let mut b = snap();
    b.logical_size = Some(43);
    assert_eq!(a.classify(Some(&b)), ObservationClass::ChangedDuringScan);
}

#[test]
fn mtime_change_is_detected() {
    let a = snap();
    let mut b = snap();
    b.modified = Some(Timestamp::new(1_700_000_001, 0));
    assert_eq!(a.classify(Some(&b)), ObservationClass::ChangedDuringScan);
}

#[test]
fn different_inode_is_detected() {
    let a = snap();
    let mut b = snap();
    b.object = Some(ObjectId::new(SourceId(1), VolumeId(7), 100));
    assert_eq!(a.classify(Some(&b)), ObservationClass::ChangedDuringScan);
}

#[test]
fn missing_object_is_gone() {
    let a = snap();
    assert_eq!(a.classify(None), ObservationClass::Gone);
}

#[test]
fn unknown_fields_do_not_fake_a_change() {
    let a = Snapshot::default();
    let b = snap();
    assert!(a.is_consistent_with(&b));
    assert_eq!(a.classify(Some(&b)), ObservationClass::Stable);
}

#[test]
fn gone_and_changed_are_never_confirmed() {
    assert!(!ObservationClass::Gone
        .to_verification_status()
        .is_confirmed());
    assert!(!ObservationClass::ChangedDuringScan
        .to_verification_status()
        .is_confirmed());
    assert!(ObservationClass::Stable
        .to_verification_status()
        .is_confirmed());
}

#[test]
fn generation_and_volume_changes_are_detected() {
    let mut a = snap();
    a.generation = Some(5);
    let mut b = a;
    b.generation = Some(6);
    assert!(!a.is_consistent_with(&b));
    let mut c = snap();
    c.object = Some(ObjectId::new(SourceId(1), VolumeId(8), 99));
    assert!(!snap().is_consistent_with(&c));
    let mut d = snap();
    d.generation = Some(7);
    assert!(snap().is_consistent_with(&d), "unknown generation on one side");
}

#[test]
fn classes_map_to_statuses() {
    assert_eq!(
        ObservationClass::Stable.to_verification_status(),
        VerificationStatus::HashMatched
    );
    assert_eq!(
        ObservationClass::Gone.to_verification_status(),
        VerificationStatus::ChangedDuringScan
    );
    assert_eq!(
        ObservationClass::Unreadable.to_verification_status(),
        VerificationStatus::Unreadable
    );
}

fn observation(size: Option<u64>, revision: Option<u64>) -> Observation {
    Observation {
        source: SourceId(1),
        locator: LocatorId(4),
        object: Some(ObjectId::new(SourceId(1), VolumeId(1), 3)),
        logical_size: size,
        modified: Some(Timestamp::new(10, 5)),
        revision,
    }
}

#[test]
fn strict_compare_only_compares_known_fields() {
    let before = observation(Some(10), Some(1));
    assert_eq!(
        Observation::strict_compare(&before, &before),
        ObservationValidation::ObservationStable
    );
    assert_eq!(
        Observation::strict_compare(&before, &observation(Some(11), Some(1))),
        ObservationValidation::ChangedDuringScan
    );
    assert_eq!(
        Observation::strict_compare(&before, &observation(Some(10), Some(2))),
        ObservationValidation::ChangedDuringScan
    );
    assert_eq!(
        Observation::strict_compare(&before, &observation(None, None)),
        ObservationValidation::ObservationStable
    );
}

#[test]
fn new_records_are_unverified_and_tagged() {
    let record = Record::new(ScanId(2), SessionId(3), SourceId(4), LocatorId(5));
    assert_eq!(record.scan_id, ScanId(2));
    assert_eq!(record.session_id, SessionId(3));
    assert_eq!(record.source, SourceId(4));
    assert_eq!(record.locator, LocatorId(5));
    assert_eq!(record.fingerprint_algorithm, FINGERPRINT_ALGORITHM);
    assert_eq!(record.fingerprint_algorithm_version, 1);
    assert_eq!(record.verification, VerificationStatus::Unverified);
    assert_eq!(record.fingerprint, None);
    assert_eq!(record.observed_at, None);
}
