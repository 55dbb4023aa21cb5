use xlindisk::model::ids::{SessionId, SourceId};
use xlindisk::source::{
    filesystem_capabilities, BoundaryPolicy, LinkPolicy, ScanRequest, SourceCapabilities,
};

#[test]
fn filesystem_reports_identity_and_seeking() {
    let caps = filesystem_capabilities();
    assert!(caps.contains(SourceCapabilities::stable_object_id()));
    assert!(caps.contains(SourceCapabilities::seek()));
    assert!(caps.contains(SourceCapabilities::range_read()));
    assert!(!caps.contains(SourceCapabilities::serialize_reads()));
}

#[test]
fn safe_defaults_are_do_not_follow_and_stay_within_roots() {
    let request = ScanRequest::new(SourceId(0), SessionId(0), vec![]);
    assert_eq!(request.link_policy, LinkPolicy::DoNotFollow);
    assert_eq!(request.boundary_policy, BoundaryPolicy::StayWithinRoots);
}

#[test]
fn capability_sets_combine() {
    let caps = filesystem_capabilities();
    assert_eq!(caps.bits(), 0x3f);
    assert_eq!(LinkPolicy::default(), LinkPolicy::DoNotFollow);
    assert_eq!(BoundaryPolicy::default(), BoundaryPolicy::StayWithinRoots);
    let mut serial = SourceCapabilities::empty();
    serial.insert(SourceCapabilities::serialize_reads());
    assert!(serial.contains(SourceCapabilities::serialize_reads()));
    assert!(!serial.contains(SourceCapabilities::hierarchical()));
    assert!(caps.union(serial).contains(SourceCapabilities::serialize_reads()));
    assert!(caps.contains(SourceCapabilities::local_only().union(SourceCapabilities::sequential_read())));
}
