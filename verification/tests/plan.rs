use xlindisk::error::ErrorCode;
use xlindisk::model::fingerprint::FingerprintSpec;
use xlindisk::model::ids::{SessionId, SourceId};
use xlindisk::plan::{
    FilterExpr, GroupKey, GroupSpec, LimitSpec, NodeInput, NodeOutput, Plan, PlanNode, ScanSpec,
    SortKey, SortSpec, PLAN_VERSION,
};
use xlindisk::presets::duplicate_plan;
use xlindisk::source::{BoundaryPolicy, LinkPolicy, ScanRequest};

fn scan_node() -> PlanNode {
    PlanNode::Scan(ScanSpec {
        source: SourceId(0),
        request: ScanRequest::new(SourceId(0), SessionId(0), vec![]),
    })
}

#[test]
fn duplicate_chain_type_checks() {
    let mut plan = Plan::new();
    plan.push(scan_node());
    plan.push(PlanNode::Filter(FilterExpr::IsFile));
    plan.push(PlanNode::Group(GroupSpec {
        key: GroupKey::Size,
    }));
    plan.push(PlanNode::Filter(FilterExpr::GroupCountAtLeast(2)));
    plan.push(PlanNode::Fingerprint(FingerprintSpec::default()));
    assert!(plan.validate().is_ok());
}

#[test]
fn largest_files_chain_type_checks() {
    let mut plan = Plan::new();
    plan.push(scan_node());
    plan.push(PlanNode::Filter(FilterExpr::IsFile));
    plan.push(PlanNode::Sort(SortSpec {
        key: SortKey::Size,
        descending: true,
    }));
    plan.push(PlanNode::Limit(LimitSpec { count: 100 }));
    assert!(plan.validate().is_ok());
}

#[test]
fn entry_filters_cannot_run_on_groups() {
    let mut plan = Plan::new();
    plan.push(scan_node());
    plan.push(PlanNode::Group(GroupSpec {
        key: GroupKey::Size,
    }));
    plan.push(PlanNode::Filter(FilterExpr::IsFile));
    assert_eq!(plan.validate().unwrap_err().code, ErrorCode::PlanInvalid);
}

#[test]
fn misordered_nodes_are_rejected_before_any_io() {
    let mut plan = Plan::new();
    plan.push(scan_node());
    plan.push(PlanNode::Limit(LimitSpec { count: 10 }));
    assert_eq!(plan.validate().unwrap_err().code, ErrorCode::PlanInvalid);
}

#[test]
fn a_plan_must_start_with_a_scan() {
    let mut plan = Plan::new();
    plan.push(PlanNode::Filter(FilterExpr::IsFile));
    assert_eq!(plan.validate().unwrap_err().code, ErrorCode::PlanInvalid);
}

#[test]
fn rejections_name_the_first_failed_rule() {
    let empty = Plan::default();
    assert_eq!(empty.version, PLAN_VERSION);
    assert_eq!(empty.validate().unwrap_err().detail, Some("empty plan"));

    let mut old = Plan::new();
    old.push(scan_node());
    old.version = PLAN_VERSION + 1;
    assert_eq!(old.validate().unwrap_err().detail, Some("plan version mismatch"));

    let mut unscanned = Plan::new();
    unscanned.push(PlanNode::Filter(FilterExpr::IsFile));
    assert_eq!(
        unscanned.validate().unwrap_err().detail,
        Some("first node must be Scan")
    );

    let mut misordered = Plan::new();
    misordered.push(scan_node());
    misordered.push(PlanNode::Limit(LimitSpec { count: 10 }));
    let err = misordered.validate().unwrap_err();
    assert_eq!(err.detail, Some("node input does not match previous output"));
    assert_eq!(err.entry, None);

    let mut twice = Plan::new();
    twice.push(scan_node());
    twice.push(scan_node());
    assert!(twice.validate().is_err());
}

#[test]
fn node_shapes_are_frozen() {
    assert_eq!(
        FilterExpr::GroupCountAtLeast(2).io(),
        (NodeInput::Groups, NodeOutput::Groups)
    );
    assert_eq!(FilterExpr::SizeGt(1).io(), (NodeInput::Entries, NodeOutput::Entries));
    assert_eq!(scan_node().io(), (NodeInput::Nothing, NodeOutput::Entries));
    assert!(NodeInput::EntriesOrGroups.accepts(NodeOutput::Groups));
    assert!(NodeInput::EntriesOrGroups.accepts(NodeOutput::Entries));
    assert!(!NodeInput::EntriesOrGroups.accepts(NodeOutput::Ranked));
    assert!(!NodeInput::Ranked.accepts(NodeOutput::Nothing));
}

#[test]
fn the_duplicate_preset_has_five_nodes() {
    let plan = duplicate_plan(SourceId(3), SessionId(4));
    assert_eq!(plan.nodes.len(), 5);
    match &plan.nodes[0] {
        PlanNode::Scan(spec) => {
            assert_eq!(spec.source, SourceId(3));
            assert_eq!(spec.request.session, SessionId(4));
            assert_eq!(spec.request.link_policy, LinkPolicy::DoNotFollow);
            assert_eq!(spec.request.boundary_policy, BoundaryPolicy::StayWithinRoots);
            assert!(spec.request.roots.is_empty());
        }
        other => panic!("unexpected first node {other:?}"),
    }
    assert!(plan.validate().is_ok());
}
