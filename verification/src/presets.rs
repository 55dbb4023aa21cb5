//! Plan presets: compositions of plan nodes that front-ends build and hand
//! to the engine.

use crate::model::fingerprint::FingerprintSpec;
use crate::model::ids::{SessionId, SourceId};
use crate::plan::{FilterExpr, GroupKey, GroupSpec, Plan, PlanNode, ScanSpec, PLAN_VERSION};
use crate::source::{BoundaryPolicy, LinkPolicy, ScanRequest};
use vstd::prelude::*;

verus! {

/// The duplicate-file preset: scan, keep files, group by size, drop
/// singleton groups, fingerprint with the default pre-filter.
///
/// The preset always passes static validation.
pub fn duplicate_plan(source: SourceId, session: SessionId) -> (r: Plan)
    ensures
        r.rejection() is None,
        r.version == PLAN_VERSION,
        r.nodes@.len() == 5,
        r.nodes@[0] matches PlanNode::Scan(s) && s.source == source && s.request.source == source
            && s.request.session == session && s.request.roots@.len() == 0
            && s.request.link_policy == LinkPolicy::DoNotFollow
            && s.request.boundary_policy == BoundaryPolicy::StayWithinRoots,
        r.nodes@[1] == PlanNode::Filter(FilterExpr::IsFile),
        r.nodes@[2] == PlanNode::Group(GroupSpec { key: GroupKey::Size }),
        r.nodes@[3] == PlanNode::Filter(FilterExpr::GroupCountAtLeast(2)),
        r.nodes@[4] == PlanNode::Fingerprint(
            FingerprintSpec::Partial { prefix_bytes: 4096, suffix_bytes: 4096 },
        ),
{
    let mut plan = Plan::new();
    plan.push(
        PlanNode::Scan(ScanSpec { source, request: ScanRequest::new(source, session, Vec::new()) }),
    );
    plan.push(PlanNode::Filter(FilterExpr::IsFile));
    plan.push(PlanNode::Group(GroupSpec { key: GroupKey::Size }));
    plan.push(PlanNode::Filter(FilterExpr::GroupCountAtLeast(2)));
    plan.push(PlanNode::Fingerprint(FingerprintSpec::default()));
    proof {
        let nodes = plan.nodes@;
        assert forall|i: int| 0 <= i < nodes.len() implies #[trigger] nodes[i].spec_io().0.spec_accepts(
            crate::plan::produced_before(nodes, i),
        ) by {
            if i > 0 {
                assert(nodes[i - 1] == nodes[i - 1]);
            }
        }
    }
    plan
}

} // verus!
