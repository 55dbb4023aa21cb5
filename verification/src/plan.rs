//! Plan layer: applications compose nodes, the runtime decides how to run
//! them.
//!
//! There is no `DuplicateFinder` and no `LargestFilesFinder`. Those are
//! presets over these nodes, so a new capability is a new composition rather
//! than a new engine.

use crate::error::{Error, ErrorCode};
use crate::model::fingerprint::FingerprintSpec;
use crate::model::ids::SourceId;
use crate::source::ScanRequest;
use vstd::prelude::*;

verus! {

/// Version of the plan IR. Bumped through a contract revision, not per
/// release.
pub const PLAN_VERSION: u32 = 1;

/// What a node consumes.
#[derive(Clone, Copy, PartialEq, Eq, Structural, Hash, Debug)]
pub enum NodeInput {
    Nothing,
    Entries,
    Groups,
    Ranked,
    /// Sort accepts either shape: ranking flat entries (largest files) and
    /// ranking groups (duplicate groups) are the same operation.
    EntriesOrGroups,
}

/// What a node produces.
#[derive(Clone, Copy, PartialEq, Eq, Structural, Hash, Debug)]
pub enum NodeOutput {
    Nothing,
    Entries,
    Groups,
    Ranked,
}

impl NodeInput {
    /// An input accepts the output of the same shape; `EntriesOrGroups`
    /// accepts entries and groups.
    pub open spec fn spec_accepts(self, produced: NodeOutput) -> bool {
        match (self, produced) {
            (NodeInput::Nothing, NodeOutput::Nothing) => true,
            (NodeInput::Entries, NodeOutput::Entries) => true,
            (NodeInput::Groups, NodeOutput::Groups) => true,
            (NodeInput::Ranked, NodeOutput::Ranked) => true,
            (NodeInput::EntriesOrGroups, NodeOutput::Entries) => true,
            (NodeInput::EntriesOrGroups, NodeOutput::Groups) => true,
            _ => false,
        }
    }

    pub fn accepts(self, produced: NodeOutput) -> (r: bool)
        ensures
            r == self.spec_accepts(produced),
    {
        match (self, produced) {
            (NodeInput::Nothing, NodeOutput::Nothing) => true,
            (NodeInput::Entries, NodeOutput::Entries) => true,
            (NodeInput::Groups, NodeOutput::Groups) => true,
            (NodeInput::Ranked, NodeOutput::Ranked) => true,
            (NodeInput::EntriesOrGroups, NodeOutput::Entries | NodeOutput::Groups) => true,
            _ => false,
        }
    }
}

#[derive(Clone, Debug)]
pub struct ScanSpec {
    pub source: SourceId,
    pub request: ScanRequest,
}

#[derive(Clone, Copy, PartialEq, Eq, Structural, Debug)]
pub enum AggregateOp {
    Count,
    SumLogicalSize,
}

#[derive(Clone, Copy, PartialEq, Eq, Structural, Debug)]
pub enum AggregateSpec {
    /// Summarize each group, e.g. directory sizes for a treemap.
    PerGroup(AggregateOp),
}

#[derive(Clone, Copy, PartialEq, Eq, Structural, Debug)]
pub enum GroupKey {
    Size,
    Fingerprint,
}

#[derive(Clone, Copy, PartialEq, Eq, Structural, Debug)]
pub struct GroupSpec {
    pub key: GroupKey,
}

#[derive(Clone, Copy, PartialEq, Eq, Structural, Debug)]
pub enum SortKey {
    Size,
    Fingerprint,
    /// Source-defined canonical key; byte-level comparison, never
    /// locale-aware.
    Locator,
}

#[derive(Clone, Copy, PartialEq, Eq, Structural, Debug)]
pub struct SortSpec {
    pub key: SortKey,
    pub descending: bool,
}

#[derive(Clone, Copy, PartialEq, Eq, Structural, Debug)]
pub struct LimitSpec {
    pub count: u64,
}

/// Minimal filter language. Deliberately not an expression VM: this version
/// proves the boundary, it does not build a query engine.
#[derive(Clone, Copy, PartialEq, Eq, Structural, Debug)]
pub enum FilterExpr {
    IsFile,
    SizeEq(u64),
    SizeGt(u64),
    /// Keep only groups with at least this many members (duplicate pruning).
    GroupCountAtLeast(u32),
}

impl FilterExpr {
    /// Group-level filters map groups to groups, entry-level ones entries to
    /// entries.
    pub open spec fn spec_io(self) -> (NodeInput, NodeOutput) {
        match self {
            FilterExpr::GroupCountAtLeast(_) => (NodeInput::Groups, NodeOutput::Groups),
            _ => (NodeInput::Entries, NodeOutput::Entries),
        }
    }

    /// Entry-level filters keep the entry stream; group-level ones keep the
    /// group stream. The frozen type is what stops a filter being spliced
    /// into the wrong stage.
    pub fn io(&self) -> (r: (NodeInput, NodeOutput))
        ensures
            r == self.spec_io(),
    {
        match self {
            FilterExpr::GroupCountAtLeast(_) => (NodeInput::Groups, NodeOutput::Groups),
            FilterExpr::IsFile | FilterExpr::SizeEq(_) | FilterExpr::SizeGt(_) => {
                (NodeInput::Entries, NodeOutput::Entries)
            },
        }
    }
}

/// The plan IR.
#[derive(Clone, Debug)]
pub enum PlanNode {
    Scan(ScanSpec),
    Filter(FilterExpr),
    Group(GroupSpec),
    Fingerprint(FingerprintSpec),
    Sort(SortSpec),
    Aggregate(AggregateSpec),
    Limit(LimitSpec),
}

impl PlanNode {
    /// The frozen input/output shape of each node.
    pub open spec fn spec_io(self) -> (NodeInput, NodeOutput) {
        match self {
            PlanNode::Scan(_) => (NodeInput::Nothing, NodeOutput::Entries),
            PlanNode::Filter(expr) => expr.spec_io(),
            PlanNode::Group(_) => (NodeInput::Entries, NodeOutput::Groups),
            PlanNode::Fingerprint(_) => (NodeInput::Groups, NodeOutput::Groups),
            PlanNode::Sort(_) => (NodeInput::EntriesOrGroups, NodeOutput::Ranked),
            PlanNode::Aggregate(_) => (NodeInput::Groups, NodeOutput::Groups),
            PlanNode::Limit(_) => (NodeInput::Ranked, NodeOutput::Ranked),
        }
    }

    /// Frozen input/output types: a node cannot be spliced anywhere, and the
    /// executor can reject a plan before touching a disk.
    pub fn io(&self) -> (r: (NodeInput, NodeOutput))
        ensures
            r == self.spec_io(),
    {
        match self {
            PlanNode::Scan(_) => (NodeInput::Nothing, NodeOutput::Entries),
            PlanNode::Filter(expr) => expr.io(),
            PlanNode::Group(_) => (NodeInput::Entries, NodeOutput::Groups),
            PlanNode::Fingerprint(_) => (NodeInput::Groups, NodeOutput::Groups),
            PlanNode::Sort(_) => (NodeInput::EntriesOrGroups, NodeOutput::Ranked),
            PlanNode::Aggregate(_) => (NodeInput::Groups, NodeOutput::Groups),
            PlanNode::Limit(_) => (NodeInput::Ranked, NodeOutput::Ranked),
        }
    }
}

/// What the node before position `i` produces; nothing before the first.
pub open spec fn produced_before(nodes: Seq<PlanNode>, i: int) -> NodeOutput {
    if i == 0 {
        NodeOutput::Nothing
    } else {
        nodes[i - 1].spec_io().1
    }
}

/// Every node accepts what the node before it produces.
pub open spec fn chain_type_checks(nodes: Seq<PlanNode>) -> bool {
    forall|i: int| 0 <= i < nodes.len() ==> #[trigger] nodes[i].spec_io().0.spec_accepts(
        produced_before(nodes, i),
    )
}

/// An ordered list of nodes.
#[derive(Clone, Debug)]
pub struct Plan {
    pub version: u32,
    pub nodes: Vec<PlanNode>,
}

impl Plan {
    /// Why static validation rejects the plan, checked in this order: the
    /// version, emptiness, the first node, then the chain of node types;
    /// `None` for a valid plan.
    pub open spec fn rejection(self) -> Option<&'static str> {
        if self.version != PLAN_VERSION {
            Some("plan version mismatch")
        } else if self.nodes@.len() == 0 {
            Some("empty plan")
        } else if !(self.nodes@[0] is Scan) {
            Some("first node must be Scan")
        } else if !chain_type_checks(self.nodes@) {
            Some("node input does not match previous output")
        } else {
            None
        }
    }

    /// An empty plan of the current version.
    pub fn new() -> (r: Self)
        ensures
            r.version == PLAN_VERSION,
            r.nodes@ == Seq::<PlanNode>::empty(),
    {
        Plan { version: PLAN_VERSION, nodes: Vec::new() }
    }

    /// Append a node.
    pub fn push(&mut self, node: PlanNode)
        ensures
            final(self).version == old(self).version,
            final(self).nodes@ == old(self).nodes@.push(node),
    {
        self.nodes.push(node);
    }

    /// Static validation: the chain must start with a scan and every node
    /// must accept what the previous one emits.
    pub fn validate(&self) -> (r: Result<(), Error>)
        ensures
            match self.rejection() {
                None => r is Ok,
                Some(detail) => r == Err::<(), Error>(
                    Error::spec_new(ErrorCode::PlanInvalid, Some(detail)),
                ),
            },
    {
        if self.version != PLAN_VERSION {
            return Err(Error::with_detail(ErrorCode::PlanInvalid, "plan version mismatch"));
        }
        if self.nodes.len() == 0 {
            return Err(Error::with_detail(ErrorCode::PlanInvalid, "empty plan"));
        }
        if !matches!(self.nodes[0], PlanNode::Scan(_)) {
            return Err(Error::with_detail(ErrorCode::PlanInvalid, "first node must be Scan"));
        }
        let mut produced = NodeOutput::Nothing;
        let mut i: usize = 0;
        while i < self.nodes.len()
            invariant
                i <= self.nodes@.len(),
                self.nodes@.len() > 0,
                self.version == PLAN_VERSION,
                self.nodes@[0] is Scan,
                produced == produced_before(self.nodes@, i as int),
                forall|k: int| 0 <= k < i ==> #[trigger] self.nodes@[k].spec_io().0.spec_accepts(
                    produced_before(self.nodes@, k),
                ),
            decreases self.nodes@.len() - i,
        {
            let (input, output) = self.nodes[i].io();
            if !input.accepts(produced) {
                proof {
                    assert(!self.nodes@[i as int].spec_io().0.spec_accepts(
                        produced_before(self.nodes@, i as int),
                    ));
                }
                return Err(
                    Error::with_detail(
                        ErrorCode::PlanInvalid,
                        "node input does not match previous output",
                    ),
                );
            }
            produced = output;
            i += 1;
        }
        Ok(())
    }
}

impl Default for Plan {
    fn default() -> (r: Self)
        ensures
            r.version == PLAN_VERSION,
            r.nodes@ == Seq::<PlanNode>::empty(),
    {
        Self::new()
    }
}

/// A plan whose first node is not a scan is rejected, whatever follows.
pub proof fn lemma_plan_must_start_with_scan(plan: Plan)
    requires
        plan.version == PLAN_VERSION,
        plan.nodes@.len() > 0,
        !(plan.nodes@[0] is Scan),
    ensures
        plan.rejection() == Some("first node must be Scan"),
{
}

/// An entry-level filter can never directly follow a node that produces
/// groups (or ranked output): such a plan is rejected.
pub proof fn lemma_entry_filter_rejects_groups(plan: Plan, i: int)
    requires
        plan.version == PLAN_VERSION,
        plan.nodes@.len() > 0,
        plan.nodes@[0] is Scan,
        0 < i < plan.nodes@.len(),
        plan.nodes@[i] matches PlanNode::Filter(f) && !(f is GroupCountAtLeast),
        plan.nodes@[i - 1].spec_io().1 != NodeOutput::Entries,
    ensures
        plan.rejection() == Some("node input does not match previous output"),
{
    assert(!plan.nodes@[i].spec_io().0.spec_accepts(produced_before(plan.nodes@, i)));
}

/// What each input accepts: an input of one shape accepts only an output of
/// that same shape, and `EntriesOrGroups` accepts entries and groups and
/// nothing else. In particular a groups input never accepts entries.
pub proof fn lemma_accepts_same_shape_only(input: NodeInput, produced: NodeOutput)
    ensures
        NodeInput::Nothing.spec_accepts(produced) <==> produced == NodeOutput::Nothing,
        NodeInput::Entries.spec_accepts(produced) <==> produced == NodeOutput::Entries,
        NodeInput::Groups.spec_accepts(produced) <==> produced == NodeOutput::Groups,
        NodeInput::Ranked.spec_accepts(produced) <==> produced == NodeOutput::Ranked,
        NodeInput::EntriesOrGroups.spec_accepts(produced) <==> (produced == NodeOutput::Entries
            || produced == NodeOutput::Groups),
        !NodeInput::Groups.spec_accepts(NodeOutput::Entries),
        input.spec_accepts(produced) ==> produced != NodeOutput::Nothing || input
            == NodeInput::Nothing,
{
}

/// A node that takes groups can never directly follow a node that produces
/// entries: a plan that puts a fingerprint, an aggregate or a group-count
/// filter straight after a scan, an entry filter or anything else producing
/// entries is rejected, unless an earlier check rejects it first.
pub proof fn lemma_groups_input_after_entries_is_rejected(plan: Plan, i: int)
    requires
        plan.version == PLAN_VERSION,
        plan.nodes@.len() > 0,
        plan.nodes@[0] is Scan,
        0 < i < plan.nodes@.len(),
        plan.nodes@[i].spec_io().0 == NodeInput::Groups,
        plan.nodes@[i - 1].spec_io().1 == NodeOutput::Entries,
    ensures
        plan.rejection() == Some("node input does not match previous output"),
{
    assert(!plan.nodes@[i].spec_io().0.spec_accepts(produced_before(plan.nodes@, i)));
}

/// The node shapes that the chain check works with: a scan takes nothing
/// and yields entries, grouping turns entries into groups, fingerprinting
/// and aggregation work on groups, sorting ranks entries or groups, a limit
/// keeps ranked output, and a filter keeps the stream it is given (groups
/// for the group-count filter, entries for the others).
pub proof fn lemma_node_shapes(node: PlanNode)
    ensures
        node is Scan ==> node.spec_io() == (NodeInput::Nothing, NodeOutput::Entries),
        node is Group ==> node.spec_io() == (NodeInput::Entries, NodeOutput::Groups),
        node is Fingerprint ==> node.spec_io() == (NodeInput::Groups, NodeOutput::Groups),
        node is Aggregate ==> node.spec_io() == (NodeInput::Groups, NodeOutput::Groups),
        node is Sort ==> node.spec_io() == (NodeInput::EntriesOrGroups, NodeOutput::Ranked),
        node is Limit ==> node.spec_io() == (NodeInput::Ranked, NodeOutput::Ranked),
        node matches PlanNode::Filter(f) ==> node.spec_io() == (if f is GroupCountAtLeast {
            (NodeInput::Groups, NodeOutput::Groups)
        } else {
            (NodeInput::Entries, NodeOutput::Entries)
        }),
{
}

/// Fingerprinting needs groups: a plan whose scan is followed directly by a
/// fingerprint node is rejected, whatever comes after.
pub proof fn lemma_fingerprint_after_scan_is_rejected(plan: Plan)
    requires
        plan.version == PLAN_VERSION,
        plan.nodes@.len() >= 2,
        plan.nodes@[0] is Scan,
        plan.nodes@[1] is Fingerprint,
    ensures
        plan.rejection() == Some("node input does not match previous output"),
{
    assert(!plan.nodes@[1].spec_io().0.spec_accepts(produced_before(plan.nodes@, 1)));
}

} // verus!
