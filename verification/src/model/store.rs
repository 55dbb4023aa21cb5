//! Entry storage: dense ids in contiguous memory, hierarchy only on demand.
//!
//! At tens of millions of entries, a per-entry path, `Box<Node>` or
//! `Rc<Node>` turns into hundreds of megabytes. The store therefore keeps
//! entries in one `Vec`, models hierarchy with sibling/child indexes that are
//! built **only** when a plan asks for materialization, and keeps the metadata
//! snapshot out of `Entry` entirely.

use crate::model::entry::{changed_bit, Entry, EntryFlags, EntryKind};
use crate::model::ids::{EntryId, LocatorId, ObjectId, ScanId, SessionId, SourceId};
use crate::model::observation::{Observation, Timestamp};
use std::collections::HashMap;
use vstd::prelude::*;

verus! {

broadcast use vstd::std_specs::hash::group_hash_axioms;

/// The abstract state of a [`Session`].
pub struct SessionView {
    pub id: SessionId,
    pub source: SourceId,
    /// The number of the last scan id handed out (0 before the first).
    pub last_scan: u64,
}

/// A scan session: the scope in which ids, locators and object identities
/// mean something.
#[derive(Clone, Copy, PartialEq, Eq, Structural, Debug)]
pub struct Session {
    pub id: SessionId,
    pub source: SourceId,
    next_scan: u64,
}

impl View for Session {
    type V = SessionView;

    closed spec fn view(&self) -> SessionView {
        SessionView { id: self.id, source: self.source, last_scan: self.next_scan }
    }
}

impl Session {
    pub fn new(id: SessionId, source: SourceId) -> (r: Self)
        ensures
            r@ == (SessionView { id, source, last_scan: 0 }),
    {
        Session { id, source, next_scan: 0 }
    }

    /// Hand out the next scan id: 1, 2, 3, ... within the session.
    pub fn next_scan_id(&mut self) -> (r: ScanId)
        requires
            old(self)@.last_scan < u64::MAX,
        ensures
            r.0 == old(self)@.last_scan + 1,
            final(self)@ == (SessionView { last_scan: r.0, ..old(self)@ }),
    {
        self.next_scan = self.next_scan + 1;
        ScanId(self.next_scan)
    }
}

/// Scan ids of one session strictly increase: two successive calls of
/// [`Session::next_scan_id`] never hand out the same id.
pub proof fn lemma_scan_ids_increase(before: SessionView, first: ScanId, middle: SessionView, second: ScanId)
    requires
        first.0 == before.last_scan + 1,
        middle.last_scan == first.0,
        second.0 == middle.last_scan + 1,
    ensures
        first.0 < second.0,
        first.0 > before.last_scan,
{
}

/// The abstract state of an [`EntryStore`].
pub struct StoreState {
    /// Entries by dense id.
    pub entries: Seq<Entry>,
    /// Pre-operation observations, by the number of the entry id.
    pub observations: Map<u32, Observation>,
    /// Whether the hierarchy links are being maintained.
    pub materialized: bool,
    /// For each entry, the ids of the entries linked under it, in the order
    /// they were linked. One list per entry; all empty until the hierarchy
    /// is materialized.
    pub children: Seq<Seq<nat>>,
}

/// The parent link an entry gets when linked into a store of `n` slots:
/// its parent, when that names one of the slots.
pub open spec fn parent_link(e: Entry, n: nat) -> Option<nat> {
    match e.parent {
        Some(q) => if (q.0 as nat) < n {
            Some(q.0 as nat)
        } else {
            None
        },
        None => None,
    }
}

/// The links of a freshly materialized hierarchy: every entry linked under
/// its parent when the parent is a stored entry.
pub open spec fn materialized_links(entries: Seq<Entry>) -> Seq<Option<nat>> {
    Seq::new(entries.len(), |i: int| parent_link(entries[i], entries.len()))
}

/// Indexes `i` at or after `from` with `links[i] == Some(p)`, ascending.
pub open spec fn linked_children(links: Seq<Option<nat>>, p: nat, from: int) -> Seq<nat>
    decreases links.len() - from,
{
    if from < 0 || from >= links.len() {
        Seq::empty()
    } else if links[from] == Some(p) {
        seq![from as nat] + linked_children(links, p, from + 1)
    } else {
        linked_children(links, p, from + 1)
    }
}

/// The child lists of a freshly materialized hierarchy: for each entry, the
/// entries whose parent it is, in ascending id order.
pub open spec fn materialized_children(entries: Seq<Entry>) -> Seq<Seq<nat>> {
    Seq::new(entries.len(), |p: int| linked_children(materialized_links(entries), p as nat, 0))
}

/// The child lists after pushing `e` as entry `children.len()`: a new empty
/// list for it and, once the hierarchy is materialized and its parent is a
/// stored entry (or itself), its id appended to the parent's list.
pub open spec fn children_after_push(children: Seq<Seq<nat>>, e: Entry, materialized: bool) -> Seq<
    Seq<nat>,
> {
    let n = children.len();
    let extended = children.push(Seq::empty());
    match parent_link(e, n + 1) {
        Some(q) => if materialized {
            extended.update(q as int, extended[q as int].push(n))
        } else {
            extended
        },
        None => extended,
    }
}

impl StoreState {
    /// One child list per entry.
    pub open spec fn shaped(self) -> bool {
        self.children.len() == self.entries.len()
    }

    /// Ids of the children of entry `p`, in the order they were linked;
    /// empty while the hierarchy is not materialized.
    pub open spec fn children_of(self, p: nat) -> Seq<nat> {
        if self.materialized && p < self.children.len() {
            self.children[p as int]
        } else {
            Seq::empty()
        }
    }

    /// The object identity of a candidate id, if it names an entry that has
    /// one.
    pub open spec fn candidate_object(self, id: EntryId) -> Option<ObjectId> {
        if (id.0 as int) < self.entries.len() {
            self.entries[id.0 as int].object
        } else {
            None
        }
    }
}

/// The entries that may enter the duplicate pipeline, in order.
pub open spec fn candidates_of(entries: Seq<Entry>) -> Seq<Entry> {
    entries.filter(|e: Entry| e.spec_is_duplicate_candidate())
}

/// The links of a hierarchy being materialized, once the first `c` entries
/// are linked.
pub open spec fn partial_links(entries: Seq<Entry>, c: int) -> Seq<Option<nat>> {
    Seq::new(
        entries.len(),
        |i: int|
            if i < c {
                parent_link(entries[i], entries.len())
            } else {
                None
            },
    )
}

/// The candidates, in order, that are stored entries with object `o`.
pub open spec fn object_members(v: StoreState, candidates: Seq<EntryId>, o: ObjectId) -> Seq<EntryId> {
    candidates.filter(|c: EntryId| v.candidate_object(c) == Some(o))
}

/// The distinct objects of the candidates, in order of first appearance.
pub open spec fn first_seen_objects(v: StoreState, candidates: Seq<EntryId>) -> Seq<ObjectId>
    decreases candidates.len(),
{
    if candidates.len() == 0 {
        Seq::empty()
    } else {
        let prev = first_seen_objects(v, candidates.drop_last());
        match v.candidate_object(candidates.last()) {
            Some(o) => if prev.contains(o) {
                prev
            } else {
                prev.push(o)
            },
            None => prev,
        }
    }
}

/// The hardlink groups of a candidate list: for each object, in order of
/// first appearance, the candidates that share it, keeping only objects with
/// more than one candidate.
pub open spec fn spec_hardlink_groups(v: StoreState, candidates: Seq<EntryId>) -> Seq<Seq<EntryId>> {
    first_seen_objects(v, candidates).map_values(|o: ObjectId| object_members(v, candidates, o)).filter(
        |g: Seq<EntryId>| g.len() > 1,
    )
}

/// The first-child slot of an entry names the head of its child list.
pub open spec fn head_ok(f: Option<EntryId>, chain: Seq<nat>) -> bool {
    if chain.len() == 0 {
        f is None
    } else {
        f matches Some(c) && c.0 == chain[0]
    }
}

/// The next-sibling slot of an entry names the entry after it in its
/// parent's child list, and nothing when it is last or unlinked.
pub open spec fn next_ok(x: Option<EntryId>, chains: Seq<Seq<nat>>, o: Option<(nat, nat)>) -> bool {
    match o {
        None => x is None,
        Some((p, k)) => if k + 1 < chains[p as int].len() {
            x matches Some(c) && c.0 == chains[p as int][k + 1int]
        } else {
            x is None
        },
    }
}

/// The child/sibling arrays encode the child lists exactly, and `owner`
/// records for each linked entry its parent and its position in that
/// parent's list.
pub open spec fn chains_ok(
    first_child: Seq<Option<EntryId>>,
    next_sibling: Seq<Option<EntryId>>,
    chains: Seq<Seq<nat>>,
    owner: Seq<Option<(nat, nat)>>,
) -> bool {
    let n = owner.len();
    &&& first_child.len() == n
    &&& next_sibling.len() == n
    &&& chains.len() == n
    &&& forall|p: int, k: int|
        0 <= p < n && 0 <= k < chains[p].len() ==> #[trigger] chains[p][k] < n && owner[chains[p][k] as int]
            == Some((p as nat, k as nat))
    &&& forall|i: int|
        0 <= i < n && #[trigger] owner[i] is Some ==> {
            let (p, k) = owner[i]->0;
            &&& p < n
            &&& k < chains[p as int].len()
            &&& chains[p as int][k as int] == i
        }
    &&& forall|p: int| 0 <= p < n ==> head_ok(#[trigger] first_child[p], chains[p])
    &&& forall|i: int| 0 <= i < n ==> next_ok(#[trigger] next_sibling[i], chains, owner[i])
}

/// Linked lists can only be walked forward: no entry before `a` and from
/// `b` on is skipped by the children listing when none in between is linked.
proof fn lemma_skip_unlinked(links: Seq<Option<nat>>, p: nat, a: int, b: int)
    requires
        0 <= a <= b <= links.len(),
        forall|k: int| a <= k < b ==> links[k] != Some(p),
    ensures
        linked_children(links, p, a) == linked_children(links, p, b),
    decreases b - a,
{
    if a < b {
        lemma_skip_unlinked(links, p, a + 1, b);
    }
}

/// What the children listing from `from` holds: exactly the indexes at or
/// after `from` linked under `p`, strictly increasing.
pub proof fn lemma_linked_children_contents(links: Seq<Option<nat>>, p: nat, from: int)
    requires
        0 <= from,
    ensures
        forall|x: nat| #[trigger] linked_children(links, p, from).contains(x) <==> (from <= x
            < links.len() && links[x as int] == Some(p)),
        forall|i: int, j: int|
            0 <= i < j < linked_children(links, p, from).len() ==> #[trigger] linked_children(
                links,
                p,
                from,
            )[i] < #[trigger] linked_children(links, p, from)[j],
        forall|i: int|
            0 <= i < linked_children(links, p, from).len() ==> from <= #[trigger] linked_children(
                links,
                p,
                from,
            )[i],
    decreases links.len() - from,
{
    if from < links.len() {
        lemma_linked_children_contents(links, p, from + 1);
        let rest = linked_children(links, p, from + 1);
        if links[from] == Some(p) {
            let s = seq![from as nat] + rest;
            assert forall|x: nat| s.contains(x) <==> (from <= x < links.len() && links[x as int]
                == Some(p)) by {
                if s.contains(x) {
                    let i = choose|i: int| 0 <= i < s.len() && s[i] == x;
                    if i > 0 {
                        assert(rest.contains(s[i]));
                    }
                }
                if from <= x < links.len() && links[x as int] == Some(p) {
                    if x == from {
                        assert(s[0] == x);
                    } else {
                        assert(rest.contains(x));
                        let i = choose|i: int| 0 <= i < rest.len() && rest[i] == x;
                        assert(s[i + 1] == x);
                    }
                }
            }
            assert forall|i: int, j: int| 0 <= i < j < s.len() implies s[i] < s[j] by {
                if i > 0 {
                    assert(s[i] == rest[i - 1] && s[j] == rest[j - 1]);
                } else {
                    assert(s[j] == rest[j - 1]);
                }
            }
            assert forall|i: int| 0 <= i < s.len() implies from <= s[i] by {
                if i > 0 {
                    assert(s[i] == rest[i - 1]);
                }
            }
        }
    }
}

/// Setting the link of the last possibly-linked slot `c` appends `c` to the
/// listing of its parent and leaves every other listing unchanged.
proof fn lemma_link_last_slot(links: Seq<Option<nat>>, c: int, x: Option<nat>, p: nat, from: int)
    requires
        0 <= from <= c < links.len(),
        forall|k: int| c <= k < links.len() ==> links[k] is None,
    ensures
        linked_children(links.update(c, x), p, from) == (if x == Some(p) {
            linked_children(links, p, from).push(c as nat)
        } else {
            linked_children(links, p, from)
        }),
    decreases c - from,
{
    let l2 = links.update(c, x);
    if from == c {
        lemma_skip_unlinked(l2, p, c + 1, links.len() as int);
        lemma_skip_unlinked(links, p, c, links.len() as int);
        if x == Some(p) {
            assert(linked_children(l2, p, c) =~= seq![c as nat]);
            assert(Seq::<nat>::empty().push(c as nat) =~= seq![c as nat]);
        }
    } else {
        lemma_link_last_slot(links, c, x, p, from + 1);
        assert(l2[from] == links[from]);
        if x == Some(p) && links[from] == Some(p) {
            assert(seq![from as nat] + linked_children(links, p, from + 1).push(c as nat)
                =~= (seq![from as nat] + linked_children(links, p, from + 1)).push(c as nat));
        }
    }
}

/// A sequence of distinct indexes below `n` has at most `n` elements.
proof fn lemma_distinct_indexes_bounded(s: Seq<nat>, n: nat)
    requires
        forall|i: int| 0 <= i < s.len() ==> #[trigger] s[i] < n,
        forall|i: int, j: int| 0 <= i < j < s.len() ==> #[trigger] s[i] != #[trigger] s[j],
    ensures
        s.len() <= n,
{
    let t = s.map_values(|x: nat| x as int);
    assert forall|i: int, j: int| 0 <= i < t.len() && 0 <= j < t.len() && i != j implies t[i] != t[j] by {
        if i < j {
            assert(s[i] != s[j]);
        } else {
            assert(s[j] != s[i]);
        }
    }
    assert(t.no_duplicates());
    t.unique_seq_to_set();
    vstd::set_lib::lemma_int_range(0, n as int);
    assert forall|x: int| t.to_set().contains(x) implies vstd::set_lib::set_int_range(0, n as int).contains(x) by {
        let i = choose|i: int| 0 <= i < t.len() && t[i] == x;
        assert(s[i] < n);
    }
    vstd::set_lib::lemma_len_subset(t.to_set(), vstd::set_lib::set_int_range(0, n as int));
}

/// A child list holds distinct entries, so it is no longer than the store.
proof fn lemma_chain_bounded(
    first_child: Seq<Option<EntryId>>,
    next_sibling: Seq<Option<EntryId>>,
    chains: Seq<Seq<nat>>,
    owner: Seq<Option<(nat, nat)>>,
    p: int,
)
    requires
        chains_ok(first_child, next_sibling, chains, owner),
        0 <= p < owner.len(),
    ensures
        chains[p].len() <= owner.len(),
{
    let s = chains[p];
    assert forall|i: int| 0 <= i < s.len() implies #[trigger] s[i] < owner.len() by {
        assert(chains[p][i] < owner.len());
    }
    assert forall|i: int, j: int| 0 <= i < j < s.len() implies #[trigger] s[i] != #[trigger] s[j] by {
        assert(owner[chains[p][i] as int] == Some((p as nat, i as nat)));
        assert(owner[chains[p][j] as int] == Some((p as nat, j as nat)));
    }
    lemma_distinct_indexes_bounded(s, owner.len());
}

/// Adding an unlinked slot with an empty child list keeps every list
/// intact.
proof fn lemma_chains_extend(
    first_child: Seq<Option<EntryId>>,
    next_sibling: Seq<Option<EntryId>>,
    chains: Seq<Seq<nat>>,
    owner: Seq<Option<(nat, nat)>>,
)
    requires
        chains_ok(first_child, next_sibling, chains, owner),
    ensures
        chains_ok(
            first_child.push(None),
            next_sibling.push(None),
            chains.push(Seq::empty()),
            owner.push(None),
        ),
{
    let (fc, ns, cs, ow) = (
        first_child.push(None),
        next_sibling.push(None),
        chains.push(Seq::empty()),
        owner.push(None),
    );
    let n = owner.len() as int;
    assert forall|p: int, k: int| 0 <= p < ow.len() && 0 <= k < cs[p].len() implies #[trigger] cs[p][k]
        < ow.len() && ow[cs[p][k] as int] == Some((p as nat, k as nat)) by {
        assert(p < n);
        assert(chains[p][k] < n);
    }
    assert forall|i: int| 0 <= i < ow.len() && #[trigger] ow[i] is Some implies ({
        let (p, k) = ow[i]->0;
        &&& p < ow.len()
        &&& k < cs[p as int].len()
        &&& cs[p as int][k as int] == i
    }) by {
        assert(i < n);
        assert(owner[i] is Some);
    }
    assert forall|p: int| 0 <= p < ow.len() implies head_ok(#[trigger] fc[p], cs[p]) by {
        if p < n {
            assert(head_ok(first_child[p], chains[p]));
        }
    }
    assert forall|i: int| 0 <= i < ow.len() implies next_ok(#[trigger] ns[i], cs, ow[i]) by {
        if i < n {
            assert(next_ok(next_sibling[i], chains, owner[i]));
            match owner[i] {
                Some((p, k)) => {
                    assert(p < n);
                    assert(cs[p as int] == chains[p as int]);
                },
                None => {},
            }
        }
    }
}

/// Appending the unlinked entry `child` to the list of `p` keeps every list
/// intact, when the arrays are updated at the list's head (if it was empty)
/// or at its former last entry.
proof fn lemma_chains_append(
    first_child: Seq<Option<EntryId>>,
    next_sibling: Seq<Option<EntryId>>,
    chains: Seq<Seq<nat>>,
    owner: Seq<Option<(nat, nat)>>,
    p: nat,
    child: EntryId,
)
    requires
        chains_ok(first_child, next_sibling, chains, owner),
        p < owner.len(),
        (child.0 as int) < owner.len(),
        owner[child.0 as int] is None,
    ensures
        ({
            let old_len = chains[p as int].len();
            let cs = chains.update(p as int, chains[p as int].push(child.0 as nat));
            let ow = owner.update(child.0 as int, Some((p, old_len)));
            if old_len == 0 {
                chains_ok(first_child.update(p as int, Some(child)), next_sibling, cs, ow)
            } else {
                chains_ok(
                    first_child,
                    next_sibling.update(chains[p as int].last() as int, Some(child)),
                    cs,
                    ow,
                )
            }
        }),
{
    let n = owner.len() as int;
    let c = child.0 as int;
    let old_chain = chains[p as int];
    let old_len = old_chain.len();
    let cs = chains.update(p as int, old_chain.push(c as nat));
    let ow = owner.update(c, Some((p, old_len)));
    let fc = if old_len == 0 {
        first_child.update(p as int, Some(child))
    } else {
        first_child
    };
    let ns = if old_len == 0 {
        next_sibling
    } else {
        next_sibling.update(old_chain.last() as int, Some(child))
    };
    if old_len > 0 {
        assert(old_chain[old_len - 1] < n);
        assert(owner[old_chain[old_len - 1] as int] == Some((p, (old_len - 1) as nat)));
    }
    assert forall|q: int, k: int| 0 <= q < n && 0 <= k < cs[q].len() implies #[trigger] cs[q][k] < n
        && ow[cs[q][k] as int] == Some((q as nat, k as nat)) by {
        if q == p && k == old_len {
            assert(cs[q][k] == c);
        } else {
            assert(cs[q][k] == chains[q][k]);
            assert(owner[chains[q][k] as int] == Some((q as nat, k as nat)));
            assert(chains[q][k] != c);
        }
    }
    assert forall|i: int| 0 <= i < n && #[trigger] ow[i] is Some implies ({
        let (q, k) = ow[i]->0;
        &&& q < n
        &&& k < cs[q as int].len()
        &&& cs[q as int][k as int] == i
    }) by {
        if i != c {
            assert(owner[i] is Some);
            let (q, k) = owner[i]->0;
            assert(chains[q as int][k as int] == i);
        }
    }
    assert forall|q: int| 0 <= q < n implies head_ok(#[trigger] fc[q], cs[q]) by {
        assert(head_ok(first_child[q], chains[q]));
        if q == p && old_len > 0 {
            assert(cs[q][0] == chains[q][0]);
        }
    }
    assert forall|i: int| 0 <= i < n implies next_ok(#[trigger] ns[i], cs, ow[i]) by {
        assert(next_ok(next_sibling[i], chains, owner[i]));
        if i == c {
            assert(owner[i] is None);
            if old_len > 0 {
                assert(old_chain.last() != c);
            }
        } else if old_len > 0 && i == old_chain.last() {
            assert(owner[i] == Some((p, (old_len - 1) as nat)));
            assert(cs[p as int][old_len as int] == c);
        } else {
            assert(ns[i] == next_sibling[i]);
            match owner[i] {
                Some((q, k)) => {
                    if q == p {
                        assert(k + 1 < old_len || k + 1 >= old_len);
                        if k + 1 >= old_len {
                            assert(k == old_len - 1);
                            assert(chains[p as int][k as int] == i);
                        } else {
                            assert(cs[q as int][k + 1int] == chains[q as int][k + 1int]);
                        }
                    }
                },
                None => {},
            }
        }
    }
}

/// Contiguous entry storage with optional hierarchy links.
#[derive(Clone)]
pub struct EntryStore {
    entries: Vec<Entry>,
    /// `first_child` / `next_sibling` are compact indexes, not pointers: the
    /// arena stays relocatable.
    first_child: Vec<Option<EntryId>>,
    next_sibling: Vec<Option<EntryId>>,
    /// Observations, recorded only for entries the fingerprint pass will
    /// actually look at, keyed by the number of the entry id.
    observations: HashMap<u32, Observation>,
    /// Set once the caller asks for hierarchy; before that the link vectors
    /// are empty and cost nothing.
    materialized: bool,
    /// The child list of each entry, in link order.
    chains: Ghost<Seq<Seq<nat>>>,
    /// For each linked entry, its parent and its position in the parent's
    /// list.
    owner: Ghost<Seq<Option<(nat, nat)>>>,
}

impl View for EntryStore {
    type V = StoreState;

    closed spec fn view(&self) -> StoreState {
        StoreState {
            entries: self.entries@,
            observations: self.observations@,
            materialized: self.materialized,
            children: self.chains@,
        }
    }
}

impl EntryStore {
    /// The store invariant: ids fit in `u32`, there is one child list per
    /// entry, and once materialized the child/sibling arrays encode the
    /// child lists exactly; before that every list is empty.
    pub closed spec fn wf(&self) -> bool {
        &&& self.entries@.len() <= u32::MAX
        &&& self.chains@.len() == self.entries@.len()
        &&& self.owner@.len() == self.entries@.len()
        &&& if self.materialized {
            chains_ok(self.first_child@, self.next_sibling@, self.chains@, self.owner@)
        } else {
            &&& self.first_child@.len() == 0
            &&& self.next_sibling@.len() == 0
            &&& forall|p: int| 0 <= p < self.chains@.len() ==> #[trigger] self.chains@[p].len() == 0
            &&& forall|i: int| 0 <= i < self.owner@.len() ==> #[trigger] self.owner@[i] is None
        }
    }

    /// A well-formed store has one child list per entry.
    pub proof fn lemma_wf_shaped(&self)
        requires
            self.wf(),
        ensures
            self@.shaped(),
    {
    }

    pub fn new() -> (r: Self)
        ensures
            r.wf(),
            r@ == (StoreState {
                entries: Seq::empty(),
                observations: Map::empty(),
                materialized: false,
                children: Seq::empty(),
            }),
    {
        EntryStore {
            entries: Vec::new(),
            first_child: Vec::new(),
            next_sibling: Vec::new(),
            observations: HashMap::new(),
            materialized: false,
            chains: Ghost(Seq::empty()),
            owner: Ghost(Seq::empty()),
        }
    }

    /// An empty store whose entry vector has room for `capacity` entries.
    pub fn with_capacity(capacity: usize) -> (r: Self)
        ensures
            r.wf(),
            r@ == (StoreState {
                entries: Seq::empty(),
                observations: Map::empty(),
                materialized: false,
                children: Seq::empty(),
            }),
    {
        EntryStore {
            entries: Vec::with_capacity(capacity),
            first_child: Vec::new(),
            next_sibling: Vec::new(),
            observations: HashMap::new(),
            materialized: false,
            chains: Ghost(Seq::empty()),
            owner: Ghost(Seq::empty()),
        }
    }

    /// Append an entry and return its dense id.
    ///
    /// The id is positional, so a scan can append from many workers into
    /// per-worker stores and merge them afterwards; deterministic ordering is
    /// applied at output time (see `determinism`). Once the hierarchy is
    /// materialized the entry is appended to the child list of its parent
    /// when the parent is already stored (or is the entry itself).
    pub fn push(&mut self, entry: Entry) -> (r: EntryId)
        requires
            old(self).wf(),
            old(self)@.entries.len() < u32::MAX,
        ensures
            final(self).wf(),
            final(self)@.shaped(),
            r.0 == old(self)@.entries.len(),
            final(self)@ == (StoreState {
                entries: old(self)@.entries.push(entry),
                children: children_after_push(old(self)@.children, entry, old(self)@.materialized),
                ..old(self)@
            }),
    {
        let id = EntryId(self.entries.len() as u32);
        if self.materialized {
            proof {
                lemma_chains_extend(
                    self.first_child@,
                    self.next_sibling@,
                    self.chains@,
                    self.owner@,
                );
            }
            self.first_child.push(None);
            self.next_sibling.push(None);
            self.chains = Ghost(self.chains@.push(Seq::empty()));
            self.owner = Ghost(self.owner@.push(None));
            if let Some(parent) = entry.parent {
                self.link_child(parent, id);
            }
        } else {
            self.chains = Ghost(self.chains@.push(Seq::empty()));
            self.owner = Ghost(self.owner@.push(None));
        }
        self.entries.push(entry);
        proof {
            assert(self.chains@ =~= children_after_push(
                old(self)@.children,
                entry,
                old(self)@.materialized,
            ));
        }
        id
    }

    /// Convenience constructor for sources: fills in the dense id itself.
    #[allow(clippy::too_many_arguments)]
    pub fn add(
        &mut self,
        source: SourceId,
        locator: LocatorId,
        kind: EntryKind,
        flags: EntryFlags,
        parent: Option<EntryId>,
        logical_size: Option<u64>,
        modified: Option<Timestamp>,
        object: Option<ObjectId>,
    ) -> (r: EntryId)
        requires
            old(self).wf(),
            old(self)@.entries.len() < u32::MAX,
        ensures
            final(self).wf(),
            final(self)@.shaped(),
            r.0 == old(self)@.entries.len(),
            ({
                let entry = Entry {
                    id: r,
                    source,
                    locator,
                    object,
                    parent,
                    kind,
                    flags,
                    logical_size,
                    modified,
                };
                final(self)@ == (StoreState {
                    entries: old(self)@.entries.push(entry),
                    children: children_after_push(
                        old(self)@.children,
                        entry,
                        old(self)@.materialized,
                    ),
                    ..old(self)@
                })
            }),
    {
        let entry = Entry {
            id: EntryId(self.entries.len() as u32),
            source,
            locator,
            object,
            parent,
            kind,
            flags,
            logical_size,
            modified,
        };
        self.push(entry)
    }

    /// The entry with the given id, if it is stored.
    pub fn get(&self, id: EntryId) -> (r: Option<&Entry>)
        ensures
            match r {
                Some(e) => (id.0 as int) < self@.entries.len() && *e == self@.entries[id.0 as int],
                None => (id.0 as int) >= self@.entries.len(),
            },
    {
        let i = id.0 as usize;
        if i < self.entries.len() {
            Some(&self.entries[i])
        } else {
            None
        }
    }

    /// Mutable access to the entry with the given id, if it is stored. The
    /// hierarchy links are not affected by changes made through it.
    pub fn get_mut(&mut self, id: EntryId) -> (r: Option<&mut Entry>)
        requires
            old(self).wf(),
        ensures
            final(self).wf(),
            match r {
                Some(e) => {
                    &&& (id.0 as int) < old(self)@.entries.len()
                    &&& *e == old(self)@.entries[id.0 as int]
                    &&& final(self)@ == (StoreState {
                        entries: old(self)@.entries.update(id.0 as int, *final(e)),
                        ..old(self)@
                    })
                },
                None => {
                    &&& (id.0 as int) >= old(self)@.entries.len()
                    &&& final(self)@ == old(self)@
                },
            },
    {
        let i = id.0 as usize;
        if i < self.entries.len() {
            Some(&mut self.entries[i])
        } else {
            None
        }
    }

    pub fn len(&self) -> (r: usize)
        ensures
            r == self@.entries.len(),
    {
        self.entries.len()
    }

    pub fn is_empty(&self) -> (r: bool)
        ensures
            r == (self@.entries.len() == 0),
    {
        self.entries.len() == 0
    }

    /// The entries in id order.
    pub fn iter(&self) -> (r: std::slice::Iter<'_, Entry>)
        ensures
            vstd::std_specs::iter::IteratorSpec::remaining(&r) == self@.entries.as_ref(),
    {
        broadcast use vstd::std_specs::slice::group_slice_axioms;

        self.entries.iter()
    }

    /// Entries that may enter the duplicate pipeline at all, in id order.
    pub fn duplicate_candidates(&self) -> (r: Vec<&Entry>)
        ensures
            r@.map_values(|e: &Entry| *e) == candidates_of(self@.entries),
    {
        let mut out: Vec<&Entry> = Vec::new();
        let mut i: usize = 0;
        while i < self.entries.len()
            invariant
                i <= self.entries@.len(),
                out@.map_values(|e: &Entry| *e) == self.entries@.take(i as int).filter(
                    |e: Entry| e.spec_is_duplicate_candidate(),
                ),
            decreases self.entries@.len() - i,
        {
            let e = &self.entries[i];
            let ghost before = out@;
            if e.is_duplicate_candidate() {
                out.push(e);
            }
            proof {
                let p = |e: Entry| e.spec_is_duplicate_candidate();
                assert(self.entries@.take(i + 1) =~= self.entries@.take(i as int).push(*e));
                self.entries@.take(i as int).lemma_filter_push(*e, p);
                if e.spec_is_duplicate_candidate() {
                    assert(out@.map_values(|e: &Entry| *e) =~= before.map_values(|e: &Entry| *e).push(
                        *e,
                    ));
                }
            }
            i += 1;
        }
        assert(self.entries@.take(self.entries@.len() as int) =~= self.entries@);
        out
    }

    /// Record the pre-operation observation. The fingerprint pass re-observes
    /// and validates against this; without it there is no way to detect
    /// `ChangedDuringScan`.
    pub fn record_observation(&mut self, id: EntryId, observation: Observation)
        requires
            old(self).wf(),
        ensures
            final(self).wf(),
            final(self)@ == (StoreState {
                observations: old(self)@.observations.insert(id.0, observation),
                ..old(self)@
            }),
    {
        self.observations.insert(id.0, observation);
    }

    /// The observation recorded for an entry, if any.
    pub fn observation(&self, id: EntryId) -> (r: Option<&Observation>)
        ensures
            match r {
                Some(o) => self@.observations.contains_key(id.0) && *o == self@.observations[id.0],
                None => !self@.observations.contains_key(id.0),
            },
    {
        self.observations.get(&id.0)
    }

    /// Build the child/sibling indexes. Cheap to call once, wasteful to keep
    /// for plans that only need a flat stream. Each entry is linked under
    /// its parent when the parent is a stored entry, in id order.
    pub fn materialize_hierarchy(&mut self)
        requires
            old(self).wf(),
        ensures
            final(self).wf(),
            final(self)@.shaped(),
            old(self)@.materialized ==> final(self)@ == old(self)@,
            !old(self)@.materialized ==> final(self)@ == (StoreState {
                materialized: true,
                children: materialized_children(old(self)@.entries),
                ..old(self)@
            }),
    {
        if self.materialized {
            return;
        }
        let n = self.entries.len();
        self.first_child = vec![None; n];
        self.next_sibling = vec![None; n];
        self.materialized = true;
        let ghost entries = self.entries@;
        proof {
            let cs = self.chains@;
            let ow = self.owner@;
            assert forall|p: int| 0 <= p < n implies head_ok(#[trigger] self.first_child@[p], cs[p]) by {
                assert(cs[p].len() == 0);
            }
            assert forall|i: int| 0 <= i < n implies next_ok(#[trigger] self.next_sibling@[i], cs, ow[i]) by {
                assert(ow[i] is None);
            }
            assert forall|p: int| 0 <= p < n implies #[trigger] cs[p] == linked_children(
                partial_links(entries, 0),
                p as nat,
                0,
            ) by {
                assert(cs[p].len() == 0);
                lemma_skip_unlinked(partial_links(entries, 0), p as nat, 0, n as int);
                assert(cs[p] =~= Seq::<nat>::empty());
            }
        }
        let mut child: usize = 0;
        while child < n
            invariant
                n == self.entries@.len(),
                n <= u32::MAX,
                child <= n,
                entries == self.entries@,
                self.entries@ == old(self)@.entries,
                self.observations@ == old(self)@.observations,
                self.materialized,
                self.owner@.len() == n,
                chains_ok(self.first_child@, self.next_sibling@, self.chains@, self.owner@),
                forall|k: int| child <= k < n ==> #[trigger] self.owner@[k] is None,
                forall|p: int|
                    0 <= p < n ==> #[trigger] self.chains@[p] == linked_children(
                        partial_links(entries, child as int),
                        p as nat,
                        0,
                    ),
            decreases n - child,
        {
            let ghost before = self.chains@;
            if let Some(parent) = self.entries[child].parent {
                self.link_child(parent, EntryId(child as u32));
            }
            proof {
                let l = partial_links(entries, child as int);
                let x = parent_link(entries[child as int], n as nat);
                assert(partial_links(entries, child + 1) =~= l.update(child as int, x));
                assert forall|p: int| 0 <= p < n implies #[trigger] self.chains@[p] == linked_children(
                    partial_links(entries, child + 1),
                    p as nat,
                    0,
                ) by {
                    lemma_link_last_slot(l, child as int, x, p as nat, 0);
                    if x == Some(p as nat) {
                        assert(self.chains@[p] == before[p].push(child as nat));
                    } else {
                        assert(self.chains@[p] == before[p]);
                    }
                }
            }
            child += 1;
        }
        proof {
            assert(partial_links(entries, n as int) =~= materialized_links(entries));
            assert(self.chains@ =~= materialized_children(entries));
        }
    }

    pub fn is_materialized(&self) -> (r: bool)
        ensures
            r == self@.materialized,
    {
        self.materialized
    }

    /// Children in the order they were linked.
    ///
    /// Link order is *not* output order: canonical, byte-level ordering is
    /// applied when results are produced, so worker count never changes
    /// output.
    pub fn children(&self, parent: EntryId) -> (r: ChildIter<'_>)
        requires
            self.wf(),
        ensures
            r.wf(),
            r.store_view() == self@,
            r.remaining() == self@.children_of(parent.0 as nat),
    {
        let i = parent.0 as usize;
        let next = if self.materialized && i < self.first_child.len() {
            self.first_child[i]
        } else {
            None
        };
        proof {
            if self.materialized && i < self.first_child@.len() {
                let chain = self.chains@[i as int];
                assert(head_ok(self.first_child@[i as int], chain));
                if chain.len() > 0 {
                    assert(chain[0] < self.owner@.len());
                    assert(self.owner@[chain[0] as int] == Some((i as nat, 0nat)));
                    assert(chain.subrange(0, chain.len() as int) =~= chain);
                }
            }
        }
        ChildIter { store: self, next }
    }

    /// Append `child` to the end of `parent`'s child list, when `parent`
    /// names a slot; `child` must not be linked yet.
    fn link_child(&mut self, parent: EntryId, child: EntryId)
        requires
            old(self).materialized,
            chains_ok(
                old(self).first_child@,
                old(self).next_sibling@,
                old(self).chains@,
                old(self).owner@,
            ),
            (child.0 as int) < old(self).owner@.len(),
            old(self).owner@[child.0 as int] is None,
        ensures
            final(self).materialized,
            final(self).entries@ == old(self).entries@,
            final(self).observations@ == old(self).observations@,
            chains_ok(
                final(self).first_child@,
                final(self).next_sibling@,
                final(self).chains@,
                final(self).owner@,
            ),
            (parent.0 as int) < old(self).owner@.len() ==> {
                &&& final(self).chains@ == old(self).chains@.update(
                    parent.0 as int,
                    old(self).chains@[parent.0 as int].push(child.0 as nat),
                )
                &&& final(self).owner@ == old(self).owner@.update(
                    child.0 as int,
                    Some((parent.0 as nat, old(self).chains@[parent.0 as int].len())),
                )
            },
            (parent.0 as int) >= old(self).owner@.len() ==> {
                &&& final(self).chains@ == old(self).chains@
                &&& final(self).owner@ == old(self).owner@
            },
    {
        let parent_index = parent.0 as usize;
        if parent_index >= self.first_child.len() {
            return;
        }
        let ghost p = parent.0 as nat;
        let ghost chain = self.chains@[p as int];
        proof {
            lemma_chains_append(
                self.first_child@,
                self.next_sibling@,
                self.chains@,
                self.owner@,
                p,
                child,
            );
        }
        match self.first_child[parent_index] {
            None => {
                assert(head_ok(self.first_child@[p as int], chain));
                self.first_child.set(parent_index, Some(child));
            },
            Some(first) => {
                assert(head_ok(self.first_child@[p as int], chain));
                let ghost n = self.owner@.len();
                let mut current = first;
                let ghost mut k: int = 0;
                proof {
                    assert(chain[0] < n);
                }
                loop
                    invariant
                        self.owner@.len() == n,
                        chain == self.chains@[p as int],
                        chains_ok(self.first_child@, self.next_sibling@, self.chains@, self.owner@),
                        p < n,
                        0 <= k < chain.len(),
                        current.0 == chain[k],
                        chain[k] < n,
                    ensures
                        k == chain.len() - 1,
                        current.0 == chain[k],
                    decreases chain.len() - k,
                {
                    assert(self.owner@[chain[k] as int] == Some((p, k as nat)));
                    assert(next_ok(self.next_sibling@[current.0 as int], self.chains@, self.owner@[current.0 as int]));
                    match self.next_sibling[current.0 as usize] {
                        Some(next) => {
                            current = next;
                            proof {
                                k = k + 1;
                                assert(chain[k] < n);
                            }
                        },
                        None => {
                            break ;
                        },
                    }
                }
                self.next_sibling.set(current.0 as usize, Some(child));
            },
        }
        self.chains = Ghost(self.chains@.update(p as int, chain.push(child.0 as nat)));
        self.owner = Ghost(self.owner@.update(child.0 as int, Some((p, chain.len()))));
    }

    /// Group the given entries by object identity, i.e. hardlinks.
    ///
    /// Scoped to a candidate list on purpose: a global `ObjectId -> entries`
    /// map over ten million mostly-unique objects would cost more memory than
    /// the entries themselves. Hardlinks only matter inside a duplicate group.
    ///
    /// Ids that name no stored entry, and entries without an object identity,
    /// are skipped. Groups with a single member are dropped; each returned
    /// group is one stored object, never N reclaimable copies. Groups come in
    /// order of first appearance and keep the candidates' order.
    pub fn hardlink_groups(&self, candidates: &[EntryId]) -> (r: Vec<Vec<EntryId>>)
        ensures
            r@.map_values(|g: Vec<EntryId>| g@) == spec_hardlink_groups(self@, candidates@),
    {
        let ghost v = self@;
        let ghost cs = candidates@;
        let mut objects: Vec<ObjectId> = Vec::new();
        let mut members: Vec<Vec<EntryId>> = Vec::new();
        let mut i: usize = 0;
        while i < candidates.len()
            invariant
                v == self@,
                cs == candidates@,
                i <= cs.len(),
                objects@.len() == members@.len(),
                objects@ == first_seen_objects(v, cs.take(i as int)),
                forall|a: int, b: int|
                    0 <= a < b < objects@.len() ==> #[trigger] objects@[a] != #[trigger] objects@[b],
                forall|g: int|
                    0 <= g < members@.len() ==> #[trigger] members@[g]@ == object_members(
                        v,
                        cs.take(i as int),
                        objects@[g],
                    ),
            decreases cs.len() - i,
        {
            let id = candidates[i];
            let ghost prefix = cs.take(i as int);
            let ghost next_prefix = cs.take(i + 1);
            proof {
                assert(next_prefix =~= prefix.push(id));
                assert(next_prefix.drop_last() =~= prefix);
            }
            let ghost old_objects = objects@;
            let ghost old_members = members@;
            match self.get(id) {
                None => {
                    proof {
                        assert(v.candidate_object(id) is None);
                        lemma_members_step(v, prefix, id, old_objects);
                    }
                },
                Some(entry) => match entry.object {
                    None => {
                        proof {
                            assert(v.candidate_object(id) is None);
                            lemma_members_step(v, prefix, id, old_objects);
                        }
                    },
                    Some(object) => {
                        let mut slot: usize = 0;
                        while slot < objects.len() && objects[slot] != object
                            invariant
                                slot <= objects@.len(),
                                forall|k: int| 0 <= k < slot ==> objects@[k] != object,
                            decreases objects@.len() - slot,
                        {
                            slot += 1;
                        }
                        proof {
                            assert(v.candidate_object(id) == Some(object));
                            lemma_members_step(v, prefix, id, old_objects);
                        }
                        if slot < objects.len() {
                            members[slot].push(id);
                            proof {
                                assert(old_objects[slot as int] == object);
                                assert(old_objects.contains(object));
                                assert forall|g: int| 0 <= g < members@.len() implies #[trigger] members@[g]@
                                    == object_members(v, next_prefix, objects@[g]) by {
                                    assert(old_members[g]@ == object_members(v, prefix, objects@[g]));
                                    if g != slot {
                                        assert(members@[g] == old_members[g]);
                                        assert(objects@[g] != object);
                                    } else {
                                        assert(members@[g]@ == old_members[g]@.push(id));
                                    }
                                }
                            }
                        } else {
                            objects.push(object);
                            let mut fresh: Vec<EntryId> = Vec::new();
                            fresh.push(id);
                            members.push(fresh);
                            proof {
                                assert(!old_objects.contains(object)) by {
                                    if old_objects.contains(object) {
                                        let k = choose|k: int| 0 <= k < old_objects.len() && old_objects[k] == object;
                                        assert(objects@[k] != object);
                                    }
                                }
                                lemma_unseen_has_no_members(v, prefix, object);
                                assert forall|g: int| 0 <= g < members@.len() implies #[trigger] members@[g]@
                                    == object_members(v, next_prefix, objects@[g]) by {
                                    if g < old_members.len() {
                                        assert(old_members[g]@ == object_members(v, prefix, objects@[g]));
                                        assert(objects@[g] == old_objects[g]);
                                    } else {
                                        assert(members@[g]@ =~= seq![id]);
                                    }
                                }
                            }
                        }
                    },
                },
            }
            i += 1;
        }
        proof {
            assert(cs.take(cs.len() as int) =~= cs);
        }
        let ghost all = objects@.map_values(|o: ObjectId| object_members(v, cs, o));
        let mut groups: Vec<Vec<EntryId>> = Vec::new();
        let mut g: usize = 0;
        while g < members.len()
            invariant
                g <= members@.len(),
                objects@.len() == members@.len(),
                all == objects@.map_values(|o: ObjectId| object_members(v, cs, o)),
                forall|k: int| g <= k < members@.len() ==> #[trigger] members@[k]@ == all[k],
                groups@.map_values(|x: Vec<EntryId>| x@) == all.take(g as int).filter(
                    |x: Seq<EntryId>| x.len() > 1,
                ),
            decreases members@.len() - g,
        {
            let ghost before = groups@;
            let mut taken: Vec<EntryId> = Vec::new();
            std::mem::swap(&mut taken, &mut members[g]);
            proof {
                assert(taken@ == all[g as int]);
                assert(all.take(g + 1) =~= all.take(g as int).push(all[g as int]));
                all.take(g as int).lemma_filter_push(all[g as int], |x: Seq<EntryId>| x.len() > 1);
            }
            if taken.len() > 1 {
                groups.push(taken);
                proof {
                    assert(groups@.map_values(|x: Vec<EntryId>| x@) =~= before.map_values(
                        |x: Vec<EntryId>| x@,
                    ).push(all[g as int]));
                }
            }
            g += 1;
        }
        proof {
            assert(all.take(all.len() as int) =~= all);
        }
        groups
    }

    /// Mark an entry as changed during the scan; it then drops out of the
    /// duplicate pipeline. Returns whether the id names a stored entry.
    pub fn mark_changed_during_scan(&mut self, id: EntryId) -> (r: bool)
        requires
            old(self).wf(),
        ensures
            final(self).wf(),
            r == ((id.0 as int) < old(self)@.entries.len()),
            final(self)@.entries.len() == old(self)@.entries.len(),
            final(self)@.observations == old(self)@.observations,
            final(self)@.materialized == old(self)@.materialized,
            final(self)@.children == old(self)@.children,
            forall|i: int|
                0 <= i < old(self)@.entries.len() && i != id.0 ==> #[trigger] final(self)@.entries[i]
                    == old(self)@.entries[i],
            r ==> {
                let before = old(self)@.entries[id.0 as int];
                let after = final(self)@.entries[id.0 as int];
                &&& after.flags@ == before.flags@ | changed_bit()
                &&& after == Entry { flags: after.flags, ..before }
                &&& !after.spec_is_duplicate_candidate()
            },
    {
        let i = id.0 as usize;
        if i < self.entries.len() {
            let mut entry = self.entries[i];
            entry.flags.insert(EntryFlags::changed_during_scan());
            self.entries.set(i, entry);
            proof {
                let b = old(self)@.entries[i as int].flags@;
                assert((b | 0x80u32) & 0x80u32 == 0x80u32) by (bit_vector);
            }
            true
        } else {
            false
        }
    }
}

/// One more candidate: the first-seen objects grow by its object when it is
/// new, and only that object's members grow, by this candidate.
proof fn lemma_members_step(v: StoreState, prefix: Seq<EntryId>, id: EntryId, seen: Seq<ObjectId>)
    requires
        seen == first_seen_objects(v, prefix),
    ensures
        first_seen_objects(v, prefix.push(id)) == (match v.candidate_object(id) {
            Some(o) => if seen.contains(o) {
                seen
            } else {
                seen.push(o)
            },
            None => seen,
        }),
        forall|o: ObjectId| #[trigger] object_members(v, prefix.push(id), o) == (if v.candidate_object(id) == Some(o) {
            object_members(v, prefix, o).push(id)
        } else {
            object_members(v, prefix, o)
        }),
{
    assert(prefix.push(id).drop_last() =~= prefix);
    assert forall|o: ObjectId| #[trigger] object_members(v, prefix.push(id), o) == (if v.candidate_object(id) == Some(o) {
        object_members(v, prefix, o).push(id)
    } else {
        object_members(v, prefix, o)
    }) by {
        prefix.lemma_filter_push(id, |c: EntryId| v.candidate_object(c) == Some(o));
    }
}

/// An object not among the first-seen objects of a prefix has no members in
/// it.
proof fn lemma_unseen_has_no_members(v: StoreState, prefix: Seq<EntryId>, o: ObjectId)
    requires
        !first_seen_objects(v, prefix).contains(o),
    ensures
        object_members(v, prefix, o) == Seq::<EntryId>::empty(),
    decreases prefix.len(),
{
    if prefix.len() == 0 {
        assert(object_members(v, prefix, o) =~= Seq::<EntryId>::empty()) by {
            reveal(Seq::filter);
        }
    } else {
        let init = prefix.drop_last();
        let prev = first_seen_objects(v, init);
        assert(!prev.contains(o)) by {
            if prev.contains(o) {
                let k = choose|k: int| 0 <= k < prev.len() && prev[k] == o;
                match v.candidate_object(prefix.last()) {
                    Some(x) => if !prev.contains(x) {
                        assert(prev.push(x)[k] == o);
                    },
                    None => {},
                }
            }
        }
        lemma_unseen_has_no_members(v, init, o);
        assert(prefix =~= init.push(prefix.last()));
        init.lemma_filter_push(prefix.last(), |c: EntryId| v.candidate_object(c) == Some(o));
        if v.candidate_object(prefix.last()) == Some(o) {
            assert(first_seen_objects(v, prefix).contains(o)) by {
                assert(first_seen_objects(v, prefix) == prev.push(o));
                assert(prev.push(o)[prev.len() as int] == o);
            }
        }
    }
}

impl Default for EntryStore {
    fn default() -> (r: Self)
        ensures
            r.wf(),
            r@ == (StoreState {
                entries: Seq::empty(),
                observations: Map::empty(),
                materialized: false,
                children: Seq::empty(),
            }),
    {
        EntryStore::new()
    }
}

/// Iterator over the children of one entry.
pub struct ChildIter<'a> {
    store: &'a EntryStore,
    next: Option<EntryId>,
}

impl<'a> ChildIter<'a> {
    /// The state of the store being walked.
    pub closed spec fn store_view(&self) -> StoreState {
        self.store@
    }

    /// Ids of the children still to come, in order.
    pub closed spec fn remaining(&self) -> Seq<nat> {
        match self.next {
            Some(c) => match self.store.owner@[c.0 as int] {
                Some((p, k)) => self.store.chains@[p as int].subrange(
                    k as int,
                    self.store.chains@[p as int].len() as int,
                ),
                None => Seq::empty(),
            },
            None => Seq::empty(),
        }
    }

    /// The walked store is well formed and the cursor names a linked entry.
    pub closed spec fn wf(&self) -> bool {
        &&& self.store.wf()
        &&& self.next matches Some(c) ==> {
            &&& self.store.materialized
            &&& (c.0 as int) < self.store.owner@.len()
            &&& self.store.owner@[c.0 as int] is Some
        }
    }

    /// The next child, in link order.
    pub fn next(&mut self) -> (r: Option<&'a Entry>)
        requires
            old(self).wf(),
        ensures
            final(self).wf(),
            final(self).store_view() == old(self).store_view(),
            old(self).remaining().len() == 0 ==> r is None && final(self).remaining() == old(
                self,
            ).remaining(),
            old(self).remaining().len() > 0 ==> {
                &&& final(self).remaining() == old(self).remaining().drop_first()
                &&& r matches Some(e) && *e == old(self).store_view().entries[old(self).remaining()[0] as int]
            },
    {
        let id = match self.next {
            Some(id) => id,
            None => {
                return None;
            },
        };
        let store: &'a EntryStore = self.store;
        proof {
            let cs = store.chains@;
            let ow = store.owner@;
            let (p, k) = ow[id.0 as int]->0;
            let chain = cs[p as int];
            assert(chain[k as int] == id.0);
            assert(next_ok(store.next_sibling@[id.0 as int], cs, ow[id.0 as int]));
            if k + 1 < chain.len() {
                assert(chain[k + 1int] < ow.len());
                assert(ow[chain[k + 1int] as int] == Some((p, (k + 1) as nat)));
            }
            assert(chain.subrange(k as int, chain.len() as int).drop_first() =~= chain.subrange(
                k + 1int,
                chain.len() as int,
            ));
        }
        self.next = store.next_sibling[id.0 as usize];
        store.get(id)
    }

    /// Number of children still to come; consumes the iterator.
    pub fn count(self) -> (r: usize)
        requires
            self.wf(),
        ensures
            r == self.remaining().len(),
    {
        let mut it = self;
        let ghost total = self.remaining().len();
        let mut n: usize = 0;
        proof {
            lemma_remaining_bounded(&it);
        }
        loop
            invariant
                it.wf(),
                n + it.remaining().len() == total,
                total <= u32::MAX,
            ensures
                n == total,
            decreases it.remaining().len(),
        {
            match it.next() {
                Some(_) => {
                    n += 1;
                },
                None => {
                    break ;
                },
            }
        }
        n
    }
}

/// A child listing never holds more ids than the store has entries.
proof fn lemma_remaining_bounded(it: &ChildIter)
    requires
        it.wf(),
    ensures
        it.remaining().len() <= u32::MAX,
{
    match it.next {
        Some(c) => {
            let (p, k) = it.store.owner@[c.0 as int]->0;
            lemma_chain_bounded(
                it.store.first_child@,
                it.store.next_sibling@,
                it.store.chains@,
                it.store.owner@,
                p as int,
            );
        },
        None => {},
    }
}

/// After materialization, the children of `p` are exactly the stored
/// entries whose parent is `p`, in ascending id order.
pub proof fn lemma_materialized_children(entries: Seq<Entry>, p: nat)
    requires
        entries.len() <= u32::MAX,
    ensures
        p < entries.len() ==> materialized_children(entries)[p as int] == linked_children(
            materialized_links(entries),
            p,
            0,
        ),
        forall|x: nat| #[trigger] linked_children(materialized_links(entries), p, 0).contains(x) <==> (x < entries.len() && p < entries.len() && entries[x as int].parent
            == Some(EntryId(p as u32))),
        forall|i: int, j: int|
            0 <= i < j < linked_children(materialized_links(entries), p, 0).len() ==> #[trigger] linked_children(
                materialized_links(entries),
                p,
                0,
            )[i] < #[trigger] linked_children(materialized_links(entries), p, 0)[j],
{
    let ls = materialized_links(entries);
    lemma_linked_children_contents(ls, p, 0);
    assert forall|x: nat| #[trigger] linked_children(ls, p, 0).contains(x) <==> (x < entries.len()
        && p < entries.len() && entries[x as int].parent == Some(EntryId(p as u32))) by {
        if x < entries.len() {
            assert(ls[x as int] == parent_link(entries[x as int], entries.len()));
        }
    }
}

/// Pushing an entry appends its id to the children of its parent (once the
/// hierarchy is materialized and the parent is stored or the entry itself)
/// and leaves every other entry's children unchanged: children stay in the
/// order they were linked.
pub proof fn lemma_push_appends_child(s: StoreState, e: Entry, q: nat)
    requires
        s.shaped(),
    ensures
        ({
            let after = StoreState {
                entries: s.entries.push(e),
                children: children_after_push(s.children, e, s.materialized),
                ..s
            };
            &&& after.shaped()
            &&& after.children_of(q) == (if s.materialized && parent_link(
                e,
                s.entries.len() + 1,
            ) == Some(q) {
                s.children_of(q).push(s.entries.len())
            } else {
                s.children_of(q)
            })
        }),
{
}

/// What a read gives back of a write: after recording `o` for `id`, the
/// observation of `id` is `o`, and the observation of every other id is what
/// it was before.
pub proof fn lemma_observation_read_after_write(v: StoreState, id: EntryId, o: Observation, other: EntryId)
    ensures
        ({
            let after = StoreState { observations: v.observations.insert(id.0, o), ..v };
            &&& after.observations.contains_key(id.0)
            &&& after.observations[id.0] == o
            &&& other.0 != id.0 ==> {
                &&& after.observations.contains_key(other.0) == v.observations.contains_key(other.0)
                &&& v.observations.contains_key(other.0) ==> after.observations[other.0]
                    == v.observations[other.0]
            }
        }),
{
}

/// Ids are dense and positional: the entry pushed into a store of `n`
/// entries gets id `n`, and reading that id gives the entry back while every
/// earlier entry is unchanged.
pub proof fn lemma_push_then_get(v: StoreState, e: Entry)
    ensures
        ({
            let after = v.entries.push(e);
            &&& after.len() == v.entries.len() + 1
            &&& after[v.entries.len() as int] == e
            &&& forall|i: int| 0 <= i < v.entries.len() ==> after[i] == v.entries[i]
        }),
{
}

/// Until the hierarchy is materialized no entry has children, and entries
/// pushed meanwhile are not linked.
pub proof fn lemma_no_children_before_materialization(v: StoreState, p: nat)
    requires
        !v.materialized,
    ensures
        v.children_of(p) == Seq::<nat>::empty(),
{
}

/// Every id of `g` names a stored entry whose object is `o`.
pub open spec fn all_share_object(v: StoreState, g: Seq<EntryId>, o: ObjectId) -> bool {
    forall|k: int| 0 <= k < g.len() ==> #[trigger] v.candidate_object(g[k]) == Some(o)
}

/// Every hardlink group has at least two members, all of them stored entries
/// that share one object identity; every object shared by two or more
/// candidates has its group.
pub proof fn lemma_hardlink_groups_are_shared_objects(v: StoreState, candidates: Seq<EntryId>)
    ensures
        forall|i: int|
            0 <= i < spec_hardlink_groups(v, candidates).len() ==> {
                let g = #[trigger] spec_hardlink_groups(v, candidates)[i];
                &&& g.len() > 1
                &&& exists|o: ObjectId| #[trigger] all_share_object(v, g, o)
            },
        forall|o: ObjectId|
            #![trigger object_members(v, candidates, o)]
            object_members(v, candidates, o).len() > 1 ==> spec_hardlink_groups(
                v,
                candidates,
            ).contains(object_members(v, candidates, o)),
{
    let seen = first_seen_objects(v, candidates);
    let all = seen.map_values(|o: ObjectId| object_members(v, candidates, o));
    let pred = |g: Seq<EntryId>| g.len() > 1;
    let groups = all.filter(pred);
    assert forall|i: int| 0 <= i < groups.len() implies {
        let g = #[trigger] groups[i];
        &&& g.len() > 1
        &&& exists|o: ObjectId| #[trigger] all_share_object(v, g, o)
    } by {
        all.lemma_filter_pred(pred, i);
        let g = groups[i];
        assert(groups.contains(g));
        all.lemma_filter_contains_rev(pred, g);
        assert(all.contains(g));
        let j = choose|j: int| 0 <= j < all.len() && all[j] == g;
        let o = seen[j];
        let f = |c: EntryId| v.candidate_object(c) == Some(o);
        assert forall|k: int| 0 <= k < g.len() implies #[trigger] v.candidate_object(g[k]) == Some(o) by {
            candidates.lemma_filter_pred(f, k);
        }
        assert(all_share_object(v, g, o));
    }
    assert forall|o: ObjectId| #![trigger object_members(v, candidates, o)]
        object_members(v, candidates, o).len() > 1 implies groups.contains(object_members(v, candidates, o)) by {
        let m = object_members(v, candidates, o);
        lemma_members_seen(v, candidates, o);
        let j = choose|j: int| 0 <= j < seen.len() && seen[j] == o;
        assert(all[j] == m);
        all.lemma_filter_contains(pred, j);
    }
}

/// An object with members among the candidates is among the first-seen
/// objects.
proof fn lemma_members_seen(v: StoreState, candidates: Seq<EntryId>, o: ObjectId)
    requires
        object_members(v, candidates, o).len() > 0,
    ensures
        first_seen_objects(v, candidates).contains(o),
{
    if !first_seen_objects(v, candidates).contains(o) {
        lemma_unseen_has_no_members(v, candidates, o);
    }
}

/// What the duplicate candidates of a store are: every entry in the list is
/// a stored regular file that is readable and did not change during the
/// scan, and every such stored file is in the list.
pub proof fn lemma_store_candidates_are_readable_files(v: StoreState)
    ensures
        forall|k: int|
            0 <= k < candidates_of(v.entries).len() ==> {
                let c = #[trigger] candidates_of(v.entries)[k];
                &&& c.kind == EntryKind::File
                &&& c.flags@ & 0x40 != 0x40
                &&& c.flags@ & 0x80 != 0x80
                &&& v.entries.contains(c)
            },
        forall|k: int|
            0 <= k < v.entries.len() && (#[trigger] v.entries[k]).kind == EntryKind::File
                && v.entries[k].flags@ & 0x40 != 0x40 && v.entries[k].flags@ & 0x80 != 0x80
                ==> candidates_of(v.entries).contains(v.entries[k]),
{
    let p = |e: Entry| e.spec_is_duplicate_candidate();
    assert forall|k: int| 0 <= k < candidates_of(v.entries).len() implies {
        let c = #[trigger] candidates_of(v.entries)[k];
        &&& c.kind == EntryKind::File
        &&& c.flags@ & 0x40 != 0x40
        &&& c.flags@ & 0x80 != 0x80
        &&& v.entries.contains(c)
    } by {
        v.entries.lemma_filter_pred(p, k);
        assert(v.entries.filter(p).contains(v.entries.filter(p)[k]));
        v.entries.lemma_filter_contains_rev(p, v.entries.filter(p)[k]);
    }
    assert forall|k: int|
        0 <= k < v.entries.len() && (#[trigger] v.entries[k]).kind == EntryKind::File
            && v.entries[k].flags@ & 0x40 != 0x40 && v.entries[k].flags@ & 0x80 != 0x80
            implies candidates_of(v.entries).contains(v.entries[k]) by {
        v.entries.lemma_filter_contains(p, k);
    }
}

} // verus!
