//! Determinism rules.
//!
//! Scan order is allowed to be nondeterministic; the output is not. Tests,
//! CLI diffs, MCP responses and regression runs all depend on byte-identical
//! output for the same input, at any worker count.

use crate::model::fingerprint::Fingerprint;
use std::cmp::Ordering;
use vstd::prelude::*;
use vstd::relations::{sorted_by, total_ordering};

verus! {

/// Three-way result as a number: negative, zero or positive.
pub open spec fn ordering_of(c: int) -> Ordering {
    if c < 0 {
        Ordering::Less
    } else if c == 0 {
        Ordering::Equal
    } else {
        Ordering::Greater
    }
}

/// Lexicographic byte order as -1, 0 or 1: the first differing byte
/// decides, and a proper prefix comes first.
pub open spec fn lex_order(a: Seq<u8>, b: Seq<u8>) -> int
    decreases a.len(),
{
    if a.len() == 0 {
        if b.len() == 0 {
            0
        } else {
            -1
        }
    } else if b.len() == 0 {
        1
    } else if a[0] < b[0] {
        -1
    } else if a[0] > b[0] {
        1
    } else {
        lex_order(a.drop_first(), b.drop_first())
    }
}

/// Lexicographic byte order.
pub open spec fn lex_cmp(a: Seq<u8>, b: Seq<u8>) -> Ordering {
    ordering_of(lex_order(a, b))
}

/// A common prefix does not change the lexicographic comparison.
proof fn lemma_lex_skip_prefix(a: Seq<u8>, b: Seq<u8>, k: int)
    requires
        0 <= k <= a.len(),
        k <= b.len(),
        a.take(k) == b.take(k),
    ensures
        lex_order(a, b) == lex_order(a.skip(k), b.skip(k)),
    decreases k,
{
    if k == 0 {
        assert(a.skip(0) =~= a);
        assert(b.skip(0) =~= b);
    } else {
        assert(a[0] == a.take(k)[0]);
        assert(b[0] == b.take(k)[0]);
        assert(a.drop_first().take(k - 1) =~= a.take(k).drop_first());
        assert(b.drop_first().take(k - 1) =~= b.take(k).drop_first());
        lemma_lex_skip_prefix(a.drop_first(), b.drop_first(), k - 1);
        assert(a.drop_first().skip(k - 1) =~= a.skip(k));
        assert(b.drop_first().skip(k - 1) =~= b.skip(k));
    }
}

/// Lexicographic order is antisymmetric: it is zero exactly on equal
/// sequences, and swapping the arguments negates it.
pub proof fn lemma_lex_order_antisymmetric(a: Seq<u8>, b: Seq<u8>)
    ensures
        -1 <= lex_order(a, b) <= 1,
        lex_order(a, b) == 0 <==> a == b,
        lex_order(a, b) == -lex_order(b, a),
    decreases a.len(),
{
    if a.len() > 0 && b.len() > 0 && a[0] == b[0] {
        lemma_lex_order_antisymmetric(a.drop_first(), b.drop_first());
        if a.drop_first() == b.drop_first() {
            assert(a =~= seq![a[0]] + a.drop_first());
            assert(b =~= seq![b[0]] + b.drop_first());
        }
        if a == b {
            assert(a.drop_first() =~= b.drop_first());
        }
    } else if a.len() == 0 && b.len() == 0 {
        assert(a =~= b);
    } else if a.len() > 0 && b.len() > 0 {
        assert(a[0] != b[0]);
    }
}

/// Lexicographic order is transitive, strictly so when one step is strict.
pub proof fn lemma_lex_order_transitive(a: Seq<u8>, b: Seq<u8>, c: Seq<u8>)
    requires
        lex_order(a, b) <= 0,
        lex_order(b, c) <= 0,
    ensures
        lex_order(a, c) <= 0,
        lex_order(a, b) < 0 || lex_order(b, c) < 0 ==> lex_order(a, c) < 0,
    decreases a.len(),
{
    lemma_lex_order_antisymmetric(a, b);
    lemma_lex_order_antisymmetric(b, c);
    lemma_lex_order_antisymmetric(a, c);
    if a.len() > 0 && b.len() > 0 && c.len() > 0 && a[0] == b[0] && b[0] == c[0] {
        lemma_lex_order_transitive(a.drop_first(), b.drop_first(), c.drop_first());
    }
}

/// Index of the first position where `a` and `b` differ, or the length of
/// the shorter one when one is a prefix of the other.
fn common_prefix_len(a: &[u8], b: &[u8]) -> (k: usize)
    ensures
        k <= a@.len(),
        k <= b@.len(),
        a@.take(k as int) == b@.take(k as int),
        k < a@.len() && k < b@.len() ==> a@[k as int] != b@[k as int],
{
    let mut k: usize = 0;
    while k < a.len() && k < b.len() && a[k] == b[k]
        invariant
            k <= a@.len(),
            k <= b@.len(),
            a@.take(k as int) == b@.take(k as int),
        decreases a@.len() - k,
    {
        assert(a@.take(k + 1) =~= a@.take(k as int).push(a@[k as int]));
        assert(b@.take(k + 1) =~= b@.take(k as int).push(b@[k as int]));
        k += 1;
    }
    k
}

/// Lexicographic order decided at the first differing position.
proof fn lemma_lex_at_difference(a: Seq<u8>, b: Seq<u8>, k: usize)
    requires
        k <= a.len(),
        k <= b.len(),
        a.take(k as int) == b.take(k as int),
        k < a.len() && k < b.len() ==> a[k as int] != b[k as int],
    ensures
        lex_order(a, b) == (if k < a.len() && k < b.len() {
            if a[k as int] < b[k as int] {
                -1int
            } else {
                1int
            }
        } else if a.len() == b.len() {
            0int
        } else if a.len() < b.len() {
            -1int
        } else {
            1int
        }),
{
    lemma_lex_skip_prefix(a, b, k as int);
    let (sa, sb) = (a.skip(k as int), b.skip(k as int));
    if k < a.len() && k < b.len() {
        assert(sa[0] == a[k as int] && sb[0] == b[k as int]);
    }
}

/// Byte-level comparison for canonical keys.
///
/// Never use a locale-aware or Unicode-collation comparison here: the same
/// fixture must produce the same order on macOS, Windows and Linux.
pub fn canonical_cmp(a: &[u8], b: &[u8]) -> (r: Ordering)
    ensures
        r == lex_cmp(a@, b@),
{
    let k = common_prefix_len(a, b);
    proof {
        lemma_lex_at_difference(a@, b@, k);
    }
    if k < a.len() && k < b.len() {
        if a[k] < b[k] {
            Ordering::Less
        } else {
            Ordering::Greater
        }
    } else if a.len() == b.len() {
        Ordering::Equal
    } else if a.len() < b.len() {
        Ordering::Less
    } else {
        Ordering::Greater
    }
}

/// The abstract value of a [`GroupOrderKey`]: its size, the bytes of its
/// fingerprint when it has one, and its canonical locator key.
pub struct KeyView {
    pub size: u64,
    pub fingerprint: Option<Seq<u8>>,
    pub locator_key: Seq<u8>,
}

/// Sort key of a duplicate group.
///
/// Frozen order: size descending, then fingerprint ascending (a group with a
/// fingerprint before one without), then the canonical locator key
/// ascending. Member order never depends on which worker discovered a file.
#[derive(Clone, PartialEq, Eq, Debug)]
pub struct GroupOrderKey {
    pub size: u64,
    pub fingerprint: Option<Fingerprint>,
    pub locator_key: Vec<u8>,
}

impl View for GroupOrderKey {
    type V = KeyView;

    open spec fn view(&self) -> KeyView {
        KeyView {
            size: self.size,
            fingerprint: match self.fingerprint {
                Some(f) => Some(f.bytes@),
                None => None,
            },
            locator_key: self.locator_key@,
        }
    }
}

/// The fingerprint part of the canonical order, as -1, 0 or 1.
pub open spec fn fingerprint_order(a: Option<Seq<u8>>, b: Option<Seq<u8>>) -> int {
    match (a, b) {
        (Some(x), Some(y)) => lex_order(x, y),
        (Some(_), None) => -1,
        (None, Some(_)) => 1,
        (None, None) => 0,
    }
}

/// The canonical group order as -1, 0 or 1: size descending, then
/// fingerprint ascending, then locator key ascending.
pub open spec fn key_order(a: KeyView, b: KeyView) -> int {
    if a.size > b.size {
        -1
    } else if a.size < b.size {
        1
    } else if fingerprint_order(a.fingerprint, b.fingerprint) != 0 {
        fingerprint_order(a.fingerprint, b.fingerprint)
    } else {
        lex_order(a.locator_key, b.locator_key)
    }
}

/// `a` comes no later than `b` in the canonical order.
pub open spec fn key_le(a: KeyView, b: KeyView) -> bool {
    key_order(a, b) <= 0
}

/// The canonical order as a relation.
pub open spec fn key_leq() -> spec_fn(KeyView, KeyView) -> bool {
    |a: KeyView, b: KeyView| key_le(a, b)
}

/// The abstract values of a sequence of keys.
pub open spec fn key_views(s: Seq<GroupOrderKey>) -> Seq<KeyView> {
    s.map_values(|k: GroupOrderKey| k@)
}

/// The canonical order is antisymmetric: swapping the keys negates it, and it
/// is zero only on equal keys.
pub proof fn lemma_key_order_antisymmetric(a: KeyView, b: KeyView)
    ensures
        -1 <= key_order(a, b) <= 1,
        key_order(a, b) == -key_order(b, a),
        key_order(a, b) == 0 <==> a == b,
{
    lemma_lex_order_antisymmetric(a.locator_key, b.locator_key);
    match (a.fingerprint, b.fingerprint) {
        (Some(x), Some(y)) => {
            lemma_lex_order_antisymmetric(x, y);
        },
        _ => {},
    }
}

/// The canonical order is transitive.
pub proof fn lemma_key_order_transitive(a: KeyView, b: KeyView, c: KeyView)
    requires
        key_order(a, b) <= 0,
        key_order(b, c) <= 0,
    ensures
        key_order(a, c) <= 0,
{
    lemma_key_order_antisymmetric(a, b);
    lemma_key_order_antisymmetric(b, c);
    lemma_key_order_antisymmetric(a, c);
    if a.size == b.size && b.size == c.size {
        match (a.fingerprint, b.fingerprint, c.fingerprint) {
            (Some(x), Some(y), Some(z)) => {
                lemma_lex_order_antisymmetric(x, y);
                lemma_lex_order_antisymmetric(y, z);
                lemma_lex_order_antisymmetric(x, z);
                if lex_order(x, y) <= 0 && lex_order(y, z) <= 0 {
                    lemma_lex_order_transitive(x, y, z);
                }
            },
            _ => {},
        }
        if fingerprint_order(a.fingerprint, b.fingerprint) == 0 && fingerprint_order(
            b.fingerprint,
            c.fingerprint,
        ) == 0 {
            lemma_lex_order_transitive(a.locator_key, b.locator_key, c.locator_key);
        }
    }
}

/// The canonical order is a total order on key values: every arrival order
/// of the same keys has exactly one sorted arrangement.
pub proof fn lemma_key_leq_total_ordering()
    ensures
        total_ordering(key_leq()),
{
    assert forall|x: KeyView| #[trigger] key_leq()(x, x) by {
        lemma_key_order_antisymmetric(x, x);
    }
    assert forall|x: KeyView, y: KeyView| #[trigger] key_leq()(x, y) && #[trigger] key_leq()(
        y,
        x,
    ) implies x == y by {
        lemma_key_order_antisymmetric(x, y);
    }
    assert forall|x: KeyView, y: KeyView, z: KeyView| #[trigger] key_leq()(x, y)
        && #[trigger] key_leq()(y, z) implies key_leq()(x, z) by {
        lemma_key_order_transitive(x, y, z);
    }
    assert forall|x: KeyView, y: KeyView| #[trigger] key_leq()(x, y) || #[trigger] key_leq()(
        y,
        x,
    ) by {
        lemma_key_order_antisymmetric(x, y);
    }
}

impl GroupOrderKey {
    /// Three-way canonical comparison: size descending, then fingerprint
    /// ascending (present before absent), then locator key ascending.
    pub fn cmp(&self, other: &Self) -> (r: Ordering)
        ensures
            r == ordering_of(key_order(self@, other@)),
    {
        if self.size > other.size {
            return Ordering::Less;
        }
        if self.size < other.size {
            return Ordering::Greater;
        }
        let by_fingerprint = match (self.fingerprint, other.fingerprint) {
            (Some(a), Some(b)) => a.cmp_bytes(&b),
            (Some(_), None) => Ordering::Less,
            (None, Some(_)) => Ordering::Greater,
            (None, None) => Ordering::Equal,
        };
        proof {
            match (self.fingerprint, other.fingerprint) {
                (Some(a), Some(b)) => {
                    lemma_lex_order_antisymmetric(a.bytes@, b.bytes@);
                },
                _ => {},
            }
        }
        match by_fingerprint {
            Ordering::Equal => canonical_cmp(self.locator_key.as_slice(), other.locator_key.as_slice()),
            decided => decided,
        }
    }
}

impl PartialOrd for GroupOrderKey {
    fn partial_cmp(&self, other: &Self) -> (r: Option<Ordering>)
        ensures
            r == Some(ordering_of(key_order(self@, other@))),
    {
        Some(self.cmp(other))
    }
}

impl vstd::std_specs::cmp::PartialOrdSpecImpl for GroupOrderKey {
    open spec fn obeys_partial_cmp_spec() -> bool {
        true
    }

    open spec fn partial_cmp_spec(&self, other: &Self) -> Option<Ordering> {
        Some(ordering_of(key_order(self@, other@)))
    }
}

/// `a` strictly precedes `b` in the canonical order.
fn precedes(a: &GroupOrderKey, b: &GroupOrderKey) -> (r: bool)
    ensures
        r == (key_order(a@, b@) < 0),
{
    match a.cmp(b) {
        Ordering::Less => true,
        _ => false,
    }
}

/// Views of a sequence in non-increasing canonical order.
spec fn sorted_desc(s: Seq<KeyView>) -> bool {
    forall|i: int, j: int| 0 <= i < j < s.len() ==> key_le(#[trigger] s[j], #[trigger] s[i])
}

/// Every view in `s` comes no earlier than `x`.
spec fn all_after(x: KeyView, s: Seq<KeyView>) -> bool {
    forall|i: int| 0 <= i < s.len() ==> key_le(x, #[trigger] s[i])
}

proof fn lemma_views_push(s: Seq<GroupOrderKey>, k: GroupOrderKey)
    ensures
        key_views(s.push(k)) == key_views(s).push(k@),
{
    assert(key_views(s.push(k)) =~= key_views(s).push(k@));
}

proof fn lemma_views_drop_last(s: Seq<GroupOrderKey>)
    requires
        s.len() > 0,
    ensures
        key_views(s.drop_last()) == key_views(s).drop_last(),
        key_views(s).to_multiset() == key_views(s.drop_last()).to_multiset().insert(s.last()@),
{
    let v = key_views(s);
    assert(key_views(s.drop_last()) =~= v.drop_last());
    assert(v =~= v.drop_last().push(v.last()));
    vstd::seq_lib::to_multiset_build(v.drop_last(), v.last());
}

proof fn lemma_views_empty_multiset(s: Seq<GroupOrderKey>)
    requires
        s.len() == 0,
    ensures
        key_views(s).to_multiset() == vstd::multiset::Multiset::<KeyView>::empty(),
{
    broadcast use vstd::seq_lib::group_to_multiset_ensures;

    assert(key_views(s).to_multiset().len() == 0);
    assert(key_views(s).to_multiset() =~= vstd::multiset::Multiset::<KeyView>::empty());
}

/// Reverses a vector by moving its elements.
fn reverse_keys(v: Vec<GroupOrderKey>) -> (r: Vec<GroupOrderKey>)
    ensures
        r@ == v@.reverse(),
{
    let ghost orig = v@;
    let mut v = v;
    let mut r: Vec<GroupOrderKey> = Vec::new();
    while v.len() > 0
        invariant
            v@ == orig.subrange(0, v@.len() as int),
            r@ == orig.subrange(v@.len() as int, orig.len() as int).reverse(),
            v@.len() <= orig.len(),
        decreases v@.len(),
    {
        let x = v.pop().unwrap();
        r.push(x);
        proof {
            let n = v@.len() as int;
            assert(orig.subrange(n, orig.len() as int).reverse() =~= orig.subrange(
                n + 1,
                orig.len() as int,
            ).reverse().push(orig[n]));
        }
    }
    assert(orig.subrange(0, orig.len() as int) =~= orig);
    r
}

/// Appending a key that comes no earlier than the last one keeps a sorted
/// sequence sorted.
proof fn lemma_sorted_push(s: Seq<KeyView>, x: KeyView)
    requires
        sorted_by(s, key_leq()),
        s.len() > 0 ==> key_le(s.last(), x),
    ensures
        sorted_by(s.push(x), key_leq()),
{
    let t = s.push(x);
    assert forall|i: int, j: int| 0 <= i < j < t.len() implies #[trigger] key_leq()(t[i], t[j]) by {
        if j == s.len() {
            if i < s.len() - 1 {
                assert(key_leq()(s[i], s[s.len() - 1]));
                lemma_key_order_transitive(s[i], s.last(), x);
            }
        } else {
            assert(key_leq()(s[i], s[j]));
        }
    }
}

/// Moving the smallest remaining key `x` (the last of the descending `src`)
/// to the output keeps every merge invariant.
proof fn lemma_merge_step(vo: Seq<KeyView>, src: Seq<KeyView>, other: Seq<KeyView>)
    requires
        src.len() > 0,
        sorted_desc(src),
        sorted_desc(other),
        sorted_by(vo, key_leq()),
        vo.len() > 0 ==> all_after(vo.last(), src),
        other.len() > 0 ==> key_le(src.last(), other.last()),
    ensures
        sorted_by(vo.push(src.last()), key_leq()),
        all_after(src.last(), src.drop_last()),
        all_after(src.last(), other),
        src.to_multiset() == src.drop_last().to_multiset().insert(src.last()),
        vo.push(src.last()).to_multiset() == vo.to_multiset().insert(src.last()),
{
    let x = src.last();
    if vo.len() > 0 {
        assert(key_le(vo.last(), src[src.len() - 1]));
    }
    lemma_sorted_push(vo, x);
    assert forall|i: int| 0 <= i < src.drop_last().len() implies key_le(
        x,
        #[trigger] src.drop_last()[i],
    ) by {
        assert(key_le(src[src.len() - 1], src[i]));
    }
    assert forall|i: int| 0 <= i < other.len() implies key_le(x, #[trigger] other[i]) by {
        if i < other.len() - 1 {
            assert(key_le(other[other.len() - 1], other[i]));
            lemma_key_order_transitive(x, other.last(), other[i]);
        }
    }
    assert(src =~= src.drop_last().push(x));
    vstd::seq_lib::to_multiset_build(src.drop_last(), x);
    vstd::seq_lib::to_multiset_build(vo, x);
}

/// Merges two canonically sorted vectors into one, taking from `a` on ties.
fn merge_sorted(a: Vec<GroupOrderKey>, b: Vec<GroupOrderKey>) -> (r: Vec<GroupOrderKey>)
    requires
        sorted_by(key_views(a@), key_leq()),
        sorted_by(key_views(b@), key_leq()),
    ensures
        sorted_by(key_views(r@), key_leq()),
        key_views(r@).to_multiset() == key_views(a@).to_multiset().add(key_views(b@).to_multiset()),
{
    broadcast use vstd::multiset::group_multiset_axioms;

    let ghost total = key_views(a@).to_multiset().add(key_views(b@).to_multiset());
    let mut ra = reverse_keys(a);
    let mut rb = reverse_keys(b);
    proof {
        assert(key_views(ra@) =~= key_views(a@).reverse());
        assert(key_views(rb@) =~= key_views(b@).reverse());
        key_views(a@).lemma_reverse_to_multiset();
        key_views(b@).lemma_reverse_to_multiset();
        let va = key_views(ra@);
        let vb = key_views(rb@);
        let n = a@.len() as int;
        let m = b@.len() as int;
        assert forall|i: int, j: int| 0 <= i < j < va.len() implies key_le(
            #[trigger] va[j],
            #[trigger] va[i],
        ) by {
            assert(key_leq()(key_views(a@)[n - 1 - j], key_views(a@)[n - 1 - i]));
        }
        assert forall|i: int, j: int| 0 <= i < j < vb.len() implies key_le(
            #[trigger] vb[j],
            #[trigger] vb[i],
        ) by {
            assert(key_leq()(key_views(b@)[m - 1 - j], key_views(b@)[m - 1 - i]));
        }
        lemma_views_empty_multiset(Seq::empty());
    }
    let mut out: Vec<GroupOrderKey> = Vec::new();
    while ra.len() > 0 || rb.len() > 0
        invariant
            sorted_desc(key_views(ra@)),
            sorted_desc(key_views(rb@)),
            sorted_by(key_views(out@), key_leq()),
            out@.len() > 0 ==> all_after(key_views(out@).last(), key_views(ra@)),
            out@.len() > 0 ==> all_after(key_views(out@).last(), key_views(rb@)),
            key_views(out@).to_multiset().add(key_views(ra@).to_multiset()).add(
                key_views(rb@).to_multiset(),
            ) == total,
        decreases ra@.len() + rb@.len(),
    {
        let ghost va = key_views(ra@);
        let ghost vb = key_views(rb@);
        let ghost vo = key_views(out@);
        let ghost pa = ra@;
        let ghost pb = rb@;
        let ghost po = out@;
        let take_b = if ra.len() == 0 {
            true
        } else if rb.len() == 0 {
            false
        } else {
            precedes(&rb[rb.len() - 1], &ra[ra.len() - 1])
        };
        if take_b {
            let x = rb.pop().unwrap();
            out.push(x);
            proof {
                if va.len() > 0 {
                    lemma_key_order_antisymmetric(vb.last(), va.last());
                }
                lemma_merge_step(vo, vb, va);
                lemma_views_drop_last(pb);
                lemma_views_push(po, x);
                if out@.len() > 0 {
                    assert(key_views(out@).last() == vb.last());
                }
            }
        } else {
            let x = ra.pop().unwrap();
            out.push(x);
            proof {
                if vb.len() > 0 {
                    lemma_key_order_antisymmetric(vb.last(), va.last());
                }
                lemma_merge_step(vo, va, vb);
                lemma_views_drop_last(pa);
                lemma_views_push(po, x);
                assert(key_views(out@).last() == va.last());
            }
        }
    }
    proof {
        lemma_views_empty_multiset(ra@);
        lemma_views_empty_multiset(rb@);
        assert(key_views(out@).to_multiset().add(vstd::multiset::Multiset::empty()).add(
            vstd::multiset::Multiset::empty(),
        ) =~= key_views(out@).to_multiset());
    }
    out
}

/// Sorts by the canonical order: splits in halves, sorts each, merges.
fn merge_sort_keys(v: Vec<GroupOrderKey>) -> (r: Vec<GroupOrderKey>)
    ensures
        sorted_by(key_views(r@), key_leq()),
        key_views(r@).to_multiset() == key_views(v@).to_multiset(),
    decreases v@.len(),
{
    if v.len() <= 1 {
        return v;
    }
    let mut left = v;
    let ghost whole = left@;
    let mid = left.len() / 2;
    let right = left.split_off(mid);
    proof {
        assert(whole =~= left@ + right@);
        assert(key_views(whole) =~= key_views(left@) + key_views(right@));
        vstd::seq_lib::lemma_multiset_commutative(key_views(left@), key_views(right@));
    }
    let sorted_left = merge_sort_keys(left);
    let sorted_right = merge_sort_keys(right);
    merge_sorted(sorted_left, sorted_right)
}

/// Sort keys into the canonical order.
///
/// The result is the one arrangement of the same keys that is sorted by the
/// canonical order, so it never depends on the order in which the keys
/// arrived.
pub fn sort_canonical(keys: &mut [GroupOrderKey])
    ensures
        key_views(final(keys)@) == key_views(old(keys)@).sort_by(key_leq()),
{
    let ghost incoming = keys@;
    let n = keys.len();
    let mut taken: Vec<GroupOrderKey> = Vec::with_capacity(n);
    let mut i: usize = 0;
    while i < n
        invariant
            n == keys@.len(),
            n == incoming.len(),
            i <= n,
            taken@ == incoming.subrange(0, i as int),
            keys@.subrange(i as int, n as int) == incoming.subrange(i as int, n as int),
        decreases n - i,
    {
        let mut slot = GroupOrderKey { size: 0, fingerprint: None, locator_key: Vec::new() };
        let ghost before = keys@;
        let ghost blank = slot;
        std::mem::swap(&mut slot, &mut keys[i]);
        proof {
            assert(keys@ == before.update(i as int, blank));
            assert(before[i as int] == incoming.subrange(i as int, n as int)[0]);
        }
        taken.push(slot);
        i += 1;
        proof {
            assert(taken@ =~= incoming.subrange(0, i as int));
            assert forall|k: int| i <= k < n implies keys@[k] == incoming[k] by {
                assert(before.subrange(i - 1, n as int)[k - (i - 1)] == incoming.subrange(
                    i - 1,
                    n as int,
                )[k - (i - 1)]);
            }
            assert(keys@.subrange(i as int, n as int) =~= incoming.subrange(i as int, n as int));
        }
    }
    proof {
        assert(taken@ =~= incoming);
    }
    let mut sorted = merge_sort_keys(taken);
    let ghost result = sorted@;
    proof {
        key_views(incoming).to_multiset_ensures();
        key_views(result).to_multiset_ensures();
        assert(result.len() == n);
    }
    let mut j: usize = n;
    while j > 0
        invariant
            j <= n,
            n == keys@.len(),
            n == result.len(),
            sorted@ == result.subrange(0, j as int),
            keys@.subrange(j as int, n as int) == result.subrange(j as int, n as int),
        decreases j,
    {
        let k = sorted.pop().unwrap();
        j -= 1;
        let ghost before = keys@;
        keys[j] = k;
        proof {
            assert(keys@ == before.update(j as int, k));
            assert(sorted@ =~= result.subrange(0, j as int));
            assert forall|m: int| j < m < n implies keys@[m] == result[m] by {
                assert(before.subrange(j + 1, n as int)[m - (j + 1)] == result.subrange(
                    j + 1,
                    n as int,
                )[m - (j + 1)]);
            }
            assert(keys@.subrange(j as int, n as int) =~= result.subrange(j as int, n as int));
        }
    }
    proof {
        assert(keys@ =~= keys@.subrange(0, n as int));
        assert(result =~= result.subrange(0, n as int));
        lemma_key_leq_total_ordering();
        key_views(incoming).lemma_sort_by_ensures(key_leq());
        vstd::seq_lib::lemma_sorted_unique(
            key_views(result),
            key_views(incoming).sort_by(key_leq()),
            key_leq(),
        );
    }
}

/// Sorting is independent of arrival order: two inputs holding the same keys,
/// in any order, sort to the same sequence of keys.
pub proof fn lemma_sort_canonical_ignores_arrival_order(a: Seq<KeyView>, b: Seq<KeyView>)
    requires
        a.to_multiset() == b.to_multiset(),
    ensures
        a.sort_by(key_leq()) == b.sort_by(key_leq()),
{
    lemma_key_leq_total_ordering();
    a.lemma_sort_by_ensures(key_leq());
    b.lemma_sort_by_ensures(key_leq());
    vstd::seq_lib::lemma_sorted_unique(a.sort_by(key_leq()), b.sort_by(key_leq()), key_leq());
}

} // verus!
