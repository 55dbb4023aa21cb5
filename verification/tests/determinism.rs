use std::cmp::Ordering;
use xlindisk::determinism::{canonical_cmp, sort_canonical, GroupOrderKey};
use xlindisk::model::fingerprint::Fingerprint;

fn key(size: u64, fp: Option<u8>, locator: &[u8]) -> GroupOrderKey {
    GroupOrderKey {
        size,
        fingerprint: fp.map(|b| Fingerprint { bytes: [b; 32] }),
        locator_key: locator.to_vec(),
    }
}

#[test]
fn larger_groups_come_first() {
    let mut keys = vec![key(10, None, b"a"), key(100, None, b"b")];
    sort_canonical(&mut keys);
    assert_eq!(keys[0].size, 100);
}

#[test]
fn ties_break_on_fingerprint_then_locator() {
    let mut keys = vec![
        key(10, Some(2), b"a"),
        key(10, Some(1), b"z"),
        key(10, Some(1), b"a"),
    ];
    sort_canonical(&mut keys);
    assert_eq!(keys[0].fingerprint.unwrap().bytes[0], 1);
    assert_eq!(keys[0].locator_key, b"a".to_vec());
    assert_eq!(keys[1].locator_key, b"z".to_vec());
}

#[test]
#[allow(clippy::needless_range_loop)]
fn order_is_independent_of_arrival_order() {
    // The same three groups discovered by 1, 2 or 8 workers, i.e. in any
    // arrival order, must normalize to the same sequence.
    let expected = {
        let mut k = vec![
            key(5, Some(9), b"b"),
            key(5, Some(1), b"a"),
            key(7, None, b"c"),
        ];
        sort_canonical(&mut k);
        k
    };
    for permutation in [
        [0usize, 1, 2],
        [1, 0, 2],
        [2, 1, 0],
        [2, 0, 1],
        [1, 2, 0],
        [0, 2, 1],
    ] {
        let all = vec![
            key(5, Some(9), b"b"),
            key(5, Some(1), b"a"),
            key(7, None, b"c"),
        ];
        let mut shuffled = vec![
            all[permutation[0]].clone(),
            all[permutation[1]].clone(),
            all[permutation[2]].clone(),
        ];
        sort_canonical(&mut shuffled);
        assert_eq!(shuffled, expected, "permutation {permutation:?}");
    }
}

#[test]
fn canonical_cmp_is_byte_level() {
    assert_eq!(canonical_cmp(b"Z", b"a"), Ordering::Less); // 0x5A < 0x61
}

#[test]
fn canonical_cmp_orders_prefixes_first() {
    assert_eq!(canonical_cmp(b"ab", b"abc"), Ordering::Less);
    assert_eq!(canonical_cmp(b"abc", b"ab"), Ordering::Greater);
    assert_eq!(canonical_cmp(b"abc", b"abc"), Ordering::Equal);
    assert_eq!(canonical_cmp(b"", b""), Ordering::Equal);
    assert_eq!(canonical_cmp(b"b", b"abc"), Ordering::Greater);
}

#[test]
fn present_fingerprint_sorts_before_absent() {
    let mut keys = vec![key(10, None, b"a"), key(10, Some(200), b"z")];
    sort_canonical(&mut keys);
    assert_eq!(keys[0].fingerprint.unwrap().bytes[0], 200);
    assert_eq!(keys[1].fingerprint, None);
}

#[test]
fn group_key_comparison_matches_sorting() {
    let a = key(10, Some(1), b"a");
    let b = key(10, Some(1), b"b");
    let c = key(20, None, b"a");
    assert_eq!(a.cmp(&b), Ordering::Less);
    assert_eq!(b.cmp(&a), Ordering::Greater);
    assert_eq!(a.cmp(&a.clone()), Ordering::Equal);
    assert_eq!(c.cmp(&a), Ordering::Less);
    assert!(c < a);
    assert_eq!(a.partial_cmp(&b), Some(Ordering::Less));
}

#[test]
fn sorting_handles_empty_and_many_keys() {
    let mut empty: Vec<GroupOrderKey> = Vec::new();
    sort_canonical(&mut empty);
    assert!(empty.is_empty());

    let mut keys: Vec<GroupOrderKey> = (0..50u64)
        .map(|i| key(i % 7, Some((i % 3) as u8), &[(50 - i) as u8]))
        .collect();
    sort_canonical(&mut keys);
    assert_eq!(keys.len(), 50);
    for pair in keys.windows(2) {
        assert_ne!(pair[0].cmp(&pair[1]), Ordering::Greater);
    }
    assert_eq!(keys[0].size, 6);
}
