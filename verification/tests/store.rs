use xlindisk::model::entry::{Entry, EntryFlags, EntryKind, SpecialSubtype};
use xlindisk::model::ids::{EntryId, LocatorId, ObjectId, ScanId, SessionId, SourceId, VolumeId};
use xlindisk::model::observation::{Observation, Timestamp};
use xlindisk::model::store::{EntryStore, Session};

fn object_id(value: u128) -> ObjectId {
    ObjectId::new(SourceId(1), VolumeId(1), value)
}

fn entry(parent: Option<EntryId>, object: Option<u128>, kind: EntryKind) -> Entry {
    Entry {
        id: EntryId::invalid(),
        source: SourceId(1),
        locator: LocatorId(0),
        object: object.map(object_id),
        parent,
        kind,
        flags: EntryFlags::empty(),
        logical_size: Some(10),
        modified: None,
    }
}

#[test]
fn ids_are_dense_and_positional() {
    let mut store = EntryStore::new();
    let a = store.push(entry(None, None, EntryKind::Directory));
    let b = store.push(entry(Some(a), None, EntryKind::File));
    assert_eq!(a, EntryId(0));
    assert_eq!(b, EntryId(1));
    assert_eq!(store.len(), 2);
}

#[test]
fn add_builds_a_complete_entry() {
    let mut store = EntryStore::new();
    let id = store.add(
        SourceId(1),
        LocatorId(5),
        EntryKind::File,
        EntryFlags::empty(),
        None,
        Some(42),
        Some(Timestamp::new(1_700_000_000, 0)),
        Some(object_id(7)),
    );
    let stored = store.get(id).unwrap();
    assert_eq!(stored.locator, LocatorId(5));
    assert_eq!(stored.object, Some(object_id(7)));
    assert_eq!(stored.logical_size, Some(42));
}

#[test]
fn hierarchy_is_only_built_when_asked_for() {
    let mut store = EntryStore::new();
    let root = store.push(entry(None, None, EntryKind::Directory));
    store.push(entry(Some(root), None, EntryKind::File));
    assert!(!store.is_materialized());
    assert_eq!(store.children(root).count(), 0, "no links yet");
    store.materialize_hierarchy();
    assert!(store.is_materialized());
    assert_eq!(store.children(root).count(), 1);
}

#[test]
fn hardlinks_are_one_object_not_many_copies() {
    let mut store = EntryStore::new();
    let a = store.push(entry(None, Some(7), EntryKind::File));
    let b = store.push(entry(None, Some(7), EntryKind::File));
    let c = store.push(entry(None, Some(8), EntryKind::File));
    let groups = store.hardlink_groups(&[a, b, c]);
    assert_eq!(groups.len(), 1);
    assert_eq!(groups[0], vec![a, b]);
}

#[test]
fn hardlink_grouping_is_scoped_to_candidates() {
    let mut store = EntryStore::new();
    let a = store.push(entry(None, Some(7), EntryKind::File));
    let b = store.push(entry(None, Some(7), EntryKind::File));
    // Only entries the caller asks about are grouped: no global map.
    assert!(store.hardlink_groups(&[a]).is_empty());
    assert!(store.hardlink_groups(&[a, b]).len() == 1);
}

#[test]
fn observations_are_recorded_per_candidate() {
    let mut store = EntryStore::new();
    let id = store.push(entry(None, None, EntryKind::File));
    assert!(store.observation(id).is_none());
    let observation = Observation {
        source: SourceId(1),
        locator: LocatorId(0),
        object: Some(object_id(3)),
        logical_size: Some(10),
        modified: Some(Timestamp::new(1_700_000_000, 0)),
        revision: None,
    };
    store.record_observation(id, observation);
    assert_eq!(store.observation(id), Some(&observation));
}

#[test]
fn changed_entries_drop_out_of_the_duplicate_pipeline() {
    let mut store = EntryStore::new();
    let id = store.push(entry(None, None, EntryKind::File));
    assert_eq!(store.duplicate_candidates().len(), 1);
    assert!(store.mark_changed_during_scan(id));
    assert_eq!(store.duplicate_candidates().len(), 0);
}

#[test]
fn directories_and_unreadable_files_are_not_candidates() {
    let mut store = EntryStore::new();
    store.push(entry(None, None, EntryKind::Directory));
    let mut unreadable = entry(None, None, EntryKind::File);
    unreadable.flags.insert(EntryFlags::unreadable());
    store.push(unreadable);
    assert_eq!(store.duplicate_candidates().len(), 0);
}

#[test]
fn entry_stays_small_enough_for_tens_of_millions() {
    // Guard rail from the memory principle: at 10M entries every byte costs
    // 10 MB, so a regression fails the build instead of showing up as an OOM
    // on somebody's disk.
    const BUDGET: usize = 128;
    assert!(
        std::mem::size_of::<Entry>() <= BUDGET,
        "Entry grew to {} bytes, budget is {}",
        std::mem::size_of::<Entry>(),
        BUDGET
    );
}

#[test]
fn session_issues_scan_ids() {
    let mut session = Session::new(SessionId(1), SourceId(1));
    assert_eq!(session.next_scan_id(), ScanId(1));
    assert_eq!(session.next_scan_id(), ScanId(2));
}

fn child_locators(store: &EntryStore, parent: EntryId) -> Vec<u64> {
    let mut out = Vec::new();
    let mut it = store.children(parent);
    while let Some(e) = it.next() {
        out.push(e.locator.0);
    }
    out
}

fn located(parent: Option<EntryId>, locator: u64) -> Entry {
    let mut e = entry(parent, None, EntryKind::File);
    e.locator = LocatorId(locator);
    e
}

#[test]
fn children_come_in_insertion_order() {
    let mut store = EntryStore::new();
    let root = store.push(located(None, 100));
    let other = store.push(located(None, 200));
    store.push(located(Some(root), 1));
    store.push(located(Some(other), 2));
    store.push(located(Some(root), 3));
    // A parent that is not stored yet when the hierarchy is built.
    store.push(located(Some(EntryId(50)), 4));
    store.materialize_hierarchy();
    assert_eq!(child_locators(&store, root), vec![1, 3]);
    assert_eq!(child_locators(&store, other), vec![2]);
    assert_eq!(child_locators(&store, EntryId(50)), Vec::<u64>::new());
    // Entries pushed after materialization are appended to their parent.
    store.push(located(Some(root), 5));
    store.push(located(Some(other), 6));
    assert_eq!(child_locators(&store, root), vec![1, 3, 5]);
    assert_eq!(child_locators(&store, other), vec![2, 6]);
    // Materializing twice changes nothing.
    store.materialize_hierarchy();
    assert_eq!(store.children(root).count(), 3);
}

#[test]
fn forward_parents_link_only_when_stored_at_materialization() {
    let mut early = EntryStore::new();
    early.push(located(Some(EntryId(1)), 1));
    early.push(located(None, 2));
    early.materialize_hierarchy();
    assert_eq!(child_locators(&early, EntryId(1)), vec![1]);

    let mut late = EntryStore::new();
    late.materialize_hierarchy();
    late.push(located(Some(EntryId(1)), 1));
    late.push(located(None, 2));
    assert_eq!(child_locators(&late, EntryId(1)), Vec::<u64>::new());
}

#[test]
fn hardlink_groups_skip_unknown_and_keep_first_appearance_order() {
    let mut store = EntryStore::with_capacity(8);
    let a = store.push(entry(None, Some(8), EntryKind::File));
    let b = store.push(entry(None, Some(7), EntryKind::File));
    let c = store.push(entry(None, None, EntryKind::File));
    let d = store.push(entry(None, Some(8), EntryKind::File));
    let e = store.push(entry(None, Some(7), EntryKind::File));
    let f = store.push(entry(None, Some(7), EntryKind::File));
    let missing = EntryId(99);
    let groups = store.hardlink_groups(&[b, missing, a, c, d, e, c, f]);
    assert_eq!(groups, vec![vec![b, e, f], vec![a, d]]);
    assert!(store.hardlink_groups(&[]).is_empty());
    assert!(store.hardlink_groups(&[c, c]).is_empty());
    // The same entry listed twice shares its own object.
    assert_eq!(store.hardlink_groups(&[a, a]), vec![vec![a, a]]);
}

#[test]
fn get_mut_edits_one_entry_and_missing_ids_are_none() {
    let mut store = EntryStore::default();
    assert!(store.is_empty());
    let id = store.push(entry(None, None, EntryKind::File));
    store.get_mut(id).unwrap().logical_size = Some(77);
    assert_eq!(store.get(id).unwrap().logical_size, Some(77));
    assert!(store.get(EntryId(1)).is_none());
    assert!(store.get_mut(EntryId(1)).is_none());
    assert!(!store.mark_changed_during_scan(EntryId(1)));
    assert_eq!(store.iter().count(), 1);
}

#[test]
fn marking_keeps_other_flags() {
    let mut store = EntryStore::new();
    let mut e = entry(None, None, EntryKind::File);
    e.flags.insert(EntryFlags::sparse());
    let id = store.push(e);
    assert!(store.mark_changed_during_scan(id));
    let flags = store.get(id).unwrap().flags;
    assert!(flags.contains(EntryFlags::sparse()));
    assert!(flags.contains(EntryFlags::changed_during_scan()));
    assert_eq!(flags.bits(), 0x20 | 0x80);
}

#[test]
fn observations_are_overwritten_per_id() {
    let mut store = EntryStore::new();
    let first = Observation {
        source: SourceId(1),
        locator: LocatorId(0),
        object: None,
        logical_size: Some(1),
        modified: None,
        revision: None,
    };
    let second = Observation {
        logical_size: Some(2),
        ..first
    };
    store.record_observation(EntryId(0), first);
    store.record_observation(EntryId(1), first);
    store.record_observation(EntryId(0), second);
    assert_eq!(store.observation(EntryId(0)), Some(&second));
    assert_eq!(store.observation(EntryId(1)), Some(&first));
    assert_eq!(store.observation(EntryId(2)), None);
}

#[test]
fn special_subtypes_follow_flag_priority() {
    let mut e = entry(None, None, EntryKind::Special);
    assert_eq!(e.special_subtype(), Some(SpecialSubtype::Unknown));
    e.flags.insert(EntryFlags::char_device());
    assert_eq!(e.special_subtype(), Some(SpecialSubtype::CharDevice));
    e.flags.insert(EntryFlags::fifo());
    assert_eq!(e.special_subtype(), Some(SpecialSubtype::Fifo));
    e.flags.insert(EntryFlags::socket());
    assert_eq!(e.special_subtype(), Some(SpecialSubtype::Socket));
    let mut block = entry(None, None, EntryKind::Special);
    block.flags = EntryFlags::block_device().union(EntryFlags::char_device());
    assert_eq!(block.special_subtype(), Some(SpecialSubtype::BlockDevice));
    let mut file = entry(None, None, EntryKind::File);
    file.flags.insert(EntryFlags::socket());
    assert_eq!(file.special_subtype(), None);
    assert!(file.is_duplicate_candidate());
}

#[test]
fn flag_bits_are_single_and_distinct() {
    let all = [
        EntryFlags::hardlinked(),
        EntryFlags::link(),
        EntryFlags::target_unavailable(),
        EntryFlags::mount_boundary(),
        EntryFlags::reparse_point(),
        EntryFlags::sparse(),
        EntryFlags::unreadable(),
        EntryFlags::changed_during_scan(),
        EntryFlags::object_id_unknown(),
        EntryFlags::socket(),
        EntryFlags::fifo(),
        EntryFlags::block_device(),
        EntryFlags::char_device(),
    ];
    for (i, flag) in all.iter().enumerate() {
        assert_eq!(flag.bits(), 1u32 << i);
    }
    assert!(EntryFlags::empty().is_empty());
    assert!(EntryFlags::from_bits_retain(0x41).contains(EntryFlags::unreadable()));
    assert!(EntryFlags::empty().contains(EntryFlags::empty()));
    assert_eq!(EntryId::invalid(), EntryId(u32::MAX));
    assert_eq!(LocatorId::invalid(), LocatorId(u64::MAX));
    assert_eq!(VolumeId::unknown(), VolumeId(0));
}

#[test]
fn a_cloned_store_keeps_entries_and_links() {
    let mut store = EntryStore::new();
    let root = store.push(located(None, 10));
    store.push(located(Some(root), 11));
    store.materialize_hierarchy();
    let copy = store.clone();
    store.push(located(Some(root), 12));
    assert_eq!(copy.len(), 2);
    assert!(copy.is_materialized());
    assert_eq!(child_locators(&copy, root), vec![11]);
    assert_eq!(child_locators(&store, root), vec![11, 12]);
}

#[test]
fn an_entry_that_names_itself_as_parent_lists_itself() {
    let mut store = EntryStore::new();
    store.materialize_hierarchy();
    let id = store.push(located(Some(EntryId(0)), 7));
    assert_eq!(id, EntryId(0));
    assert_eq!(child_locators(&store, id), vec![7]);
}
