use orange_downloader::model::FragmentState;
use orange_downloader::store::{int_to_state, state_to_int, FragmentStore};

fn seeded_store() -> (FragmentStore, u64) {
    let mut store = FragmentStore::new();
    let rec = store
        .upsert_item("http://host/f.bin", "/out/f.bin", "/out/f.bin.partial", 4, Some(10), true, 100)
        .unwrap();
    (store, rec.item_db_id)
}

#[test]
fn state_encoding_round_trips() {
    for s in [
        FragmentState::Missing,
        FragmentState::Downloading,
        FragmentState::Done,
        FragmentState::Bad,
    ] {
        assert_eq!(int_to_state(state_to_int(s)), s);
    }
    assert_eq!(state_to_int(FragmentState::Missing), 0);
    assert_eq!(state_to_int(FragmentState::Downloading), 1);
    assert_eq!(state_to_int(FragmentState::Done), 2);
    assert_eq!(state_to_int(FragmentState::Bad), 3);
    assert_eq!(int_to_state(7), FragmentState::Missing);
}

#[test]
fn upsert_inserts_then_finds() {
    let (store, id) = seeded_store();
    let rec = store.get_item("http://host/f.bin", "/out/f.bin").unwrap();
    assert_eq!(rec.item_db_id, id);
    assert_eq!(rec.downloaded_bytes, 0);
    assert_eq!(rec.total_size, Some(10));
    assert!(store.get_item("http://host/f.bin", "/elsewhere").is_none());
    assert_eq!(
        store.read_partial_path("http://host/f.bin", "/out/f.bin").unwrap(),
        "/out/f.bin.partial"
    );
}

#[test]
fn upsert_is_keyed_and_coalesces_total() {
    let (mut store, id) = seeded_store();
    // Same key: the row is updated, not duplicated, and a `None` total
    // keeps the stored one (first known value wins).
    let rec = store
        .upsert_item("http://host/f.bin", "/out/f.bin", "/out/f.bin.partial", 8, None, false, 200)
        .unwrap();
    assert_eq!(rec.item_db_id, id);
    assert_eq!(rec.total_size, Some(10));
    // A different key makes a fresh row.
    let other = store
        .upsert_item("http://host/g.bin", "/out/g.bin", "/out/g.bin.partial", 8, None, true, 200)
        .unwrap();
    assert_ne!(other.item_db_id, id);
    assert_eq!(other.total_size, None);
}

#[test]
fn ensure_fragments_is_idempotent() {
    let (mut store, id) = seeded_store();
    let ranges = vec![(0u64, 4u64), (4, 4), (8, 2)];
    assert!(store.ensure_fragments_for_ranges(id, &ranges, 100));
    let first = store.load_fragments(id);
    assert_eq!(first.len(), 3);

    // The second call is a no-op: same rows, same identifiers.
    assert!(!store.ensure_fragments_for_ranges(id, &ranges, 200));
    let second = store.load_fragments(id);
    assert_eq!(first, second);

    // Even different ranges cannot disturb existing records.
    assert!(!store.ensure_fragments_for_ranges(id, &vec![(0, 10)], 300));
    assert_eq!(store.load_fragments(id), first);
}

#[test]
fn load_and_restore_round_trip_is_stable() {
    let (mut store, id) = seeded_store();
    store.ensure_fragments_for_ranges(id, &vec![(0u64, 4u64), (4, 4), (8, 2)], 100);
    let loaded = store.load_fragments(id);
    let ranges: Vec<(u64, u64)> = loaded.iter().map(|f| (f.offset, f.len)).collect();
    store.ensure_fragments_for_ranges(id, &ranges, 400);
    assert_eq!(store.load_fragments(id), loaded);
}

#[test]
fn load_orders_by_offset() {
    let (mut store, id) = seeded_store();
    store.ensure_fragments_for_ranges(id, &vec![(8u64, 2u64), (0, 4), (4, 4)], 100);
    let frags = store.load_fragments(id);
    let offsets: Vec<u64> = frags.iter().map(|f| f.offset).collect();
    assert_eq!(offsets, vec![0, 4, 8]);
}

#[test]
fn mark_done_adds_bytes_and_sets_state() {
    let (mut store, id) = seeded_store();
    store.ensure_fragments_for_ranges(id, &vec![(0u64, 4u64), (4, 6)], 100);
    let frags = store.load_fragments(id);
    store.mark_fragment_done_and_add_bytes(frags[0].frag_db_id, id, 4, 150);
    let rec = store.get_item("http://host/f.bin", "/out/f.bin").unwrap();
    assert_eq!(rec.downloaded_bytes, 4);
    let frags = store.load_fragments(id);
    assert_eq!(frags[0].state, FragmentState::Done);
    assert_eq!(frags[1].state, FragmentState::Missing);

    store.mark_fragment_done_and_add_bytes(frags[1].frag_db_id, id, 6, 160);
    let rec = store.get_item("http://host/f.bin", "/out/f.bin").unwrap();
    assert_eq!(rec.downloaded_bytes, 10);
}

#[test]
fn set_fragment_state_tracks_transitions() {
    let (mut store, id) = seeded_store();
    store.ensure_fragments_for_ranges(id, &vec![(0u64, 4u64)], 100);
    let frag = store.load_fragments(id)[0];
    store.set_fragment_state(frag.frag_db_id, FragmentState::Downloading, 110);
    assert_eq!(store.load_fragments(id)[0].state, FragmentState::Downloading);
    store.set_fragment_state(frag.frag_db_id, FragmentState::Bad, 120);
    assert_eq!(store.load_fragments(id)[0].state, FragmentState::Bad);
}

#[test]
fn delete_fragments_resets_one_item_only() {
    let (mut store, id) = seeded_store();
    let other = store
        .upsert_item("http://host/g.bin", "/out/g.bin", "/out/g.bin.partial", 4, Some(4), true, 100)
        .unwrap()
        .item_db_id;
    store.ensure_fragments_for_ranges(id, &vec![(0u64, 4u64), (4, 6)], 100);
    store.ensure_fragments_for_ranges(other, &vec![(0u64, 4u64)], 100);
    store.delete_fragments(id);
    assert_eq!(store.load_fragments(id).len(), 0);
    assert_eq!(store.load_fragments(other).len(), 1);
    // A structural reset allows replanning.
    assert!(store.ensure_fragments_for_ranges(id, &vec![(0u64, 10u64)], 200));
    assert_eq!(store.load_fragments(id).len(), 1);
}

#[test]
fn upsert_fails_only_when_identifiers_run_out() {
    let mut store = FragmentStore {
        items: Vec::new(),
        fragments: Vec::new(),
        next_item_id: u64::MAX,
        next_frag_id: 1,
    };
    assert!(store
        .upsert_item("http://h/f", "/o/f", "/o/f.partial", 4, None, false, 1)
        .is_none());
    // An existing row is still updatable even then.
    let (mut store, id) = seeded_store();
    store.next_item_id = u64::MAX;
    let rec = store
        .upsert_item("http://host/f.bin", "/out/f.bin", "/out/f.bin.partial", 4, None, true, 2)
        .unwrap();
    assert_eq!(rec.item_db_id, id);
}

#[test]
fn set_item_supports_ranges_updates_flag_only() {
    let (mut store, id) = seeded_store();
    store.set_item_supports_ranges(id, false, 500);
    let rec = store.get_item("http://host/f.bin", "/out/f.bin").unwrap();
    assert_eq!(rec.item_db_id, id);
    assert_eq!(rec.total_size, Some(10));
}
