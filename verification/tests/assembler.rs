use orange_downloader::assembler::Assembler;
use orange_downloader::engine::{all_fragments_done, pending_indices};
use orange_downloader::planner::plan_ranges;
use orange_downloader::store::FragmentStore;

fn body(offset: u64, len: u64) -> Vec<u8> {
    (0..len).map(|i| ((offset + i) % 251) as u8).collect()
}

#[test]
fn create_presizes_with_zero_bytes() {
    let staging = Assembler::create(Some(10));
    assert_eq!(staging.into_bytes(), vec![0u8; 10]);
    let staging = Assembler::create(None);
    assert_eq!(staging.into_bytes(), Vec::<u8>::new());
}

#[test]
fn out_of_order_writes_assemble_in_offset_order() {
    // Fragments finish in any order; the assembled bytes are their
    // bodies concatenated by offset.
    let total = 10u64;
    let chunk = 4u64;
    let plan = plan_ranges(total, chunk);
    let mut expected: Vec<u8> = Vec::new();
    for f in &plan {
        if let orange_downloader::model::FragmentKey::Range { offset, len } = f.key {
            expected.extend(body(offset, len));
        }
    }

    for order in [[2usize, 0, 1], [0, 1, 2], [1, 2, 0]] {
        let mut staging = Assembler::create(Some(total));
        for &i in &order {
            if let orange_downloader::model::FragmentKey::Range { offset, len } = plan[i].key {
                staging.write_at(offset as usize, &body(offset, len));
            }
        }
        let bytes = staging.into_bytes();
        assert_eq!(bytes.len() as u64, total);
        assert_eq!(bytes, expected);
    }
}

#[test]
fn writes_past_the_end_grow_the_buffer() {
    let mut staging = Assembler::create(None);
    staging.write_at(4, &vec![7, 8]);
    assert_eq!(staging.into_bytes(), vec![0, 0, 0, 0, 7, 8]);
    let mut staging = Assembler::create(Some(3));
    staging.write_at(1, &vec![9]);
    assert!(staging.flush());
    assert_eq!(staging.into_bytes(), vec![0, 9, 0]);
}

#[test]
fn interrupted_run_resumes_to_identical_bytes() {
    // Crash after two of three fragments: the restart reuses the stored
    // item, replans nothing, fetches exactly the missing fragment, and
    // the assembled file equals the uninterrupted output byte for byte.
    let total = 10u64;
    let chunk = 4u64;
    let ranges = vec![(0u64, 4u64), (4, 4), (8, 2)];

    // The uninterrupted run.
    let mut straight = Assembler::create(Some(total));
    for &(o, l) in &ranges {
        straight.write_at(o as usize, &body(o, l));
    }
    let reference = straight.into_bytes();

    // First run: two fragments land, then the process dies.
    let mut store = FragmentStore::new();
    let rec = store
        .upsert_item("http://h/f", "/o/f", "/o/f.partial", chunk, Some(total), true, 1)
        .unwrap();
    store.ensure_fragments_for_ranges(rec.item_db_id, &ranges, 1);
    let mut partial_file = Assembler::create(Some(total));
    let frags = store.load_fragments(rec.item_db_id);
    for f in &frags[0..2] {
        partial_file.write_at(f.offset as usize, &body(f.offset, f.len));
        store.mark_fragment_done_and_add_bytes(f.frag_db_id, rec.item_db_id, f.len, 2);
    }

    // Restart with identical inputs: the upsert returns the existing
    // record and replanning is a no-op.
    let rec2 = store
        .upsert_item("http://h/f", "/o/f", "/o/f.partial", chunk, Some(total), true, 3)
        .unwrap();
    assert_eq!(rec2.item_db_id, rec.item_db_id);
    assert_eq!(rec2.downloaded_bytes, 8);
    assert!(!store.ensure_fragments_for_ranges(rec2.item_db_id, &ranges, 3));

    let frags = store.load_fragments(rec2.item_db_id);
    let pending = pending_indices(&frags);
    assert_eq!(pending, vec![2]);
    for &i in &pending {
        let f = &frags[i];
        partial_file.write_at(f.offset as usize, &body(f.offset, f.len));
        store.mark_fragment_done_and_add_bytes(f.frag_db_id, rec2.item_db_id, f.len, 4);
    }

    assert!(all_fragments_done(&store.load_fragments(rec2.item_db_id)));
    let rec3 = store.get_item("http://h/f", "/o/f").unwrap();
    assert_eq!(rec3.downloaded_bytes, total);
    assert_eq!(partial_file.into_bytes(), reference);
}
