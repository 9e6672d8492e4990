use orange_downloader::model::{Fragment, FragmentKey, FragmentState};
use orange_downloader::planner::plan_ranges;

fn key_of(f: &Fragment) -> (u64, u64) {
    match f.key {
        FragmentKey::Range { offset, len } => (offset, len),
        FragmentKey::Indexed { index } => panic!("unexpected indexed fragment {}", index),
    }
}

#[test]
fn zero_total_yields_single_sentinel() {
    let plan = plan_ranges(0, 4 * 1024 * 1024);
    assert_eq!(plan.len(), 1);
    assert_eq!(key_of(&plan[0]), (0, 0));
    assert_eq!(plan[0].state, FragmentState::Missing);
    assert_eq!(plan[0].retry, 0);
}

#[test]
fn small_plan_is_contiguous_with_short_tail() {
    let plan = plan_ranges(10, 4);
    let keys: Vec<(u64, u64)> = plan.iter().map(key_of).collect();
    assert_eq!(keys, vec![(0, 4), (4, 4), (8, 2)]);
    for f in &plan {
        assert_eq!(f.state, FragmentState::Missing);
    }
}

#[test]
fn exact_multiple_has_no_short_tail() {
    let plan = plan_ranges(8, 4);
    let keys: Vec<(u64, u64)> = plan.iter().map(key_of).collect();
    assert_eq!(keys, vec![(0, 4), (4, 4)]);
}

#[test]
fn ten_mebibytes_in_four_mebibyte_chunks_gives_three_fragments() {
    let mib = 1024 * 1024;
    let plan = plan_ranges(10 * mib, 4 * mib);
    let keys: Vec<(u64, u64)> = plan.iter().map(key_of).collect();
    assert_eq!(keys, vec![(0, 4 * mib), (4 * mib, 4 * mib), (8 * mib, 2 * mib)]);
}

#[test]
fn count_is_rounded_up_quotient() {
    assert_eq!(plan_ranges(1, 1).len(), 1);
    assert_eq!(plan_ranges(5, 1).len(), 5);
    assert_eq!(plan_ranges(5, 2).len(), 3);
    assert_eq!(plan_ranges(100, 7).len(), 15);
}

#[test]
fn plan_covers_every_byte_exactly_once() {
    let plan = plan_ranges(100, 7);
    let mut next = 0u64;
    for f in &plan {
        let (offset, len) = key_of(f);
        assert_eq!(offset, next);
        assert!(len > 0 && len <= 7);
        next = offset + len;
    }
    assert_eq!(next, 100);
}
