use orange_downloader::engine::{
    all_fragments_done, clamp_chunk_size, clamp_concurrency, effective_supports_ranges,
    fragment_request, next_wave, partial_path_of, pending_indices, progress_snapshot, ranges_of_plan,
    route_for, FragmentRequest, ItemRoute, JobTracker,
};
use orange_downloader::model::{Fragment, FragmentKey, FragmentState, JobId, JobStatus, ResourceType};
use orange_downloader::planner::plan_ranges;
use orange_downloader::store::{FragmentRecord, FragmentStore};

#[test]
fn routing_delegates_single_shot_protocols() {
    assert_eq!(route_for(ResourceType::BitTorrent), ItemRoute::DelegateBitTorrent);
    assert_eq!(route_for(ResourceType::Adb), ItemRoute::DelegateAdb);
    assert_eq!(route_for(ResourceType::Ed2k), ItemRoute::DelegateEd2k);
    assert_eq!(route_for(ResourceType::Sftp), ItemRoute::DelegateSftp);
    assert_eq!(route_for(ResourceType::Http), ItemRoute::Fragmented);
    assert_eq!(route_for(ResourceType::GitHubResolvedHttp), ItemRoute::Fragmented);
    assert_eq!(route_for(ResourceType::Ftp), ItemRoute::Fragmented);
}

#[test]
fn construction_clamps() {
    assert_eq!(clamp_concurrency(0), 1);
    assert_eq!(clamp_concurrency(6), 6);
    assert_eq!(clamp_chunk_size(0), 1024 * 1024);
    assert_eq!(clamp_chunk_size(8 * 1024 * 1024), 8 * 1024 * 1024);
}

#[test]
fn partial_path_appends_suffix() {
    assert_eq!(partial_path_of("/out/file.bin"), "/out/file.bin.partial");
}

#[test]
fn ranges_are_planned_only_with_confirmed_support_and_size() {
    assert!(effective_supports_ranges(true, Some(10)));
    assert!(!effective_supports_ranges(true, None));
    assert!(!effective_supports_ranges(false, Some(10)));
}

#[test]
fn plan_extraction_keeps_offsets_and_lengths() {
    let plan = plan_ranges(10, 4);
    assert_eq!(ranges_of_plan(&plan), vec![(0, 4), (4, 4), (8, 2)]);
    let indexed = vec![Fragment {
        key: FragmentKey::Indexed { index: 3 },
        state: FragmentState::Missing,
        retry: 0,
    }];
    assert_eq!(ranges_of_plan(&indexed), vec![(0, 0)]);
}

fn record(id: u64, offset: u64, len: u64, state: FragmentState) -> FragmentRecord {
    FragmentRecord { frag_db_id: id, offset, len, state }
}

#[test]
fn pending_skips_done_and_downloading() {
    let frags = vec![
        record(1, 0, 4, FragmentState::Done),
        record(2, 4, 4, FragmentState::Missing),
        record(3, 8, 4, FragmentState::Downloading),
        record(4, 12, 4, FragmentState::Bad),
    ];
    assert_eq!(pending_indices(&frags), vec![1, 3]);
    assert!(!all_fragments_done(&frags));
    let done = vec![record(1, 0, 4, FragmentState::Done)];
    assert!(all_fragments_done(&done));
    assert_eq!(pending_indices(&done), Vec::<usize>::new());
}

#[test]
fn resume_downloads_exactly_the_remaining_fragments() {
    // Two of three fragments already done: exactly one is pending, and
    // completing it brings the byte total to the full size.
    let mut store = FragmentStore::new();
    let id = store
        .upsert_item("http://h/f", "/o/f", "/o/f.partial", 4, Some(10), true, 1)
        .unwrap()
        .item_db_id;
    store.ensure_fragments_for_ranges(id, &vec![(0u64, 4u64), (4, 4), (8, 2)], 1);
    let frags = store.load_fragments(id);
    store.mark_fragment_done_and_add_bytes(frags[0].frag_db_id, id, 4, 2);
    store.mark_fragment_done_and_add_bytes(frags[1].frag_db_id, id, 4, 3);

    let frags = store.load_fragments(id);
    let pending = pending_indices(&frags);
    assert_eq!(pending, vec![2]);

    store.mark_fragment_done_and_add_bytes(frags[2].frag_db_id, id, frags[2].len, 4);
    let rec = store.get_item("http://h/f", "/o/f").unwrap();
    assert_eq!(rec.downloaded_bytes, 10);
    assert!(all_fragments_done(&store.load_fragments(id)));
}

#[test]
fn waves_are_bounded_by_concurrency() {
    // Three fragments at concurrency two drain in exactly two waves.
    let mut pending: Vec<usize> = vec![0, 1, 2];
    let first = next_wave(&mut pending, 2);
    assert_eq!(first, vec![0, 1]);
    let second = next_wave(&mut pending, 2);
    assert_eq!(second, vec![2]);
    assert!(pending.is_empty());
    assert_eq!(next_wave(&mut pending, 2), Vec::<usize>::new());
}

#[test]
fn fragment_requests_distinguish_sentinel_and_range() {
    assert_eq!(fragment_request(0, 0), FragmentRequest::WholeFile);
    assert_eq!(fragment_request(4, 4), FragmentRequest::Range { start: 4, end_inclusive: 7 });
    assert_eq!(fragment_request(8, 2), FragmentRequest::Range { start: 8, end_inclusive: 9 });
}

#[test]
fn progress_uses_clamped_elapsed_and_integer_rate() {
    let (speed, eta) = progress_snapshot(5000, Some(10000), 1000);
    assert_eq!(speed, 5000);
    assert_eq!(eta, Some(1));
    // Elapsed time is clamped to a millisecond.
    let (speed, _) = progress_snapshot(100, None, 0);
    assert_eq!(speed, 100_000);
    // No rate, no estimate.
    let (speed, eta) = progress_snapshot(0, Some(10), 50);
    assert_eq!(speed, 0);
    assert_eq!(eta, None);
    // Finished work has no estimate either.
    let (_, eta) = progress_snapshot(10, Some(10), 1000);
    assert_eq!(eta, None);
}

#[test]
fn job_fails_exactly_when_something_failed() {
    let mut t = JobTracker::new(JobId { value: 7 });
    t.on_item_result(true);
    assert_eq!(t.final_status(), JobStatus::Completed);
    t.on_item_result(false);
    t.on_item_result(true);
    assert_eq!(t.final_status(), JobStatus::Failed);
}

#[test]
fn resolve_failure_fails_job_but_not_other_items() {
    // One input fails to resolve, the other item completes: the job
    // still ends failed, while the good item ran to completion.
    let mut t = JobTracker::new(JobId { value: 8 });
    t.on_resolve_failure();
    t.on_item_result(true);
    assert_eq!(t.final_status(), JobStatus::Failed);
}
