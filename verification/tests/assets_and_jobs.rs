use pirate_harbor::assets::{
    background_path, cover_path, dedup_marker_path, gallery_listing, hash_to_hex, hex_from_marker, orphan_positions,
    thumbnail_path, hash_sample, AssetManager, AssetRef, AssetType, CleanupResult, HashSample,
};
use pirate_harbor::background::{
    job_outcome, JobQueue, JobResult, JobStatus, Priority, QueueEntry, RunOutcome, SchedulerState, MAX_FINISHED_JOBS,
};

#[test]
fn hash_is_sixteen_lower_hex_digits() {
    assert_eq!(hash_to_hex(0), "0000000000000000");
    assert_eq!(hash_to_hex(0xdead_beef), "00000000deadbeef");
    assert_eq!(hash_to_hex(u64::MAX), "ffffffffffffffff");
}

#[test]
fn canonical_asset_paths() {
    assert_eq!(cover_path("/data/covers", "g1"), "/data/covers/g1.webp");
    assert_eq!(background_path("/data/backgrounds", "g1"), "/data/backgrounds/g1.webp");
    assert_eq!(thumbnail_path("/t", 255), "/t/00000000000000ff_thumb.webp");
    assert_eq!(dedup_marker_path("/t", 255), "/t/00000000000000ff_dedup");
}

#[test]
fn marker_name_reads_back_its_hash() {
    for h in [0u64, 1, 0xabcdef, 0x0123_4567_89ab_cdef, u64::MAX] {
        let path = dedup_marker_path("/t", h);
        let name = path.rsplit('/').next().unwrap();
        assert_eq!(hex_from_marker(name), Some(h));
    }
    assert_eq!(hex_from_marker("00ff_thumb.webp"), None);
    assert_eq!(hex_from_marker("zz_dedup"), None);
    assert_eq!(hex_from_marker("ff_dedup"), None);
    assert_eq!(hex_from_marker("+00000000000000f_dedup"), None);
    assert_eq!(hex_from_marker("00000000000000FF_dedup"), None);
    assert_eq!(hex_from_marker("00000000000000ff_thumb.webp"), None);
    assert_eq!(hex_from_marker("00000000000000ff_dedup"), Some(255));
}

#[test]
fn manager_layout_and_storage() {
    let m = AssetManager::with_root("/appdata");
    assert_eq!(m.base_dir(), "/appdata/assets");
    assert_eq!(m.covers_dir(), "/appdata/assets/covers");
    assert_eq!(m.backgrounds_dir(), "/appdata/assets/backgrounds");
    assert_eq!(m.gallery_dir(), "/appdata/assets/gallery");
    assert_eq!(m.thumbnails_dir(), "/appdata/assets/thumbnails");

    let a = m.store_cover("g7", 16);
    assert_eq!(a.path, "/appdata/assets/covers/g7.webp");
    assert_eq!(a.asset_type, AssetType::Cover);
    assert_eq!(a.content_hash, "0000000000000010");
    let b = m.store_background("g7", 16);
    assert_eq!(b.path, "/appdata/assets/backgrounds/g7.webp");
    assert_eq!(b.asset_type, AssetType::Background);

    assert_eq!(m.get_cover("g7", true), Some("/appdata/assets/covers/g7.webp".to_string()));
    assert_eq!(m.get_cover("g7", false), None);
    assert_eq!(m.get_background("g7", false), None);

    let dup = m.deduplicate(16, true, true).unwrap();
    assert_eq!(dup.path, "/appdata/assets/thumbnails/0000000000000010_thumb.webp");
    assert_eq!(dup.asset_type, AssetType::Thumbnail);
    assert!(m.deduplicate(16, true, false).is_none());
    assert!(m.deduplicate(16, false, true).is_none());

    let s = m.get_storage_stats(10, 20, 30, 40, 1, 2, 3, 4);
    assert_eq!(s.total_bytes, 100);
    assert_eq!(s.file_count, 10);
}

#[test]
fn orphans_and_cleanup_tally() {
    let stems = vec![Some("g1".to_string()), None, Some("gone".to_string()), Some("g2".to_string())];
    let ids = vec!["g1".to_string(), "g2".to_string()];
    assert_eq!(orphan_positions(&stems, &ids), vec![2]);
    let c = CleanupResult::tally(&vec![(true, 1, 100), (false, 1, 50), (true, 1, 7)]);
    assert_eq!(c.deleted_count, 2);
    assert_eq!(c.bytes_freed, 107);
    // a removed gallery folder counts the files it held
    let g = CleanupResult::tally(&vec![(true, 1, 10), (true, 3, 300)]);
    assert_eq!(g.deleted_count, 4);
    assert_eq!(g.bytes_freed, 310);
}

#[test]
fn enqueued_job_is_visible_at_once() {
    let mut s: SchedulerState<u32> = SchedulerState::new();
    let id = s.enqueue(1, "scan".to_string(), "j1".to_string(), "t0".to_string());
    assert_eq!(id, "j1");
    let info = s.get_job_status("j1").unwrap();
    assert!(matches!(info.status, JobStatus::Queued));
    assert_eq!(info.name, "scan");
    assert_eq!(s.queue_depth(), 1);
    assert_eq!(s.list_active_jobs().len(), 1);
    assert!(s.get_job_status("unknown").is_none());
}

#[test]
fn high_priority_runs_first() {
    let mut s: SchedulerState<u32> = SchedulerState::new();
    s.enqueue(1, "a".to_string(), "a".to_string(), "t0".to_string());
    s.enqueue_with_priority(2, "b".to_string(), "b".to_string(), "t1".to_string(), Priority::High);
    s.enqueue(3, "c".to_string(), "c".to_string(), "t2".to_string());
    let order: Vec<u32> = std::iter::from_fn(|| s.take_next()).map(|e| e.job).collect();
    assert_eq!(order, vec![2, 1, 3]);
}

#[test]
fn cancel_only_removes_queued_jobs() {
    let mut s: SchedulerState<u32> = SchedulerState::new();
    s.enqueue(1, "a".to_string(), "a".to_string(), "t0".to_string());
    s.enqueue(2, "b".to_string(), "b".to_string(), "t1".to_string());
    assert!(s.cancel_job("b"));
    assert!(matches!(s.get_job_status("b").unwrap().status, JobStatus::Cancelled));
    assert_eq!(s.queue_depth(), 1);
    assert!(!s.cancel_job("b"));
    let first = s.take_next().unwrap();
    s.mark_running(first.id.clone(), "a".to_string(), first.queued_at.clone(), "t5".to_string());
    assert!(matches!(s.get_job_status("a").unwrap().status, JobStatus::Running { progress_permille: 0 }));
    assert!(!s.cancel_job("a"));
    assert!(s.take_next().is_none());
}

#[test]
fn finished_jobs_are_pruned_to_the_limit() {
    let mut s: SchedulerState<u32> = SchedulerState::new();
    s.enqueue(0, "pending".to_string(), "pending".to_string(), "t".to_string());
    for i in 0..(MAX_FINISHED_JOBS + 5) {
        let id = format!("job{}", i);
        let at = format!("2024-01-01T00:00:{:02}Z", i);
        s.finish_job(id, "n".to_string(), "q".to_string(), "s".to_string(), at, JobStatus::Done);
    }
    let all = s.list_all_jobs();
    let finished = all.iter().filter(|j| j.status.is_terminal()).count();
    assert_eq!(finished, MAX_FINISHED_JOBS);
    assert!(s.get_job_status("job0").is_none());
    assert!(s.get_job_status("job4").is_none());
    assert!(s.get_job_status("job5").is_some());
    assert!(s.get_job_status("pending").is_some());
}

#[test]
fn a_long_job_finishing_last_is_kept() {
    let mut s: SchedulerState<u32> = SchedulerState::new();
    s.enqueue(0, "long".to_string(), "long".to_string(), "2024-01-01T00:00:00Z".to_string());
    let e = s.take_next().unwrap();
    assert!(!s.is_queued("long"));
    s.mark_running(e.id.clone(), "long".to_string(), e.queued_at.clone(), "2024-01-01T00:00:00Z".to_string());
    for i in 1..=25 {
        let at = format!("2024-01-01T00:01:{:02}Z", i);
        s.finish_job(format!("short{}", i), "n".to_string(), "q".to_string(), "s".to_string(), at, JobStatus::Done);
    }
    s.finish_job("long".to_string(), "long".to_string(), e.queued_at, "s".to_string(), "2024-01-01T00:09:00Z".to_string(), JobStatus::Done);
    assert!(s.get_job_status("long").is_some());
    assert!(s.get_job_status("short6").is_none());
    assert!(s.get_job_status("short7").is_some());
    assert!(s.get_job_status("short25").is_some());
    let finished = s.list_all_jobs().iter().filter(|j| j.status.is_terminal()).count();
    assert_eq!(finished, MAX_FINISHED_JOBS);
}

#[test]
fn job_outcomes_become_statuses() {
    let (st, summary) = job_outcome(RunOutcome::Finished("12 games".to_string()));
    assert!(matches!(st, JobStatus::Done));
    assert_eq!(summary, Some("12 games".to_string()));
    let (st, summary) = job_outcome(RunOutcome::Panicked("boom".to_string()));
    match st {
        JobStatus::Failed { reason } => assert_eq!(reason, "Worker panicked: boom"),
        _ => panic!("expected a failure"),
    }
    assert!(summary.is_none());
    let (st, _) = job_outcome(RunOutcome::Errored("bad".to_string()));
    assert!(matches!(st, JobStatus::Failed { reason } if reason == "bad"));
}

#[test]
fn gallery_images_live_under_the_game_folder() {
    let m = AssetManager::with_root("/appdata");
    assert_eq!(m.game_gallery_dir("g9"), "/appdata/assets/gallery/g9");
    let r = m.gallery_ref("g9", "0f0e", 1);
    assert_eq!(r.path, "/appdata/assets/gallery/g9/0f0e.webp");
    assert_eq!(r.asset_type, AssetType::Gallery);
    let a = m.store_gallery_image("g9", 2);
    assert!(a.path.starts_with("/appdata/assets/gallery/g9/"));
    assert!(a.path.ends_with(".webp"));
    let name = a.path.rsplit('/').next().unwrap();
    assert_eq!(name.len(), 36 + 5);
    assert!(name[..36].chars().all(|c| c.is_ascii_hexdigit() && !c.is_ascii_uppercase() || c == '-'));
    let b = m.store_gallery_image("g9", 2);
    assert_ne!(a.path, b.path);
}

#[test]
fn gallery_listing_keeps_sorted_webp_files() {
    let listing = gallery_listing(&vec![
        "/g/b.webp".to_string(),
        "/g/notes.txt".to_string(),
        "/g/a.webp".to_string(),
        "/g/c.WEBP".to_string(),
    ]);
    let paths: Vec<&str> = listing.iter().map(|r| r.path.as_str()).collect();
    assert_eq!(paths, vec!["/g/a.webp", "/g/b.webp"]);
    assert!(listing.iter().all(|r| r.asset_type == AssetType::Gallery && r.content_hash.is_empty()));
}

#[test]
fn job_results() {
    let r = JobResult::ok("Done".to_string());
    assert_eq!(r.summary, "Done");
    assert!(r.payload.is_none());
    let r = JobResult::with_payload("Backup".to_string(), serde_json::Value::Bool(true));
    assert_eq!(r.payload, Some(serde_json::Value::Bool(true)));
}

fn entry(id: &str, priority: Priority) -> QueueEntry<u8> {
    QueueEntry { id: id.to_string(), priority, job: 0, queued_at: "2024-01-01T00:00:00Z".to_string() }
}

#[test]
fn job_queue_orders_high_priority_first_and_cancels_by_id() {
    let mut q: JobQueue<u8> = JobQueue::new();
    q.push(entry("a", Priority::Normal));
    q.push(entry("b", Priority::Normal));
    q.push(entry("c", Priority::High));
    assert_eq!(q.queued_ids(), vec!["c".to_string(), "a".to_string(), "b".to_string()]);
    assert!(q.cancel("a"));
    assert!(!q.cancel("zz"));
    assert_eq!(q.queued_ids(), vec!["c".to_string(), "b".to_string()]);
    assert_eq!(q.pop().map(|e| e.id), Some("c".to_string()));
    assert_eq!(q.len(), 1);
}

#[test]
fn asset_ref_path_str_is_the_stored_path() {
    let r = AssetRef {
        path: "/data/covers/g1_cover.webp".to_string(),
        asset_type: AssetType::Cover,
        content_hash: String::new(),
    };
    assert_eq!(r.path_str(), "/data/covers/g1_cover.webp");
}

#[test]
fn content_hash_reads_small_files_whole_and_large_ones_at_both_ends() {
    assert_eq!(hash_sample(0), HashSample::Whole);
    assert_eq!(hash_sample(4 * 1024 * 1024), HashSample::Whole);
    assert_eq!(
        hash_sample(4 * 1024 * 1024 + 1),
        HashSample::HeadAndTail { len: 2 * 1024 * 1024, tail_start: 2 * 1024 * 1024 + 1 }
    );
}

#[test]
fn stored_cover_path_is_the_canonical_one() {
    let m = AssetManager::with_root("/data");
    let stored = m.store_cover("g1", 7);
    assert_eq!(stored.path, cover_path(m.covers_dir(), "g1"));
    assert_eq!(stored.path, "/data/assets/covers/g1.webp");
    assert_eq!(m.get_cover("g1", true), Some(stored.path.clone()));
    assert_eq!(m.get_cover("g1", false), None);
    assert_eq!(dedup_marker_path("", 1), "0000000000000001_dedup");
}
