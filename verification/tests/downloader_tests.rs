use tronctl::downloader::{
    accept_ranges_is_bytes, all_chunks_completed, check_integrity, chunk_file_path, completed_bytes,
    chunk_request_range, create_initial_progress, http_success, http_transfer_status_ok,
    is_chunk_complete, is_wf_progress, merge_chunks, plan_download_mode, plan_for_resource,
    probe_outcome,
    progress_file_path, release_download_url, resume_or_fresh, resume_or_plan, set_chunk_status,
    should_reuse, single_stream_resume_pos, ChunkStatus, DownloadMode, LARGE_FILE_THRESHOLD,
};
use tronctl::error::TronCtlError;

const MIB: u64 = 1024 * 1024;

#[test]
fn mode_chunked_only_for_large_ranged_files() {
    assert_eq!(plan_download_mode(300 * MIB, true), DownloadMode::Chunked);
    assert_eq!(plan_download_mode(300 * MIB, false), DownloadMode::SingleStream);
    assert_eq!(plan_download_mode(MIB, true), DownloadMode::SingleStream);
    assert_eq!(plan_download_mode(LARGE_FILE_THRESHOLD, true), DownloadMode::SingleStream);
    assert_eq!(plan_download_mode(LARGE_FILE_THRESHOLD + 1, true), DownloadMode::Chunked);
}

#[test]
fn plan_of_four_workers_tiles_the_resource() {
    // A 300 MiB resource split across 4 processing units: 4 chunks of
    // 75 MiB, the last one ending exactly at the final byte.
    let total = 300 * MIB;
    let plan = create_initial_progress("http://mirror/file.tgz", total, 4, total / 4);
    assert!(is_wf_progress(&plan));
    assert_eq!(plan.chunks.len(), 4);
    assert_eq!(plan.chunk_size, 75 * MIB);
    for (i, c) in plan.chunks.iter().enumerate() {
        assert_eq!(c.index, i);
        assert_eq!(c.start, i as u64 * 75 * MIB);
        assert_eq!(c.end - c.start + 1, 75 * MIB);
        assert!(matches!(c.status, ChunkStatus::Pending));
    }
    assert_eq!(plan.chunks[3].end, total - 1);
}

#[test]
fn plan_last_chunk_absorbs_remainder() {
    let plan = create_initial_progress("u", 10, 3, 10 / 3);
    assert_eq!(plan.chunks.len(), 3);
    assert_eq!(plan.chunks[0].start, 0);
    assert_eq!(plan.chunks[0].end, 2);
    assert_eq!(plan.chunks[1].end, 5);
    assert_eq!(plan.chunks[2].end, 9);
}

#[test]
fn matching_record_is_resumed_as_saved() {
    let mut saved = create_initial_progress("http://m/f", 40 * MIB, 4, 10 * MIB);
    set_chunk_status(&mut saved, 1, ChunkStatus::Completed);
    let resumed = resume_or_fresh(Some(saved), "http://m/f", 40 * MIB, 8);
    assert_eq!(resumed.chunks.len(), 4);
    assert!(matches!(resumed.chunks[1].status, ChunkStatus::Completed));
    assert!(matches!(resumed.chunks[0].status, ChunkStatus::Pending));
}

#[test]
fn completed_chunk_with_intact_file_gets_no_request() {
    let mut saved = create_initial_progress("http://m/f", 40 * MIB, 4, 10 * MIB);
    set_chunk_status(&mut saved, 2, ChunkStatus::Completed);
    let resumed = resume_or_fresh(Some(saved), "http://m/f", 40 * MIB, 4);
    let c = &resumed.chunks[2];
    let span = c.end - c.start + 1;
    assert!(is_chunk_complete(c, span));
    assert_eq!(chunk_request_range(c, span), None);
}

#[test]
fn partial_chunk_requests_only_missing_bytes() {
    let plan = create_initial_progress("u", 100, 2, 50);
    let c = &plan.chunks[1];
    // 20 bytes of chunk 1 (bytes 50..=99) already on disk.
    assert_eq!(chunk_request_range(c, 20), Some((70, 99)));
    assert_eq!(chunk_request_range(c, 0), Some((50, 99)));
    assert_eq!(chunk_request_range(c, 50), None);
}

#[test]
fn stale_record_discarded_for_new_size() {
    let saved = create_initial_progress("http://m/f", 40 * MIB, 4, 10 * MIB);
    let fresh = resume_or_fresh(Some(saved), "http://m/f", 80 * MIB, 4);
    assert_eq!(fresh.total_size, 80 * MIB);
    assert_eq!(fresh.chunks[0].start, 0);
    assert_eq!(fresh.chunks[3].end, 80 * MIB - 1);
    for c in &fresh.chunks {
        assert!(matches!(c.status, ChunkStatus::Pending));
    }
}

#[test]
fn stale_record_discarded_for_new_url() {
    let saved = create_initial_progress("http://m/f", 40 * MIB, 4, 10 * MIB);
    let fresh = resume_or_fresh(Some(saved), "http://other/f", 40 * MIB, 2);
    assert_eq!(fresh.chunks.len(), 2);
    assert_eq!(fresh.chunks[0].start, 0);
    for c in &fresh.chunks {
        assert!(matches!(c.status, ChunkStatus::Pending));
    }
}

#[test]
fn reuse_judgment_is_exact() {
    let saved = create_initial_progress("http://m/f", 40 * MIB, 4, 10 * MIB);
    assert!(should_reuse(&saved, "http://m/f", 40 * MIB));
    assert!(!should_reuse(&saved, "http://m/f", 41 * MIB));
    assert!(!should_reuse(&saved, "http://other/f", 40 * MIB));
}

#[test]
fn discarded_record_plans_all_pending_from_zero() {
    let mut saved = create_initial_progress("http://m/f", 40 * MIB, 4, 10 * MIB);
    set_chunk_status(&mut saved, 1, ChunkStatus::Completed);
    let fresh = resume_or_plan(Some(saved), "http://other/f", 40 * MIB);
    assert!(is_wf_progress(&fresh));
    assert_eq!(fresh.chunks[0].start, 0);
    assert_eq!(fresh.chunks[fresh.chunks.len() - 1].end, 40 * MIB - 1);
    for c in &fresh.chunks {
        assert!(matches!(c.status, ChunkStatus::Pending));
        assert_eq!(c.downloaded, 0);
    }
}

#[test]
fn completion_needs_every_chunk() {
    let mut plan = create_initial_progress("u", 100, 4, 25);
    assert!(!all_chunks_completed(&plan));
    for i in 0..4 {
        set_chunk_status(&mut plan, i, ChunkStatus::Completed);
    }
    assert!(all_chunks_completed(&plan));
    set_chunk_status(&mut plan, 2, ChunkStatus::Downloading);
    assert!(!all_chunks_completed(&plan));
}

#[test]
fn completed_bytes_counts_only_completed_spans() {
    let mut plan = create_initial_progress("u", 100, 4, 25);
    assert_eq!(completed_bytes(&plan), 0);
    set_chunk_status(&mut plan, 0, ChunkStatus::Completed);
    set_chunk_status(&mut plan, 2, ChunkStatus::Completed);
    assert_eq!(completed_bytes(&plan), 50);
    set_chunk_status(&mut plan, 1, ChunkStatus::Completed);
    set_chunk_status(&mut plan, 3, ChunkStatus::Completed);
    assert_eq!(completed_bytes(&plan), 100);
}

#[test]
fn machine_sized_plan_covers_the_resource() {
    let plan = plan_for_resource("http://m/f", 1000);
    assert!(is_wf_progress(&plan));
    assert!(!plan.chunks.is_empty());
    assert_eq!(plan.total_size, 1000);
    assert_eq!(plan.chunks[0].start, 0);
    assert_eq!(plan.chunks[plan.chunks.len() - 1].end, 999);
}

#[test]
fn merge_concatenates_in_index_order() {
    let buffers = vec![vec![1u8, 2, 3], vec![4u8, 5], vec![], vec![6u8]];
    let merged = merge_chunks(&buffers);
    assert_eq!(merged, vec![1, 2, 3, 4, 5, 6]);
}

#[test]
fn merged_length_equals_total_size() {
    // A 300-byte resource in 4 chunks of 75: the merged file is exactly the
    // probed size.
    let total: u64 = 300;
    let plan = create_initial_progress("u", total, 4, total / 4);
    let buffers: Vec<Vec<u8>> = plan
        .chunks
        .iter()
        .map(|c| vec![0u8; (c.end - c.start + 1) as usize])
        .collect();
    let merged = merge_chunks(&buffers);
    assert_eq!(merged.len() as u64, total);
}

#[test]
fn checksum_match_passes_and_mismatch_reports_both() {
    let data = b"hello chunked world".to_vec();
    let expected = format!("{:x}", md5::compute(&data));
    assert!(check_integrity(&data, Some(&expected)).is_ok());
    assert!(check_integrity(&data, None).is_ok());

    let wrong = "00000000000000000000000000000000".to_string();
    match check_integrity(&data, Some(&wrong)) {
        Err(TronCtlError::Md5Mismatch { expected: e, actual: a }) => {
            assert_eq!(e, wrong);
            assert_eq!(a, expected);
        }
        other => panic!("unexpected result: {:?}", other.map(|_| ())),
    }
}

#[test]
fn progress_record_lives_beside_destination() {
    let dest = b"/var/lib/tronctl/tron-snapshot-20260109.tgz".to_vec();
    let progress = progress_file_path(&dest);
    assert_eq!(
        progress,
        b"/var/lib/tronctl/tron-snapshot-20260109.progress".to_vec()
    );
}

#[test]
fn chunk_files_live_beside_destination() {
    let dest = b"/data/file.tgz".to_vec();
    assert_eq!(chunk_file_path(&dest, 0), b"/data/file.part0".to_vec());
    assert_eq!(chunk_file_path(&dest, 12), b"/data/file.part12".to_vec());
}

#[test]
fn extensionless_destination_gains_an_extension() {
    assert_eq!(progress_file_path(&b"/data/archive".to_vec()), b"/data/archive.progress".to_vec());
    assert_eq!(progress_file_path(&b".bar".to_vec()), b".bar.progress".to_vec());
    assert_eq!(
        progress_file_path(&b"/a.dir/plain".to_vec()),
        b"/a.dir/plain.progress".to_vec()
    );
}

#[test]
fn probe_failure_is_fatal_not_a_fallback() {
    assert!(matches!(
        probe_outcome(404, Some(100), true),
        Err(TronCtlError::DownloadFailed(_))
    ));
    assert!(matches!(
        probe_outcome(200, None, true),
        Err(TronCtlError::DownloadFailed(_))
    ));
}

#[test]
fn probe_success_reports_size_and_mode() {
    match probe_outcome(200, Some(300 * MIB), true) {
        Ok((size, mode)) => {
            assert_eq!(size, 300 * MIB);
            assert_eq!(mode, DownloadMode::Chunked);
        }
        Err(_) => panic!("probe should succeed"),
    }
    match probe_outcome(204, Some(5), false) {
        Ok((size, mode)) => {
            assert_eq!(size, 5);
            assert_eq!(mode, DownloadMode::SingleStream);
        }
        Err(_) => panic!("probe should succeed"),
    }
}

#[test]
fn http_status_judgments() {
    assert!(http_success(200));
    assert!(http_success(299));
    assert!(http_success(206));
    assert!(!http_success(404));
    assert!(http_transfer_status_ok(206));
    assert!(http_transfer_status_ok(200));
    assert!(!http_transfer_status_ok(416));
}

#[test]
fn accept_ranges_header_must_say_bytes() {
    assert!(accept_ranges_is_bytes(Some(&"bytes".to_string())));
    assert!(!accept_ranges_is_bytes(Some(&"none".to_string())));
    assert!(!accept_ranges_is_bytes(None));
}

#[test]
fn single_stream_resumes_only_short_partials() {
    assert_eq!(single_stream_resume_pos(Some(500), 1000), Some(500));
    assert_eq!(single_stream_resume_pos(Some(0), 1000), None);
    assert_eq!(single_stream_resume_pos(Some(1000), 1000), None);
    assert_eq!(single_stream_resume_pos(Some(2000), 1000), None);
    assert_eq!(single_stream_resume_pos(None, 1000), None);
}

#[test]
fn release_url_names_the_tagged_jar() {
    assert_eq!(
        release_download_url("GreatVoyage-v4.7.4"),
        "https://github.com/tronprotocol/java-tron/releases/download/GreatVoyage-v4.7.4/FullNode.jar"
    );
}
