//! Chunking, decompression, ingestion, replication and delivery.

use std::io::Write;

use simply_ip_sync::client::{BatchMode, ClientError, IpRecordResponse};
use simply_ip_sync::entities::{external_source, vault_endpoint, vault_sync_task};
use simply_ip_sync::jobs::decompress::{decompress_if_zip, is_zip, CappedBody, DecompressError};
use simply_ip_sync::jobs::delivery::{Delivery, DeliveryTarget};
use simply_ip_sync::jobs::external_ingestion::{
    body_failure, deduplicate, feed_records, fetch_step, prepare, FetchOptions, FetchReply, FetchStep,
};
use simply_ip_sync::jobs::{
    chunk_records, external_ingestion, mode_for_chunk_index, sync_log_row, try_start_job, vault_sync,
    JobSummary, RunningJobs,
};
use simply_ip_sync::time::Timestamp;

const NOW: Timestamp = Timestamp { secs: 1_700_000_000, nanos: 5 };
const EARLIER: Timestamp = Timestamp { secs: 1_600_000_000, nanos: 0 };

fn source(parser_type: &str, config: Option<&str>, mode: &str) -> external_source::Model {
    external_source::Model {
        id: 7,
        name: "feed".to_owned(),
        source_url: "https://feeds.example/list".to_owned(),
        parser_type: parser_type.to_owned(),
        parser_config_json: config.map(|c| c.to_owned()),
        cron_schedule: "0 0 * * *".to_owned(),
        target_group_name: "group".to_owned(),
        mode: mode.to_owned(),
        is_active: true,
        last_run_at: None,
        owner_key_id: None,
        created_at: EARLIER,
        updated_at: EARLIER,
    }
}

fn vault(name: &str) -> vault_endpoint::Model {
    vault_endpoint::Model {
        id: 1,
        name: name.to_owned(),
        target_url: "https://vault.example".to_owned(),
        api_key: "key".to_owned(),
        signing_secret: "v1.plain.00".to_owned(),
        description: None,
        owner_key_id: None,
        created_at: EARLIER,
        updated_at: EARLIER,
    }
}

fn build_test_zip(name: &str, contents: &[u8]) -> Vec<u8> {
    let mut buf = std::io::Cursor::new(Vec::new());
    {
        let mut writer = zip::ZipWriter::new(&mut buf);
        let options: zip::write::FileOptions<'_, '_, ()> =
            zip::write::FileOptions::default().compression_method(zip::CompressionMethod::Deflated);
        writer.start_file(name, options).expect("start_file");
        writer.write_all(contents).expect("write contents");
        writer.finish().expect("finish");
    }
    buf.into_inner()
}

const GENEROUS_LIMIT: u64 = 10 * 1024 * 1024;

#[test]
fn passthrough_for_non_zip_bytes() {
    let plain = b"1.2.3.4\n5.6.7.8\n";
    let result = decompress_if_zip(plain, GENEROUS_LIMIT).expect("passthrough");
    assert_eq!(result, plain);
}

#[test]
fn is_zip_detects_local_header_signature() {
    let zip_bytes = build_test_zip("x.txt", b"hello");
    assert!(is_zip(&zip_bytes));
    assert!(!is_zip(b"not a zip"));
}

#[test]
fn decompresses_single_member_zip() {
    let inner = b"2001:db8::1\n2001:db8::2\n";
    let zip_bytes = build_test_zip("addresses.txt", inner);
    let result = decompress_if_zip(&zip_bytes, GENEROUS_LIMIT).expect("decompress");
    assert_eq!(result, inner);
}

#[test]
fn an_archive_of_directories_alone_is_empty() {
    let mut buf = std::io::Cursor::new(Vec::new());
    {
        let mut writer = zip::ZipWriter::new(&mut buf);
        writer.add_directory("feeds/", zip::write::SimpleFileOptions::default()).expect("add_directory");
        writer.finish().expect("finish archive");
    }
    let bytes = buf.into_inner();
    assert!(is_zip(&bytes));
    assert!(matches!(decompress_if_zip(&bytes, GENEROUS_LIMIT), Err(DecompressError::EmptyArchive)));
}

#[test]
fn rejects_empty_archive_gracefully() {
    let mut buf = std::io::Cursor::new(Vec::new());
    {
        let writer = zip::ZipWriter::new(&mut buf);
        writer.finish().expect("finish empty archive");
    }
    let empty_zip = buf.into_inner();
    assert!(is_zip(&empty_zip));
    assert!(matches!(decompress_if_zip(&empty_zip, GENEROUS_LIMIT), Err(DecompressError::EmptyArchive)));
}

#[test]
fn single_member_exceeding_the_limit_is_rejected_without_fully_decompressing() {
    let huge_inner = vec![b'a'; 100_000];
    let zip_bytes = build_test_zip("bomb.txt", &huge_inner);
    let result = decompress_if_zip(&zip_bytes, 1024);
    assert!(matches!(result, Err(DecompressError::TooLarge { limit_bytes: 1024 })), "got {result:?}");
}

#[test]
fn combined_output_across_multiple_members_is_capped_in_aggregate() {
    let mut buf = std::io::Cursor::new(Vec::new());
    {
        let mut writer = zip::ZipWriter::new(&mut buf);
        let options: zip::write::FileOptions<'_, '_, ()> =
            zip::write::FileOptions::default().compression_method(zip::CompressionMethod::Deflated);
        for i in 0..5 {
            writer.start_file(format!("part-{i}.txt"), options).expect("start_file");
            writer.write_all(&vec![b'a'; 1000]).expect("write member contents");
        }
        writer.finish().expect("finish archive");
    }
    let zip_bytes = buf.into_inner();

    let result = decompress_if_zip(&zip_bytes, 3000);
    assert!(matches!(result, Err(DecompressError::TooLarge { limit_bytes: 3000 })), "got {result:?}");
}

#[test]
fn members_are_joined_by_line_breaks_and_directories_are_passed_over() {
    let mut buf = std::io::Cursor::new(Vec::new());
    {
        let mut writer = zip::ZipWriter::new(&mut buf);
        let options: zip::write::FileOptions<'_, '_, ()> = zip::write::FileOptions::default();
        writer.add_directory("folder", options).expect("directory");
        writer.start_file("a.txt", options).expect("start_file");
        writer.write_all(b"1.1.1.1").expect("write");
        writer.start_file("b.txt", options).expect("start_file");
        writer.write_all(b"2.2.2.2\n").expect("write");
        writer.finish().expect("finish");
    }
    let out = decompress_if_zip(&buf.into_inner(), GENEROUS_LIMIT).expect("decompress");
    let text = String::from_utf8(out).expect("text");
    let lines: Vec<&str> = text.lines().filter(|l| !l.is_empty()).collect();
    assert_eq!(lines, vec!["1.1.1.1", "2.2.2.2"]);
}

#[test]
fn the_line_break_between_members_is_charged() {
    let archive = |members: &[&[u8]]| {
        let mut buf = std::io::Cursor::new(Vec::new());
        let mut writer = zip::ZipWriter::new(&mut buf);
        for (i, contents) in members.iter().enumerate() {
            writer.start_file(format!("{i}.txt"), zip::write::SimpleFileOptions::default()).expect("start_file");
            writer.write_all(contents).expect("write");
        }
        writer.finish().expect("finish");
        buf.into_inner()
    };
    let two = archive(&[b"a", b"b"]);
    assert!(matches!(decompress_if_zip(&two, 2), Err(DecompressError::TooLarge { limit_bytes: 2 })));
    assert_eq!(decompress_if_zip(&two, 3).expect("fits"), b"a\nb");
    let ended = archive(&[b"a\n", b"b"]);
    assert_eq!(decompress_if_zip(&ended, 3).expect("fits"), b"a\nb");
    assert!(matches!(decompress_if_zip(&ended, 2), Err(DecompressError::TooLarge { limit_bytes: 2 })));
}

#[test]
fn a_broken_archive_is_an_error() {
    let err = decompress_if_zip(b"PK\x03\x04 and nothing more", GENEROUS_LIMIT).expect_err("broken");
    assert!(matches!(err, DecompressError::OpenArchive(_)), "{err:?}");
    assert!(err.message().starts_with("failed to open zip archive: "));
}

#[test]
fn read_capped_body_passes_through_a_body_under_the_limit() {
    let body = CappedBody::new(1024).push_chunk(b"hello ").expect("under limit").push_chunk(b"world").expect("under limit");
    assert_eq!(body.finish(), b"hello world");
}

#[test]
fn read_capped_body_aborts_once_the_stream_exceeds_the_limit() {
    let mut body = CappedBody::new(100);
    let mut refused = None;
    for _ in 0..100 {
        match body.push_chunk(&[b'a'; 30]) {
            Ok(more) => body = more,
            Err(e) => {
                refused = Some(e);
                break;
            }
        }
    }
    let refused = refused.expect("10,000 bytes do not fit");
    assert!(matches!(refused, DecompressError::TooLarge { limit_bytes: 100 }), "got {refused:?}");
    assert!(refused.message().contains("the 100-byte MAX_DECOMPRESSED_BYTES limit"));
    assert_eq!(CappedBody::new(3).push_chunk(b"abc").expect("exactly the limit").finish(), b"abc");
}

#[test]
fn chunk_boundary_exactly_max() {
    let items: Vec<u32> = (0..5000).collect();
    let chunks = chunk_records(items, 5000);
    assert_eq!(chunks.len(), 1);
    assert_eq!(chunks[0].len(), 5000);
}

#[test]
fn chunk_boundary_one_over_max() {
    let items: Vec<u32> = (0..5001).collect();
    let chunks = chunk_records(items, 5000);
    assert_eq!(chunks.len(), 2);
    assert_eq!(chunks[0].len(), 5000);
    assert_eq!(chunks[1].len(), 1);
}

#[test]
fn chunk_boundary_one_under_max() {
    let items: Vec<u32> = (0..9999).collect();
    let chunks = chunk_records(items, 5000);
    assert_eq!(chunks.len(), 2);
    assert_eq!(chunks[0].len(), 5000);
    assert_eq!(chunks[1].len(), 4999);
}

#[test]
fn empty_input_yields_no_chunks() {
    let items: Vec<u32> = Vec::new();
    let chunks = chunk_records(items, 5000);
    assert!(chunks.is_empty());
}

#[test]
fn chunks_put_together_are_the_items() {
    let items: Vec<u32> = (0..23).collect();
    assert_eq!(chunk_records(items.clone(), 5).concat(), items);
}

#[test]
fn only_the_first_chunk_keeps_full_replace() {
    assert_eq!(mode_for_chunk_index(BatchMode::FullReplace, 0), BatchMode::FullReplace);
    assert_eq!(mode_for_chunk_index(BatchMode::FullReplace, 1), BatchMode::Upsert);
    assert_eq!(mode_for_chunk_index(BatchMode::FullReplace, 3), BatchMode::Upsert);
}

#[test]
fn upsert_stays_upsert_for_every_chunk() {
    assert_eq!(mode_for_chunk_index(BatchMode::Upsert, 0), BatchMode::Upsert);
    assert_eq!(mode_for_chunk_index(BatchMode::Upsert, 5), BatchMode::Upsert);
}

#[test]
fn a_job_runs_once_at_a_time() {
    let mut jobs = RunningJobs::new();
    let first = try_start_job(&mut jobs, 1).expect("free");
    assert!(try_start_job(&mut jobs, 1).is_none());
    let other = try_start_job(&mut jobs, 2).expect("another resource");
    jobs.release(first);
    let again = try_start_job(&mut jobs, 1).expect("free again");
    assert!(try_start_job(&mut jobs, 2).is_none());
    jobs.release(again);
    jobs.release(other);
}

#[test]
fn a_failed_summary_becomes_a_log_row() {
    let summary = JobSummary::failed("no feed".to_owned(), 12);
    let row = sync_log_row(3, "EXTERNAL_FEED", 7, "feed", &summary, NOW);
    assert_eq!((row.id, row.job_id, row.items_processed, row.chunks_sent, row.duration_ms), (3, 7, 0, 0, 12));
    assert_eq!((row.job_type.as_str(), row.job_name.as_str(), row.status.as_str()), ("EXTERNAL_FEED", "feed", "FAILED"));
    assert_eq!(row.error_message.as_deref(), Some("no feed"));
    assert_eq!(row.timestamp, NOW);
}

#[test]
fn fetch_options_come_from_the_parser_configuration() {
    let options = FetchOptions::from_config(Some(
        r#"{"ip_field":"ip","user_agent":"sync/1","headers":{"X-A":"1","X-B":2,"X-C":"3"}}"#,
    ));
    assert_eq!(options.user_agent.as_deref(), Some("sync/1"));
    assert_eq!(
        options.headers,
        vec![("X-A".to_owned(), "1".to_owned()), ("X-C".to_owned(), "3".to_owned())]
    );
    for config in [None, Some("not json"), Some("[]"), Some("{\"user_agent\":1}")] {
        let options = FetchOptions::from_config(config);
        assert!(options.user_agent.is_none() && options.headers.is_empty());
    }
}

#[test]
fn a_fetch_is_retried_while_the_failure_is_transient() {
    let answered = |status: u16| FetchReply::Answered { status, status_text: format!("{status} Text") };
    assert!(matches!(fetch_step(&answered(200), 0, 3), FetchStep::Read));
    assert!(matches!(fetch_step(&answered(503), 0, 3), FetchStep::Retry(1)));
    assert!(matches!(fetch_step(&answered(503), 2, 3), FetchStep::Retry(3)));
    match fetch_step(&answered(503), 3, 3) {
        FetchStep::Fail(m) => assert!(m.contains("503 Text"), "{m}"),
        other => panic!("{other:?}"),
    }
    assert!(matches!(fetch_step(&answered(404), 0, 3), FetchStep::Fail(_)));
    match fetch_step(&FetchReply::Lost("refused".to_owned()), 0, 3) {
        FetchStep::Fail(m) => assert_eq!(m, "fetch failed: refused"),
        other => panic!("{other:?}"),
    }
}

#[test]
fn entries_are_kept_once_in_their_first_order() {
    let entries: Vec<String> = ["b", "a", "b", "c", "a"].iter().map(|s| s.to_string()).collect();
    assert_eq!(deduplicate(entries), vec!["b".to_owned(), "a".to_owned(), "c".to_owned()]);
}

#[test]
fn a_feed_is_unpacked_parsed_deduplicated_and_chunked() {
    let zip_bytes = build_test_zip("list.txt", b"1.1.1.1\n# no\n2.2.2.2\n1.1.1.1\n");
    let batches = prepare(&source("REGEX_LINE", None, "upsert"), &zip_bytes, GENEROUS_LIMIT).expect("a feed");
    assert_eq!(batches.items, 2);
    assert_eq!(batches.chunks, vec![vec!["1.1.1.1".to_owned(), "2.2.2.2".to_owned()]]);

    let many: String = (0..5001u32).map(|i| format!("10.{}.{}.{}\n", i / 65536, (i / 256) % 256, i % 256)).collect();
    let batches = prepare(&source("REGEX_LINE", None, "upsert"), many.as_bytes(), GENEROUS_LIMIT).expect("a feed");
    assert_eq!(batches.items, 5001);
    assert_eq!(batches.chunks.iter().map(|c| c.len()).collect::<Vec<_>>(), vec![5000, 1]);
}

#[test]
fn a_feed_that_cannot_be_read_says_why() {
    let broken = prepare(&source("REGEX_LINE", None, "upsert"), b"PK\x03\x04", GENEROUS_LIMIT).expect_err("broken");
    assert!(broken.contains("zip archive"), "{broken}");
    let unparsed = prepare(&source("JSON_PATH", None, "upsert"), b"[]", GENEROUS_LIMIT).expect_err("no config");
    assert!(!unparsed.is_empty());
    let unknown = prepare(&source("XML", None, "upsert"), b"", GENEROUS_LIMIT).expect_err("unknown parser");
    assert!(unknown.contains("XML"), "{unknown}");
    assert!(body_failure(&DecompressError::EmptyArchive).contains("zip archive contains no files"));
}

#[test]
fn feed_records_name_the_address_and_nothing_else() {
    let records = feed_records(&vec!["1.1.1.1".to_owned()]);
    assert_eq!(records.len(), 1);
    assert_eq!(records[0].target_address, "1.1.1.1");
    assert!(records[0].is_deleted.is_none() && records[0].created_at.is_none());
}

#[test]
fn a_run_is_dated_on_its_source() {
    let ran = external_ingestion::record_run(source("REGEX_LINE", None, "upsert"), NOW);
    assert_eq!(ran.last_run_at, Some(NOW));
    assert_eq!(ran.name, "feed");
}

fn task() -> vault_sync_task::Model {
    vault_sync_task::Model {
        id: 9,
        name: "mirror".to_owned(),
        source_vault_id: 1,
        source_group_name: "from".to_owned(),
        target_group_name: "to".to_owned(),
        cron_schedule: "0 0 * * *".to_owned(),
        last_sync_at: Some(EARLIER),
        mode: "upsert".to_owned(),
        is_active: true,
        owner_key_id: None,
        created_at: EARLIER,
        updated_at: EARLIER,
    }
}

#[test]
fn the_high_water_mark_moves_only_when_every_target_got_everything() {
    assert_eq!(vault_sync::record_run(task(), NOW, true).last_sync_at, Some(NOW));
    assert_eq!(vault_sync::record_run(task(), NOW, false).last_sync_at, Some(EARLIER));
}

#[test]
fn replication_carries_tombstones_and_times() {
    let records = vault_sync::replicate(vec![IpRecordResponse {
        id: 4,
        target_address: "1.1.1.1".to_owned(),
        group_name: "from".to_owned(),
        cause: Some("scan".to_owned()),
        is_deleted: true,
        deleted_at: Some(NOW),
        created_at: Some(EARLIER),
        updated_at: Some(NOW),
        last_seen_at: None,
    }]);
    assert_eq!(records.len(), 1);
    assert_eq!(records[0].target_address, "1.1.1.1");
    assert_eq!(records[0].cause.as_deref(), Some("scan"));
    assert_eq!(records[0].is_deleted, Some(true));
    assert_eq!(records[0].deleted_at, Some(NOW));
    assert_eq!(records[0].created_at, Some(EARLIER));
}

#[test]
fn a_run_without_its_source_vault_fails() {
    assert_eq!(vault_sync::source_missing(1).status, "FAILED");
    let failed = vault_sync::delta_failed("north", &ClientError::Request("timeout".to_owned()), 1);
    let message = failed.error_message.expect("a message");
    assert!(message.contains("north") && message.contains("timeout"), "{message}");
}

fn target(vault_id: u128, name: Option<&str>) -> DeliveryTarget {
    let found = name.map(vault);
    DeliveryTarget::resolve(vault_id, found.as_ref(), None, &"group".to_owned())
}

#[test]
fn every_target_gets_every_chunk_in_order() {
    let mut delivery = Delivery::new(vec![target(1, Some("north")), target(2, Some("south"))], 2, BatchMode::FullReplace);
    let mut seen = Vec::new();
    while let Some(shipment) = delivery.next() {
        seen.push((shipment.target, shipment.chunk, shipment.mode));
        delivery.record(None);
    }
    assert_eq!(
        seen,
        vec![
            (0, 0, BatchMode::FullReplace),
            (0, 1, BatchMode::Upsert),
            (1, 0, BatchMode::FullReplace),
            (1, 1, BatchMode::Upsert),
        ]
    );
    let (summary, all) = delivery.finish(7, 40);
    assert_eq!((summary.status, summary.items_processed, summary.chunks_sent, summary.duration_ms), ("SUCCESS", 7, 4, 40));
    assert!(summary.error_message.is_none() && all);
}

#[test]
fn a_failing_target_does_not_stop_the_others() {
    let mut delivery = Delivery::new(vec![target(1, Some("north")), target(2, Some("south"))], 2, BatchMode::Upsert);
    assert_eq!(delivery.next().map(|s| (s.target, s.chunk)), Some((0, 0)));
    delivery.record(Some("timeout".to_owned()));
    assert_eq!(delivery.next().map(|s| (s.target, s.chunk)), Some((1, 0)));
    delivery.record(None);
    delivery.record(None);
    assert!(delivery.next().is_none());
    let (summary, all) = delivery.finish(3, 1);
    assert_eq!((summary.status, summary.chunks_sent), ("PARTIAL", 2));
    assert_eq!(summary.error_message.as_deref(), Some("vault 'north': timeout"));
    assert!(!all);
}

#[test]
fn a_delivery_that_reaches_nobody_fails() {
    let delivery = Delivery::new(vec![target(0x0102, None)], 1, BatchMode::Upsert);
    assert!(delivery.next().is_none());
    let (summary, all) = delivery.finish(1, 1);
    assert_eq!(summary.status, "FAILED");
    assert_eq!(
        summary.error_message.as_deref(),
        Some("target vault 00000000-0000-0000-0000-000000000102 no longer exists")
    );
    assert!(!all);
}

#[test]
fn the_targets_own_group_comes_first() {
    let own = DeliveryTarget::resolve(1, None, Some("own".to_owned()), &"default".to_owned());
    assert_eq!(own.group_name, "own");
    let delivery = Delivery::new(vec![target(1, Some("north"))], 1, BatchMode::Upsert);
    assert_eq!(delivery.group_name(0), Some("group"));
}

#[test]
fn every_target_keeps_its_group_to_the_end() {
    let north = vault("north");
    let own = DeliveryTarget::resolve(1, Some(&north), Some("own".to_owned()), &"default".to_owned());
    let mut delivery = Delivery::new(vec![own, target(2, None), target(3, Some("south"))], 1, BatchMode::Upsert);
    let mut landed = Vec::new();
    while let Some(shipment) = delivery.next() {
        landed.push((shipment.target, delivery.group_name(shipment.target).map(str::to_owned)));
        delivery.record(None);
    }
    assert_eq!(landed, vec![(0, Some("own".to_owned())), (2, Some("group".to_owned()))]);
    assert_eq!(delivery.group_name(1), Some("group"));
    assert_eq!(delivery.group_name(3), None);
}
