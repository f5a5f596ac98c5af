use exception_collector::collector::{is_database, unreported_in};
use exception_collector::location::{database_name, not_made, DirPlan, Platform};
use exception_collector::storage::{decode_count, format_rfc3339, parse_rfc3339};
use exception_collector::{
    collect_result_err, collect_unreported, compute_signature, exceptions_dir,
    try_collect_result_err, BufferError, CollectorError, DedupEngine, ExceptionBuffer,
    ExceptionKind, ExceptionRecord, FetchedRow, FileContents, PipelineRunner, ReportResult,
    ReportTarget, ScannedFile, StoredRow, Timestamp,
};

fn make_record(component: &str, msg: &str) -> ExceptionRecord {
    ExceptionRecord::new(component, ExceptionKind::Panic, msg, "frame1\nframe2")
}

fn instant(secs: i64) -> Timestamp {
    Timestamp::new(secs, 0).unwrap()
}

/// Rows, as the database hands them out again.
fn fetch(rows: Vec<StoredRow>) -> Vec<FetchedRow> {
    rows.into_iter().map(Ok).collect()
}

fn row(first_seen: &str, count: i64) -> StoredRow {
    StoredRow {
        signature: "sig".to_string(),
        first_seen: first_seen.to_string(),
        last_seen: "2024-02-29T00:00:00Z".to_string(),
        count,
        sample: Ok(make_record("comp", "stored")),
        reported: 0,
    }
}

fn file(name: &str, contents: FileContents) -> ScannedFile {
    let (stem, extension) = name.split_once('.').unwrap();
    ScannedFile {
        extension: Some(extension.to_string()),
        stem: Some(stem.to_string()),
        shown: format!("Some({name:?})"),
        contents,
    }
}

#[test]
fn test_should_upsert_same_signature() {
    let mut buffer = ExceptionBuffer::new();

    let r1 = make_record("comp-a", "same error");
    let r2 = make_record("comp-a", "same error");

    buffer.collect(r1);
    buffer.collect(r2);

    assert_eq!(buffer.len(), 1);
    let sig = compute_signature(&make_record("comp-a", "same error"));
    let agg = buffer.get(&sig).unwrap();
    assert_eq!(agg.count, 2);
}

#[test]
fn test_should_store_distinct_signatures() {
    let mut buffer = ExceptionBuffer::new();

    buffer.collect(make_record("comp-a", "error one"));
    buffer.collect(make_record("comp-b", "error two"));

    assert_eq!(buffer.len(), 2);
}

#[test]
fn test_should_start_empty() {
    let buffer = ExceptionBuffer::new();

    assert!(buffer.is_empty());
    assert_eq!(buffer.len(), 0);
}

#[test]
fn test_should_persist_to_sqlite_and_recover_after_restart() {
    // Phase 1: collect and flush
    let mut before = ExceptionBuffer::new();
    before.collect(make_record("comp-a", "persist me"));
    let rows = before.flush();

    // Phase 2: new buffer, load what was stored
    let mut buffer = ExceptionBuffer::new();
    let loaded = buffer.load(&fetch(rows)).unwrap();

    assert_eq!(loaded.len(), 1);
    assert_eq!(
        loaded[0].signature,
        compute_signature(&make_record("comp-a", "persist me"))
    );
    assert_eq!(loaded[0].count, 1);
    assert_eq!(loaded[0].sample.component, "comp-a");
    assert_eq!(loaded[0].sample.message, "persist me");
    // The loaded data should also be in memory
    assert_eq!(buffer.len(), 1);
}

#[test]
fn test_should_preserve_count_after_flush_and_reload() {
    let mut before = ExceptionBuffer::new();
    before.collect(make_record("comp", "repeated"));
    before.collect(make_record("comp", "repeated"));
    before.collect(make_record("comp", "repeated"));
    let rows = before.flush();

    let mut buffer = ExceptionBuffer::new();
    let loaded = buffer.load(&fetch(rows)).unwrap();
    assert_eq!(loaded.len(), 1);
    assert_eq!(loaded[0].count, 3);
}

#[test]
fn test_should_mark_as_reported() {
    let mut buffer = ExceptionBuffer::new();

    let record = make_record("comp-a", "report me");
    let sig = compute_signature(&record);
    buffer.collect(record);
    buffer.flush();

    buffer.mark_reported(&vec![sig.clone()]);

    // Verify in-memory state
    let agg = buffer.get(&sig).unwrap();
    assert!(agg.sample.reported);
}

#[test]
fn test_should_mark_reported_in_sqlite_too() {
    let record = make_record("comp", "report sqlite");
    let sig = compute_signature(&record);

    // Collect, flush, mark
    let mut before = ExceptionBuffer::new();
    before.collect(record);
    let rows = before.flush();
    before.mark_reported(&vec![sig.clone()]);

    // Reload and verify reported flag is set after marking
    let mut buffer = ExceptionBuffer::new();
    buffer.load(&fetch(rows)).unwrap();
    buffer.mark_reported(&vec![sig.clone()]);
    let agg = buffer.get(&sig).unwrap();
    assert!(agg.sample.reported);
}

#[test]
fn test_should_ignore_missing_signatures_in_mark_reported() {
    let mut buffer = ExceptionBuffer::new();

    // Marking a non-existent signature should succeed without error
    buffer.mark_reported(&vec!["nonexistent_sig".to_string()]);
    assert!(buffer.is_empty());
}

#[test]
fn test_flush_should_be_idempotent() {
    let mut buffer = ExceptionBuffer::new();

    buffer.collect(make_record("comp", "once"));
    let first = buffer.flush();
    let second = buffer.flush();

    // Still only one entry
    assert_eq!(buffer.len(), 1);
    assert_eq!(first.len(), 1);
    assert_eq!(second.len(), 1);
    assert_eq!(first[0].signature, second[0].signature);
    assert_eq!(first[0].last_seen, second[0].last_seen);
}

#[test]
fn test_load_should_merge_into_existing_memory() {
    // Persist one signature
    let mut before = ExceptionBuffer::new();
    before.collect(make_record("comp", "persisted"));
    let rows = before.flush();

    // Create new buffer, add a different entry in memory, then load
    let mut buffer = ExceptionBuffer::new();
    buffer.collect(make_record("comp", "in-memory only"));
    assert_eq!(buffer.len(), 1);

    let loaded = buffer.load(&fetch(rows)).unwrap();
    assert_eq!(loaded.len(), 1); // only the persisted one
                                 // After load, both entries are in memory
    assert_eq!(buffer.len(), 2);
}

#[test]
fn test_collect_unreported_should_handle_nonexistent_dir() {
    let result = collect_unreported(&vec![]).unwrap();
    assert!(result.is_empty());
}

#[test]
fn test_collect_unreported_should_find_records() {
    let mut buffer = ExceptionBuffer::new();
    collect_result_err(&mut buffer, "test-component", "test error");
    let rows = buffer.flush();

    let files = vec![file("test-component.db", FileContents::Rows(fetch(rows)))];
    let results = collect_unreported(&files).unwrap();
    assert_eq!(results.len(), 1);
    let (component, records) = &results[0];
    assert_eq!(component, "test-component");
    assert_eq!(records.len(), 1);
    assert_eq!(records[0].message, "test error");
}

#[test]
fn test_collect_result_err_should_compute_signature() {
    let mut buffer = ExceptionBuffer::new();

    collect_result_err(&mut buffer, "comp", "something broke");
    let samples = buffer.unreported_samples();
    assert_eq!(samples.len(), 1);
    assert!(!samples[0].dedup_signature.is_empty());
    assert_eq!(uuid::Uuid::from_u128(samples[0].id).get_version_num(), 4);
    let sig1 = samples[0].dedup_signature.clone();

    collect_result_err(&mut buffer, "comp", "something broke");
    let samples2 = buffer.unreported_samples();
    assert_eq!(samples2.len(), 1);
    assert_eq!(samples2[0].dedup_signature, sig1);
}

#[test]
fn test_should_detect_duplicate_by_signature() {
    let mut buffer = ExceptionBuffer::new();

    let record = make_record("comp-a", "same error");
    buffer.collect(record);

    let engine = DedupEngine::new(&buffer);
    let sig = compute_signature(&make_record("comp-a", "same error"));
    assert!(engine.is_duplicate(&sig));
}

#[test]
fn test_should_not_detect_nonexistent_signature() {
    let buffer = ExceptionBuffer::new();
    let engine = DedupEngine::new(&buffer);

    assert!(!engine.is_duplicate("nonexistent_signature_here"));
}

#[test]
fn test_should_count_distinct_signatures() {
    let mut buffer = ExceptionBuffer::new();

    buffer.collect(make_record("comp-a", "error one"));
    buffer.collect(make_record("comp-b", "error two"));
    buffer.collect(make_record("comp-a", "error one")); // duplicate

    let engine = DedupEngine::new(&buffer);
    assert_eq!(engine.distinct_count(), 2);
}

#[test]
fn test_should_count_zero_when_empty() {
    let buffer = ExceptionBuffer::new();
    let engine = DedupEngine::new(&buffer);

    assert_eq!(engine.distinct_count(), 0);
}

#[test]
fn test_should_return_correct_pending_batch() {
    let mut buffer = ExceptionBuffer::new();

    buffer.collect(make_record("comp-a", "error one"));
    buffer.collect(make_record("comp-b", "error two"));

    let engine = DedupEngine::new(&buffer);
    let pending = engine.pending_batch();
    assert_eq!(pending.len(), 2);
}

#[test]
fn test_should_not_include_reported_in_pending_batch() {
    let mut buffer = ExceptionBuffer::new();

    let r1 = make_record("comp-a", "error one");
    let r2 = make_record("comp-b", "error two");
    buffer.collect(r1.clone());
    buffer.collect(r2.clone());
    buffer.flush();

    let sig1 = compute_signature(&r1);
    buffer.mark_reported(&vec![sig1]);

    let engine = DedupEngine::new(&buffer);
    let pending = engine.pending_batch();
    assert_eq!(pending.len(), 1);
    assert_eq!(pending[0].component, "comp-b");
}

#[test]
fn test_should_return_empty_pending_when_all_reported() {
    let mut buffer = ExceptionBuffer::new();

    let r = make_record("comp", "reported");
    buffer.collect(r.clone());
    buffer.flush();

    let sig = compute_signature(&r);
    buffer.mark_reported(&vec![sig]);

    let engine = DedupEngine::new(&buffer);
    let pending = engine.pending_batch();
    assert!(pending.is_empty());
}

#[test]
fn test_should_return_empty_pending_when_buffer_empty() {
    let buffer = ExceptionBuffer::new();
    let engine = DedupEngine::new(&buffer);

    let pending = engine.pending_batch();
    assert!(pending.is_empty());
}

#[test]
fn repeats_move_the_latest_time_and_keep_the_first_sample() {
    let mut buffer = ExceptionBuffer::new();
    let first = make_record("comp", "first");
    let id = first.id;
    buffer.collect_signed(first, "sig".to_string(), instant(100));
    buffer.collect_signed(make_record("comp", "other"), "else".to_string(), instant(150));
    buffer.collect_signed(make_record("comp", "second"), "sig".to_string(), instant(200));
    let agg = buffer.get("sig").unwrap();
    assert_eq!(agg.count, 2);
    assert_eq!(agg.first_seen, instant(100));
    assert_eq!(agg.last_seen, instant(200));
    assert_eq!(agg.sample.id, id);
    assert_eq!(buffer.get("else").unwrap().count, 1);
    assert!(buffer.get("neither").is_none());
    assert!(buffer.contains_signature("else"));
    assert!(!buffer.contains_signature("neither"));
}

#[test]
fn distinct_signatures_may_come_in_any_order() {
    let one = make_record("a", "x");
    let two = make_record("b", "y");
    let mut forth = ExceptionBuffer::new();
    forth.collect_signed(one.clone(), "s1".to_string(), instant(1));
    forth.collect_signed(two.clone(), "s2".to_string(), instant(2));
    let mut back = ExceptionBuffer::new();
    back.collect_signed(two, "s2".to_string(), instant(2));
    back.collect_signed(one, "s1".to_string(), instant(1));
    assert_eq!(forth.len(), back.len());
    for signature in ["s1", "s2"] {
        assert_eq!(
            format!("{:?}", forth.get(signature)),
            format!("{:?}", back.get(signature))
        );
    }
}

#[test]
fn marking_again_or_the_unknown_changes_nothing() {
    let mut buffer = ExceptionBuffer::new();
    buffer.collect_signed(make_record("a", "x"), "s1".to_string(), instant(1));
    buffer.collect_signed(make_record("a", "y"), "s2".to_string(), instant(2));
    buffer.mark_reported(&vec!["s1".to_string(), "s3".to_string(), "s1".to_string()]);
    let once = format!("{:?} {:?}", buffer.get("s1"), buffer.get("s2"));
    buffer.mark_reported(&vec!["s1".to_string()]);
    assert_eq!(once, format!("{:?} {:?}", buffer.get("s1"), buffer.get("s2")));
    assert!(buffer.get("s3").is_none());
    assert_eq!(buffer.get("s1").unwrap().count, 1);
    assert_eq!(buffer.unreported_samples().len(), 1);
}

#[test]
fn counts_end_where_no_more_can_be_counted() {
    let mut buffer = ExceptionBuffer::new();
    let record = make_record("comp", "often");
    assert!(buffer.try_collect(record.clone()));
    let mut rows = buffer.flush();
    rows[0].count = i64::from(u32::MAX) - 1;
    buffer.load(&fetch(rows)).unwrap();
    assert!(buffer.try_collect(record.clone()));
    assert!(!buffer.try_collect(record.clone()));
    assert_eq!(buffer.get(&compute_signature(&record)).unwrap().count, u32::MAX);

    let mut errors = ExceptionBuffer::new();
    assert!(try_collect_result_err(&mut errors, "comp", "boom"));
    let mut rows = errors.flush();
    rows[0].count = -1;
    errors.load(&fetch(rows)).unwrap();
    assert!(!try_collect_result_err(&mut errors, "comp", "boom"));
    assert!(try_collect_result_err(&mut errors, "comp", "bang"));
}

#[test]
fn a_restart_restores_all_but_nothing_else() {
    let mut buffer = ExceptionBuffer::new();
    buffer.collect_signed(make_record("a", "x"), "s1".to_string(), Timestamp::new(59, 1_999_999_999).unwrap());
    buffer.collect_signed(make_record("b", "y"), "s2".to_string(), Timestamp::new(1_700_000_000, 1).unwrap());
    buffer.collect_signed(make_record("b", "y"), "s2".to_string(), Timestamp::new(1_700_000_060, 120_000_000).unwrap());
    buffer.mark_reported(&vec!["s1".to_string()]);
    let rows = buffer.flush();
    assert_eq!(rows.len(), 2);
    for row in &rows {
        assert_eq!(row.reported, if row.signature == "s1" { 1 } else { 0 });
    }
    let mut restarted = ExceptionBuffer::new();
    restarted.load(&fetch(rows)).unwrap();
    assert_eq!(restarted.len(), 2);
    for signature in ["s1", "s2"] {
        let old = buffer.get(signature).unwrap();
        let new = restarted.get(signature).unwrap();
        assert_eq!(format!("{old:?}"), format!("{new:?}"));
    }
    assert!(restarted.get("s1").unwrap().sample.reported);
    assert_eq!(restarted.unreported_samples().len(), 1);
}

#[test]
fn loading_overwrites_what_stands_under_the_same_signature() {
    let mut buffer = ExceptionBuffer::new();
    buffer.collect_signed(make_record("comp", "memory"), "sig".to_string(), instant(5));
    buffer.load(&fetch(vec![row("2024-01-01T00:00:00Z", 9)])).unwrap();
    let agg = buffer.get("sig").unwrap();
    assert_eq!(agg.count, 9);
    assert_eq!(agg.sample.message, "stored");
    assert_eq!(agg.first_seen, instant(1_704_067_200));
}

#[test]
fn rows_that_cannot_be_read_are_errors_and_load_nothing() {
    let good = row("2024-01-01T00:00:00Z", 1);
    let mut bad_sample = good.clone();
    bad_sample.sample = Err("expected value".to_string());
    let mut bad_time = good.clone();
    bad_time.last_seen = "yesterday".to_string();
    let mut buffer = ExceptionBuffer::new();
    match buffer.load(&vec![Ok(good.clone()), Ok(bad_sample), Ok(bad_time.clone())]) {
        Err(BufferError::SerdeJson(message)) => assert_eq!(message, "expected value"),
        other => panic!("expected an error, got {other:?}"),
    }
    match buffer.load(&vec![Ok(bad_time)]) {
        Err(e) => assert_eq!(
            e.to_string(),
            "sqlite buffer error: premature end of input"
        ),
        other => panic!("expected an error, got {other:?}"),
    }
    match buffer.load(&vec![Err("disk I/O error".to_string())]) {
        Err(e) => assert_eq!(e.to_string(), "sqlite buffer error: disk I/O error"),
        other => panic!("expected an error, got {other:?}"),
    }
    assert!(buffer.is_empty());
    assert_eq!(
        BufferError::Poisoned("p".to_string()).to_string(),
        "internal mutex poisoned: p"
    );
    assert_eq!(
        BufferError::SerdeJson("p".to_string()).to_string(),
        "json buffer error: p"
    );
}

#[test]
fn stored_counts_out_of_range_are_as_many_as_can_be() {
    assert_eq!(decode_count(0), 0);
    assert_eq!(decode_count(7), 7);
    assert_eq!(decode_count(i64::from(u32::MAX)), u32::MAX);
    assert_eq!(decode_count(i64::from(u32::MAX) + 1), u32::MAX);
    assert_eq!(decode_count(-1), u32::MAX);
}

#[test]
fn instants_are_written_and_read_in_rfc_3339() {
    assert_eq!(
        format_rfc3339(&Timestamp::new(1_700_000_000, 5_000_000).unwrap()),
        "2023-11-14T22:13:20.005+00:00"
    );
    for (secs, nanos) in [
        (0, 0),
        (-1, 999_999_999),
        (59, 1_000_000_000),
        (-62_167_219_200, 1),
        (253_402_300_799, 999_999_999),
        (253_402_300_799, 1_999_999_999),
    ] {
        let instant = Timestamp::new(secs, nanos).unwrap();
        assert_eq!(parse_rfc3339(&format_rfc3339(&instant)).unwrap(), instant);
    }
    assert_eq!(
        parse_rfc3339("2023-11-15T00:13:20+02:00").unwrap(),
        instant(1_700_000_000)
    );
    match parse_rfc3339("") {
        Err(CollectorError::Sqlite(message)) => assert_eq!(message, "premature end of input"),
        other => panic!("expected an error, got {other:?}"),
    }
    let late = Timestamp::new(253_402_300_800, 0).unwrap();
    assert!(parse_rfc3339(&format_rfc3339(&late)).is_err());
}

#[test]
fn rows_marked_as_reported_are_skipped() {
    let mut marked = row("2024-01-01T00:00:00Z", 1);
    marked.reported = 1;
    marked.sample = Err("not even read".to_string());
    let mut fresh = row("2024-01-01T00:00:00Z", 1);
    fresh.signature = "fresh".to_string();
    let rows = vec![Ok(marked.clone()), Ok(fresh)];
    assert_eq!(unreported_in(&rows).len(), 1);
    assert!(unreported_in(&vec![Ok(marked)]).is_empty());
    let mut sample_reported = row("2024-01-01T00:00:00Z", 1);
    sample_reported.sample = Ok({
        let mut sample = make_record("c", "m");
        sample.reported = true;
        sample
    });
    assert!(unreported_in(&vec![Ok(sample_reported)]).is_empty());
}

#[test]
fn rows_marked_as_reported_are_loaded_as_reported() {
    let mut marked = row("2024-01-01T00:00:00Z", 1);
    marked.reported = 1;
    let mut buffer = ExceptionBuffer::new();
    let loaded = buffer.load(&fetch(vec![marked])).unwrap();
    assert!(loaded[0].sample.reported);
    assert!(buffer.get("sig").unwrap().sample.reported);
    assert!(buffer.unreported_samples().is_empty());
}

#[test]
fn a_flush_after_a_mark_keeps_the_mark() {
    let mut buffer = ExceptionBuffer::new();
    let record = ExceptionRecord::new("comp-a", ExceptionKind::Panic, "old error", "");
    let signature = compute_signature(&record);
    buffer.collect(record);
    assert_eq!(buffer.flush()[0].reported, 0);
    buffer.mark_reported(&vec![signature]);
    let rows = buffer.flush();
    assert_eq!(rows[0].reported, 1);
    assert!(unreported_in(&fetch(rows)).is_empty());
}

#[test]
fn a_mix_of_exceptions_is_counted_by_signature() {
    let mut buffer = ExceptionBuffer::new();
    for i in 0..100 {
        let message = ["a", "b", "c"][i % 3];
        buffer.collect(make_record("comp", message));
    }
    assert_eq!(buffer.len(), 3);
    for (message, count) in [("a", 34), ("b", 33), ("c", 33)] {
        let signature = compute_signature(&make_record("comp", message));
        assert_eq!(buffer.get(&signature).unwrap().count, count);
    }
}

#[test]
fn only_databases_with_news_are_listed() {
    let rows = || fetch(vec![row("2024-01-01T00:00:00Z", 1)]);
    let unnamed = ScannedFile {
        extension: Some("db".to_string()),
        stem: None,
        shown: "Some(\"?.db\")".to_string(),
        contents: FileContents::Rows(rows()),
    };
    let bare = ScannedFile {
        extension: None,
        stem: Some("db".to_string()),
        shown: "Some(\"db\")".to_string(),
        contents: FileContents::Rows(rows()),
    };
    let files = vec![
        file("notes.txt", FileContents::Rows(rows())),
        file("broken.txt", FileContents::NotOpened("x".to_string())),
        file("empty.db", FileContents::Rows(vec![])),
        file("unread.db", FileContents::NotQueried),
        file("unreadable.db", FileContents::Rows(fetch(vec![row("never", 1)]))),
        file("skipped.db", FileContents::NotLookedAt),
        file("a.db", FileContents::Rows(rows())),
        bare,
        unnamed,
    ];
    let found = collect_unreported(&files).unwrap();
    assert_eq!(found.len(), 2);
    assert_eq!(found[0].0, "a");
    assert_eq!(found[0].1[0].message, "stored");
    assert_eq!(found[1].0, "unknown");
    assert!(is_database(&Some("db".to_string())));
    assert!(!is_database(&Some("DB".to_string())));
    assert!(!is_database(&None));
}

#[test]
fn the_first_database_that_cannot_be_opened_is_the_error() {
    let files = vec![
        file("a.db", FileContents::Rows(vec![])),
        file("b.db", FileContents::NotOpened("sqlite buffer error: locked".to_string())),
        file("c.db", FileContents::NotOpened("other".to_string())),
    ];
    match collect_unreported(&files) {
        Err(CollectorError::Reporter { reason }) => assert_eq!(
            reason,
            "failed to open Some(\"b.db\"): sqlite buffer error: locked"
        ),
        other => panic!("expected an error, got {other:?}"),
    }
}

#[test]
fn a_cycle_reports_all_that_waits() {
    let runner = PipelineRunner::new();
    let mut buffer = ExceptionBuffer::new();
    assert!(runner.trigger_now(&buffer).is_none());
    buffer.collect_signed(make_record("a", "x"), "s1".to_string(), instant(1));
    buffer.collect_signed(make_record("a", "y"), "s2".to_string(), instant(2));
    let pending = runner.trigger_now(&buffer).unwrap();
    assert_eq!(pending.batch.records.len(), 2);
    assert_eq!(pending.batch.component, "a");
    assert_eq!(uuid::Uuid::from_u128(pending.batch.id).get_version_num(), 4);
    assert_eq!(
        pending.batch.target,
        ReportTarget::GitHub {
            repo: String::new(),
            issue_url: String::new()
        }
    );
    let mut signatures = pending.signatures.clone();
    signatures.sort();
    assert_eq!(signatures, vec!["s1".to_string(), "s2".to_string()]);

    let failed = Ok(ReportResult::Failed {
        reason: "down".to_string(),
        retry_at: instant(3),
    });
    assert!(runner.settle(&mut buffer, &pending, failed).is_ok());
    assert_eq!(buffer.unreported_samples().len(), 2);
    let some = Ok(ReportResult::Partial { reported_count: 1 });
    assert!(runner.settle(&mut buffer, &pending, some).is_ok());
    assert_eq!(buffer.unreported_samples().len(), 2);
    let error = Err(CollectorError::Reporter {
        reason: "r".to_string(),
    });
    assert!(runner.settle(&mut buffer, &pending, error).is_err());
    assert_eq!(buffer.unreported_samples().len(), 2);

    let all = Ok(ReportResult::Partial { reported_count: 2 });
    assert!(runner.settle(&mut buffer, &pending, all).is_ok());
    assert!(runner.trigger_now(&buffer).is_none());
    assert_eq!(buffer.len(), 2);

    buffer.collect_signed(make_record("a", "z"), "s3".to_string(), instant(4));
    let pending = runner.trigger_now(&buffer).unwrap();
    assert_eq!(pending.signatures, vec!["s3".to_string()]);
    let success = Ok(ReportResult::Success);
    assert!(runner.settle(&mut buffer, &pending, success).is_ok());
    assert!(buffer.unreported_samples().is_empty());
}

#[test]
fn databases_stand_where_the_environment_or_the_platform_says() {
    assert!(matches!(
        exceptions_dir(true, Platform::Unix, false),
        Ok(DirPlan::AsConfigured)
    ));
    match exceptions_dir(false, Platform::Unix, true) {
        Ok(DirPlan::BelowBase(names)) => assert_eq!(
            names,
            vec![".tokenfleet-ai".to_string(), "exceptions".to_string()]
        ),
        other => panic!("expected names, got {other:?}"),
    }
    match exceptions_dir(false, Platform::Windows, true) {
        Ok(DirPlan::BelowBase(names)) => assert_eq!(
            names,
            vec!["tokenfleet-ai".to_string(), "exceptions".to_string()]
        ),
        other => panic!("expected names, got {other:?}"),
    }
    for (platform, reason) in [
        (Platform::Unix, "cannot determine home directory"),
        (Platform::Windows, "cannot determine APPDATA directory"),
    ] {
        match exceptions_dir(false, platform, false) {
            Err(BufferError::Poisoned(message)) => assert_eq!(message, reason),
            other => panic!("expected an error, got {other:?}"),
        }
    }
    assert_eq!(database_name("switch"), "switch.db");
    assert_eq!(
        not_made(&DirPlan::AsConfigured, "/d", "denied"),
        BufferError::Poisoned("cannot create exceptions dir /d: denied".to_string())
    );
    assert_eq!(
        not_made(&DirPlan::BelowBase(vec![]), "/d", "denied"),
        BufferError::Poisoned("cannot create exception buffer directory /d: denied".to_string())
    );
}
