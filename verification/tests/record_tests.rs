use exception_collector::record::truncate_chars;
use exception_collector::{
    AggregatedException, BatchStatus, CollectorError, ExceptionBatch, ExceptionKind,
    ExceptionRecord, ReportResult, ReportTarget, Timestamp,
};

fn instant() -> Timestamp {
    Timestamp::new(1_700_000_000, 123_456_789).unwrap()
}

#[test]
fn test_exception_kind_should_have_three_variants() {
    let panic = ExceptionKind::Panic;
    let error_log = ExceptionKind::ErrorLog;
    let result_err = ExceptionKind::ResultErr;

    assert_ne!(panic, error_log);
    assert_ne!(panic, result_err);
    assert_ne!(error_log, result_err);
}

#[test]
fn test_exception_kind_should_be_copy() {
    let kind = ExceptionKind::Panic;
    let copied = kind;
    assert_eq!(kind, copied);
}

#[test]
fn test_exception_kind_should_display_correctly() {
    assert_eq!(ExceptionKind::Panic.to_string(), "panic");
    assert_eq!(ExceptionKind::ErrorLog.to_string(), "error_log");
    assert_eq!(ExceptionKind::ResultErr.to_string(), "result_err");
}

#[test]
fn test_exception_record_should_create_with_defaults() {
    let record = ExceptionRecord::new("test-component", ExceptionKind::Panic, "test message", "");

    assert_eq!(record.component, "test-component");
    assert_eq!(record.kind, ExceptionKind::Panic);
    assert_eq!(record.message, "test message");
    assert!(record.stacktrace.is_empty());
    assert!(record.span_chain.is_empty());
    assert!(record.module.is_none());
    assert!(record.location.is_none());
    assert!(!record.reported);
    assert!(record.duplicate_of.is_none());
    assert!(record.dedup_signature.is_empty());
}

#[test]
fn test_exception_record_should_truncate_long_message() {
    let long_message = "x".repeat(600);
    let record = ExceptionRecord::new("comp", ExceptionKind::ErrorLog, long_message.as_str(), "");

    assert_eq!(record.message.len(), 500);
}

#[test]
fn test_exception_record_should_not_truncate_short_message() {
    let record = ExceptionRecord::new("comp", ExceptionKind::ErrorLog, "short", "");

    assert_eq!(record.message, "short");
}

#[test]
fn test_exception_record_should_not_truncate_exact_500_message() {
    let exact_message = "a".repeat(500);
    let record = ExceptionRecord::new("comp", ExceptionKind::ErrorLog, exact_message.as_str(), "");

    assert_eq!(record.message.len(), 500);
}

#[test]
fn test_exception_record_should_have_unique_ids() {
    let r1 = ExceptionRecord::new("comp", ExceptionKind::Panic, "msg1", "");
    let r2 = ExceptionRecord::new("comp", ExceptionKind::Panic, "msg2", "");

    assert_ne!(r1.id, r2.id);
}

#[test]
fn test_aggregated_exception_should_track_count() {
    let sample = ExceptionRecord::new("comp", ExceptionKind::Panic, "msg", "");
    let now = instant();
    let agg = AggregatedException {
        signature: "sig_abc".to_string(),
        first_seen: now,
        last_seen: now,
        count: 5,
        sample,
    };

    assert_eq!(agg.count, 5);
    assert_eq!(agg.signature, "sig_abc");
    assert_eq!(agg.first_seen, agg.last_seen);
}

#[test]
fn test_aggregated_exception_should_be_cloneable() {
    let sample = ExceptionRecord::new("comp", ExceptionKind::Panic, "msg", "");
    let now = instant();
    let agg = AggregatedException {
        signature: "sig".to_string(),
        first_seen: now,
        last_seen: now,
        count: 1,
        sample,
    };
    let cloned = agg.clone();

    assert_eq!(cloned.signature, agg.signature);
    assert_eq!(cloned.count, agg.count);
    assert_eq!(cloned.first_seen, agg.first_seen);
}

#[test]
fn test_exception_batch_should_create_with_pending_status() {
    let records = vec![ExceptionRecord::new("comp", ExceptionKind::Panic, "msg", "")];
    let target = ReportTarget::GitHub {
        repo: "owner/repo".to_string(),
        issue_url: String::new(),
    };
    let batch = ExceptionBatch::new("comp", records, target);

    assert_eq!(batch.component, "comp");
    assert_eq!(batch.records.len(), 1);
    assert_eq!(batch.status, BatchStatus::Pending);
}

#[test]
fn test_exception_batch_should_have_unique_ids() {
    let target = ReportTarget::GitHub {
        repo: "owner/repo".to_string(),
        issue_url: String::new(),
    };
    let b1 = ExceptionBatch::new("comp", vec![], target.clone());
    let b2 = ExceptionBatch::new("comp", vec![], target);

    assert_ne!(b1.id, b2.id);
}

#[test]
fn test_report_target_should_create_github_variant() {
    let target = ReportTarget::GitHub {
        repo: "TokenFleet-AI/token-fleet-switch".to_string(),
        issue_url: "https://github.com/TokenFleet-AI/token-fleet-switch/issues/1".to_string(),
    };
    match &target {
        ReportTarget::GitHub { repo, issue_url } => {
            assert_eq!(repo, "TokenFleet-AI/token-fleet-switch");
            assert!(!issue_url.is_empty());
        }
        ReportTarget::CustomPlatform { .. } => panic!("expected GitHub variant"),
    }
}

#[test]
fn test_report_target_should_create_custom_platform_variant() {
    let target = ReportTarget::CustomPlatform {
        endpoint: "https://exceptions.example.com".to_string(),
    };
    match &target {
        ReportTarget::CustomPlatform { endpoint } => {
            assert_eq!(endpoint, "https://exceptions.example.com");
        }
        ReportTarget::GitHub { .. } => panic!("expected CustomPlatform variant"),
    }
}

#[test]
fn test_report_target_should_support_equality() {
    let t1 = ReportTarget::GitHub {
        repo: "owner/repo".to_string(),
        issue_url: String::new(),
    };
    let t2 = ReportTarget::GitHub {
        repo: "owner/repo".to_string(),
        issue_url: String::new(),
    };
    let t3 = ReportTarget::CustomPlatform {
        endpoint: "https://example.com".to_string(),
    };

    assert_eq!(t1, t2);
    assert_ne!(t1, t3);
}

#[test]
fn test_batch_status_should_have_three_variants() {
    let pending = BatchStatus::Pending;
    let reported = BatchStatus::Reported;
    let failed = BatchStatus::Failed {
        reason: "network error".to_string(),
        retry_at: instant(),
    };

    assert_eq!(pending, BatchStatus::Pending);
    assert_eq!(reported, BatchStatus::Reported);
    assert_ne!(pending, reported);
    match &failed {
        BatchStatus::Failed { reason, .. } => {
            assert_eq!(reason, "network error");
        }
        _ => panic!("expected Failed variant"),
    }
}

#[test]
fn test_report_result_should_have_three_variants() {
    let success = ReportResult::Success;
    let partial = ReportResult::Partial { reported_count: 3 };
    let failed = ReportResult::Failed {
        reason: "timeout".to_string(),
        retry_at: instant(),
    };

    match success {
        ReportResult::Success => {}
        _ => panic!("expected Success"),
    }
    match partial {
        ReportResult::Partial { reported_count } => assert_eq!(reported_count, 3),
        _ => panic!("expected Partial"),
    }
    match failed {
        ReportResult::Failed { reason, .. } => assert_eq!(reason, "timeout"),
        _ => panic!("expected Failed"),
    }
}

#[test]
fn test_report_result_should_be_cloneable() {
    let result = ReportResult::Partial { reported_count: 5 };
    let cloned = result.clone();

    match cloned {
        ReportResult::Partial { reported_count } => assert_eq!(reported_count, 5),
        _ => panic!("expected Partial after clone"),
    }
}

#[test]
fn test_collector_error_should_display_io_error() {
    let err = CollectorError::Io {
        source: "not found".to_string(),
        path: "/foo/bar.toml".to_string(),
    };
    let display = err.to_string();

    assert!(display.contains("/foo/bar.toml"), "got: {display}");
}

#[test]
fn test_collector_error_should_display_toml_parse_error() {
    let toml_err = toml::from_str::<toml::Table>("bad").expect_err("should fail to parse");
    let err = CollectorError::TomlParse {
        source: toml_err.to_string(),
        path: "/foo/bar.toml".to_string(),
    };
    let display = err.to_string();

    assert!(display.contains("/foo/bar.toml"), "got: {display}");
}

#[test]
fn each_error_shows_its_label() {
    let cases = vec![
        (
            CollectorError::Io {
                source: "s".to_string(),
                path: "p".to_string(),
            },
            "failed to read file: p",
        ),
        (
            CollectorError::TomlParse {
                source: "s".to_string(),
                path: "p".to_string(),
            },
            "failed to parse TOML: p",
        ),
        (CollectorError::Sqlite("m".to_string()), "sqlite error: m"),
        (CollectorError::SerdeJson("m".to_string()), "json error: m"),
        (
            CollectorError::Command {
                message: "m".to_string(),
                source: "s".to_string(),
            },
            "command error: m",
        ),
        (
            CollectorError::Http {
                message: "m".to_string(),
                source: "s".to_string(),
            },
            "http error: m",
        ),
        (
            CollectorError::Reporter {
                reason: "m".to_string(),
            },
            "reporter error: m",
        ),
    ];
    for (error, text) in cases {
        assert_eq!(error.to_string(), text);
    }
}

#[test]
fn messages_are_cut_by_characters() {
    let long = "错".repeat(501);
    let record = ExceptionRecord::new("comp", ExceptionKind::Panic, &long, "");
    assert_eq!(record.message.chars().count(), 500);
    assert_eq!(record.message, "错".repeat(500));
    assert_eq!(truncate_chars("añb", 2), "añ");
    assert_eq!(truncate_chars("añb", 3), "añb");
    assert_eq!(truncate_chars("", 0), "");
}

#[test]
fn ids_are_random_uuids() {
    let record = ExceptionRecord::new("comp", ExceptionKind::Panic, "m", "");
    let id = uuid::Uuid::from_u128(record.id);
    assert_eq!(id.get_version_num(), 4);
    assert_eq!(id.get_variant(), uuid::Variant::RFC4122);
}

#[test]
fn clones_of_records_keep_every_field() {
    let mut record = ExceptionRecord::new("comp", ExceptionKind::Panic, "m", "s");
    record.span_chain = vec!["outer".to_string(), "inner".to_string()];
    record.module = Some("my::module".to_string());
    record.location = Some("src/main.rs:42".to_string());
    record.dedup_signature = "sig".to_string();
    record.reported = true;
    record.duplicate_of = Some("url".to_string());
    let copy = record.clone();
    assert_eq!(format!("{copy:?}"), format!("{record:?}"));
}

#[test]
fn clones_of_batches_keep_every_field() {
    let record = ExceptionRecord::new("comp", ExceptionKind::Panic, "m", "s");
    let target = ReportTarget::CustomPlatform {
        endpoint: "https://e".to_string(),
    };
    let mut batch = ExceptionBatch::new("comp", vec![record], target);
    batch.status = BatchStatus::Failed {
        reason: "r".to_string(),
        retry_at: instant(),
    };
    assert_eq!(format!("{:?}", batch.clone()), format!("{batch:?}"));
}

#[test]
fn repeats_count_and_keep_the_sample() {
    let first = ExceptionRecord::new("comp", ExceptionKind::Panic, "m", "s");
    let id = first.id;
    let now = instant();
    let later = now.plus_minutes(5);
    let mut agg = AggregatedException::first("sig".to_string(), now, first);
    assert_eq!(agg.count, 1);
    agg.seen_again(later);
    assert_eq!(agg.count, 2);
    assert_eq!(agg.first_seen, now);
    assert_eq!(agg.last_seen, later);
    assert_eq!(agg.sample.id, id);
    assert!(!agg.sample.reported);
    let agg = agg.into_marked();
    assert_eq!(agg.count, 2);
    assert!(agg.sample.reported);
}
