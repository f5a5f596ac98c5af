use exception_collector::github::{conclude, settle, Reported};
use exception_collector::issue::{build_body, build_comment};
use exception_collector::time::MAX_SECS;
use exception_collector::title::issue_title;
use exception_collector::{
    build_issue_body, record_json, truncate_for_title, CollectorError, CustomPlatformReporter,
    ExceptionBatch, ExceptionKind, ExceptionRecord, GhCommand, GhOutcome, GhTask, GitHubReporter,
    PostOutcome, ReportResult, ReportTarget, Timestamp,
};

fn make_record(message: &str) -> ExceptionRecord {
    ExceptionRecord::new(
        "test-comp",
        ExceptionKind::ErrorLog,
        message,
        "stack trace line",
    )
}

/// A record of 14 November 2023, 22:13:20.5 UTC.
fn fixed_record(message: &str) -> ExceptionRecord {
    ExceptionRecord::of_instant(
        0x0123_4567_89ab_cdef_0123_4567_89ab_cdef,
        instant(),
        "test-comp",
        ExceptionKind::Panic,
        message,
        "frame",
    )
}

fn instant() -> Timestamp {
    Timestamp::new(1_700_000_000, 500_000_000).unwrap()
}

fn github(records: Vec<ExceptionRecord>) -> ExceptionBatch {
    ExceptionBatch::new(
        "test-comp",
        records,
        ReportTarget::GitHub {
            repo: "owner/repo".to_string(),
            issue_url: String::new(),
        },
    )
}

fn done(stdout: &str) -> GhOutcome {
    GhOutcome::Exited {
        success: true,
        stdout: stdout.as_bytes().to_vec(),
        stderr: vec![],
    }
}

fn broken(stderr: &[u8]) -> GhOutcome {
    GhOutcome::Exited {
        success: false,
        stdout: vec![],
        stderr: stderr.to_vec(),
    }
}

fn comment(url: &str) -> GhCommand {
    GhCommand {
        task: GhTask::Comment {
            url: url.to_string(),
        },
        args: vec![],
    }
}

fn create() -> GhCommand {
    GhCommand {
        task: GhTask::Create,
        args: vec![],
    }
}

#[test]
fn test_github_reporter_should_create() {
    let reporter = GitHubReporter::new();
    let _ = reporter;
}

#[test]
fn test_github_reporter_should_be_send_sync() {
    fn assert_send_sync<T: Send + Sync>() {}
    assert_send_sync::<GitHubReporter>();
}

#[test]
fn test_custom_platform_reporter_should_create() {
    let reporter = CustomPlatformReporter::new("https://example.com");
    assert!(reporter.endpoint.contains("example.com"));
}

#[test]
fn test_custom_platform_reporter_should_be_cloneable() {
    let reporter = CustomPlatformReporter::new("https://example.com");
    let cloned = reporter.clone();
    assert_eq!(cloned.endpoint, "https://example.com");
}

#[test]
fn test_custom_platform_reporter_check_available_should_return_true() {
    let reporter = CustomPlatformReporter::new("https://example.com");
    assert!(reporter.check_available());
}

#[test]
fn test_custom_platform_reporter_check_available_should_return_false_for_empty() {
    let reporter = CustomPlatformReporter::new("");
    assert!(!reporter.check_available());
}

#[test]
fn test_truncate_for_title_should_keep_short_messages() {
    assert_eq!(truncate_for_title("short", 80), "short");
}

#[test]
fn test_truncate_for_title_should_truncate_long_messages() {
    let long = "x".repeat(100);
    let result = truncate_for_title(&long, 80);
    assert_eq!(result.len(), 80);
}

#[test]
fn test_build_issue_body_should_include_component_and_message() {
    let mut record = make_record("test error message");
    record.module = Some("my::module".to_string());
    record.location = Some("src/main.rs:42".to_string());

    let body = build_issue_body(&record);
    assert!(body.contains("test error message"));
    assert!(body.contains("test-comp"));
    assert!(body.contains("my::module"));
    assert!(body.contains("src/main.rs:42"));
}

#[test]
fn titles_are_cut_by_bytes_between_characters() {
    let message = "错".repeat(27);
    assert_eq!(message.len(), 81);
    assert_eq!(truncate_for_title(&message, 78), "错".repeat(26));
    assert_eq!(truncate_for_title(&message, 79), "错".repeat(26));
    assert_eq!(truncate_for_title(&message, 80), "错".repeat(26));
    assert_eq!(truncate_for_title(&message, 81), message);
    assert_eq!(truncate_for_title("abc", 0), "");
    assert_eq!(truncate_for_title("é", 1), "");
    assert_eq!(truncate_for_title("aé€😀z", 10), "aé€😀");
    assert_eq!(truncate_for_title("aé€😀z", 9), "aé€");
    assert_eq!(truncate_for_title("aé€😀z", 5), "aé");
    assert_eq!(truncate_for_title("aé€😀z", 11), "aé€😀z");
    let record = fixed_record(&"y".repeat(90));
    assert_eq!(
        issue_title(&record),
        format!("[test-comp] panic: {}", "y".repeat(80))
    );
}

#[test]
fn issues_tell_what_is_known() {
    let record = fixed_record("boom");
    assert_eq!(
        build_issue_body(&record),
        "## 异常摘要\nboom\n\n## 堆栈\n```\nframe\n```\n\n## 影响范围\n- 组件: test-comp\n- 模块: unknown\n- 位置: unknown\n- 时间: 2023-11-14 22:13:20 UTC\n\n---\n> 由 TokenFleet Exception Collector 自动生成"
    );
    assert_eq!(
        build_comment(&record),
        "## 重复出现\n\n此异常仍在发生。\n\n- 组件: test-comp\n- 最近发生: 2023-11-14 22:13:20 UTC\n"
    );
    assert!(build_body(&record, "NOON", "END").ends_with("- 时间: NOONEND"));
}

#[test]
fn new_exceptions_open_issues() {
    let commands = GitHubReporter::new()
        .plan(&github(vec![fixed_record("boom")]))
        .unwrap();
    assert_eq!(commands.len(), 1);
    assert!(matches!(commands[0].task, GhTask::Create));
    assert_eq!(
        commands[0].args,
        vec![
            "issue".to_string(),
            "create".to_string(),
            "--repo".to_string(),
            "owner/repo".to_string(),
            "--title".to_string(),
            "[test-comp] panic: boom".to_string(),
            "--body".to_string(),
            build_issue_body(&fixed_record("boom")),
        ]
    );
}

#[test]
fn repeated_exceptions_comment_on_their_issue() {
    let mut record = fixed_record(&"错".repeat(27));
    record.duplicate_of = Some("https://github.com/owner/repo/issues/42".to_string());
    let commands = GitHubReporter::default().plan(&github(vec![record])).unwrap();
    assert_eq!(
        commands[0].args,
        vec![
            "issue".to_string(),
            "comment".to_string(),
            "owner/repo#42".to_string(),
            "--body".to_string(),
            build_comment(&fixed_record("")),
        ]
    );
    match &commands[0].task {
        GhTask::Comment { url } => assert_eq!(url, "https://github.com/owner/repo/issues/42"),
        GhTask::Create => panic!("expected a comment"),
    }
}

#[test]
fn messages_in_any_script_open_issues() {
    let batch = github(vec![fixed_record(&"错".repeat(30))]);
    let commands = GitHubReporter::new().plan(&batch).unwrap();
    assert_eq!(
        commands[0].args[5],
        format!("[test-comp] panic: {}", "错".repeat(26))
    );
}

#[test]
fn reports_that_fail_too_late_have_no_time_to_try_again() {
    let late = Timestamp::new(MAX_SECS - 299, 0).unwrap();
    let early = Timestamp::new(MAX_SECS - 300, 0).unwrap();
    let github = GitHubReporter::new();
    let failed: Vec<Reported> = vec![Err("down".to_string())];
    assert!(github.finish_at(&failed, &late).is_none());
    assert!(github.finish_at(&failed, &early).is_some());
    assert!(github.finish_at(&vec![Ok(())], &late).is_some());
    assert!(github.finish_at(&vec![], &late).is_some());
    let platform = CustomPlatformReporter::new("https://platform");
    let refused = PostOutcome::Answered { status: 500 };
    assert!(platform.finish_at(&refused, &late).is_none());
    assert!(platform.finish_at(&refused, &early).is_some());
    assert!(platform
        .finish_at(&PostOutcome::Answered { status: 200 }, &late)
        .is_some());
    assert!(platform
        .finish_at(&PostOutcome::NotAnswered("m".to_string()), &late)
        .is_none());
    assert!(platform
        .finish_at(&PostOutcome::Lost("m".to_string()), &late)
        .is_some());
}

#[test]
fn batches_for_another_target_are_refused() {
    let batch = ExceptionBatch::new(
        "c",
        vec![fixed_record("boom")],
        ReportTarget::CustomPlatform {
            endpoint: "https://e".to_string(),
        },
    );
    match GitHubReporter::new().plan(&batch) {
        Err(CollectorError::Reporter { reason }) => {
            assert_eq!(reason, "GitHubReporter requires ReportTarget::GitHub");
        }
        other => panic!("expected an error, got {other:?}"),
    }
}

#[test]
fn runs_of_gh_are_read() {
    assert_eq!(settle(&create(), &done("https://x/1\n")), Ok(()));
    assert_eq!(settle(&comment("u"), &done("")), Ok(()));
    assert_eq!(
        settle(&create(), &GhOutcome::NotRun("not found".to_string())),
        Err(
            "issue create failed: reporter error: failed to run gh issue create: not found"
                .to_string()
        )
    );
    assert_eq!(
        settle(&create(), &broken(b"no \xff auth")),
        Err(
            "issue create failed: reporter error: gh issue create failed: no \u{fffd} auth"
                .to_string()
        )
    );
    assert_eq!(
        settle(&comment("u/7"), &broken("错".as_bytes())),
        Err("comment failed for u/7: reporter error: gh issue comment failed: 错".to_string())
    );
    assert_eq!(
        settle(&comment("u/7"), &GhOutcome::NotRun("gone".to_string())),
        Err(
            "comment failed for u/7: reporter error: failed to run gh issue comment: gone"
                .to_string()
        )
    );
    let url = exception_collector::github::issue_created(&done("  https://x/1\n")).unwrap();
    assert_eq!(url, "https://x/1");
}

#[test]
fn reports_succeed_fail_or_succeed_in_part() {
    let now = instant();
    let ok: Reported = Ok(());
    let e1: Reported = Err("one".to_string());
    let e2: Reported = Err("two".to_string());
    assert!(matches!(conclude(&vec![], &now), ReportResult::Success));
    assert!(matches!(
        conclude(&vec![ok.clone(), ok.clone()], &now),
        ReportResult::Success
    ));
    assert!(matches!(
        conclude(&vec![e1.clone(), ok.clone(), ok.clone()], &now),
        ReportResult::Partial { reported_count: 2 }
    ));
    match conclude(&vec![e1, e2], &now) {
        ReportResult::Failed { reason, retry_at } => {
            assert_eq!(reason, "one; two");
            assert_eq!(retry_at.unix_secs(), now.unix_secs() + 300);
            assert_eq!(retry_at.subsec_nanos(), 500_000_000);
        }
        other => panic!("expected a failure, got {other:?}"),
    }
    match GitHubReporter::new().finish(&vec![Err("down".to_string())]) {
        Some(ReportResult::Failed { reason, .. }) => assert_eq!(reason, "down"),
        other => panic!("expected a failure, got {other:?}"),
    }
}

#[test]
fn batches_are_posted_as_json() {
    let reporter = CustomPlatformReporter::new("https://platform");
    assert_eq!(reporter.url(), "https://platform/api/exceptions");
    let mut batch = github(vec![fixed_record("a \"b\""), fixed_record("c")]);
    batch.id = 0xffff_0000_1111_2222_3333_4444_5555_6666;
    let payload = reporter.payload(&batch);
    assert_eq!(
        payload,
        format!(
            "{{\"component\":\"test-comp\",\"batch_id\":\"ffff0000-1111-2222-3333-444455556666\",\"records\":[{},{}]}}",
            record_json(&batch.records[0]),
            record_json(&batch.records[1])
        )
    );
    let value: serde_json::Value = serde_json::from_str(&payload).unwrap();
    assert_eq!(value["records"][0]["message"].as_str(), Some("a \"b\""));
    assert_eq!(value["records"][1]["kind"].as_str(), Some("Panic"));
}

#[test]
fn answers_of_the_platform_are_read() {
    let reporter = CustomPlatformReporter::new("https://platform");
    let now = instant();
    for status in [200, 204, 399] {
        assert!(matches!(
            reporter.conclude(&PostOutcome::Answered { status }, &now),
            Ok(ReportResult::Success)
        ));
    }
    match reporter.conclude(&PostOutcome::Answered { status: 400 }, &now) {
        Ok(ReportResult::Failed { reason, retry_at }) => {
            assert_eq!(reason, "HTTP 400");
            assert_eq!(retry_at, now.plus_minutes(5));
        }
        other => panic!("expected a failure, got {other:?}"),
    }
    match reporter.conclude(&PostOutcome::NotAnswered("refused".to_string()), &now) {
        Ok(ReportResult::Failed { reason, .. }) => assert_eq!(reason, "refused"),
        other => panic!("expected a failure, got {other:?}"),
    }
    match reporter.conclude(&PostOutcome::Lost("cancelled".to_string()), &now) {
        Err(CollectorError::Reporter { reason }) => {
            assert_eq!(reason, "spawn_blocking join error: cancelled");
        }
        other => panic!("expected an error, got {other:?}"),
    }
    match reporter.finish(&PostOutcome::Answered { status: 503 }) {
        Some(Ok(ReportResult::Failed { reason, .. })) => assert_eq!(reason, "HTTP 503"),
        other => panic!("expected a failure, got {other:?}"),
    }
}

#[test]
fn records_hold_every_field_as_json() {
    let mut record = ExceptionRecord::of_instant(
        0x0123_4567_89ab_cdef_0123_4567_89ab_cdef,
        instant(),
        "comp",
        ExceptionKind::ResultErr,
        "err msg",
        "stack trace",
    );
    record.dedup_signature = "abc123".to_string();
    record.module = Some("my::module".to_string());
    record.location = Some("src/main.rs:42".to_string());
    record.span_chain = vec!["span1".to_string(), "span2".to_string()];
    assert_eq!(
        record_json(&record),
        "{\"id\":\"01234567-89ab-cdef-0123-456789abcdef\",\"component\":\"comp\",\"kind\":\"ResultErr\",\"message\":\"err msg\",\"stacktrace\":\"stack trace\",\"span_chain\":[\"span1\",\"span2\"],\"module_path\":\"my::module\",\"location\":\"src/main.rs:42\",\"timestamp\":\"2023-11-14T22:13:20.500Z\",\"dedup_signature\":\"abc123\",\"reported\":false,\"duplicate_of\":null}"
    );
    let chrono_json = serde_json::to_string(
        &chrono::DateTime::from_timestamp(1_700_000_000, 500_000_000).unwrap(),
    )
    .unwrap();
    assert!(record_json(&record).contains(&chrono_json));
    let uuid_json =
        serde_json::to_string(&uuid::Uuid::from_u128(record.id)).unwrap();
    assert!(record_json(&record).contains(&uuid_json));
}
