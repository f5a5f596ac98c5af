use exception_collector::{
    build_fallback_body, build_system_prompt, build_user_prompt, fallback_classify, response_json,
    Answer, ClassificationAction, ClassificationResult, CollectorError, ExceptionKind,
    ExceptionRecord, ExistingIssueData, LlmClassifier, Next, Request,
};

fn make_record(signature: &str, message: &str) -> ExceptionRecord {
    let mut record =
        ExceptionRecord::new("test-comp", ExceptionKind::ErrorLog, message, "stack trace");
    record.dedup_signature = signature.to_string();
    record
}

fn duplicate_response(sig: &str, issue: u32) -> String {
    format!(r#"[{{"signature":"{sig}","action":{{"issue_number":{issue}}}}}]"#)
}

fn new_issue_response(sig: &str) -> String {
    format!(r#"[{{"signature":"{sig}","action":{{"title":"Test Issue","body":"Test body"}}}}]"#)
}

/// What the JSON of an answer says.
fn parse_llm_response(text: &str) -> Option<Vec<ClassificationResult>> {
    let value: serde_json::Value = serde_json::from_str(response_json(text)).ok()?;
    let mut out = vec![];
    for item in value.as_array()? {
        let action = item.get("action")?;
        out.push(ClassificationResult {
            signature: item.get("signature")?.as_str()?.to_string(),
            action: match action.get("issue_number") {
                Some(number) => ClassificationAction::Duplicate {
                    issue_number: number.as_u64()? as u32,
                },
                None => ClassificationAction::NewIssue {
                    title: action.get("title")?.as_str()?.to_string(),
                    body: action.get("body")?.as_str()?.to_string(),
                },
            },
        });
    }
    Some(out)
}

/// Classifies with a model that answers `response`, or not at all.
fn classify(
    records: &Vec<ExceptionRecord>,
    response: Option<&str>,
    requests: &mut u32,
) -> Result<Vec<ClassificationResult>, CollectorError> {
    let classifier = LlmClassifier::new();
    let mut request = Request::First;
    loop {
        *requests += 1;
        let answer = match response {
            None => Answer::Failed(CollectorError::Reporter {
                reason: "mock channel failure".to_string(),
            }),
            Some(text) => match parse_llm_response(text) {
                Some(results) => Answer::Classified(results),
                None => Answer::NotJson,
            },
        };
        match classifier.classify_batch(request, records, answer) {
            Next::AskAgain => request = Request::Second,
            Next::Done(outcome) => return outcome,
        }
    }
}

#[test]
fn test_should_detect_duplicate_via_llm() {
    let response = duplicate_response("abc123", 42);
    let records = vec![make_record("abc123", "test error")];
    let results = classify(&records, Some(&response), &mut 0).unwrap();

    assert_eq!(results.len(), 1);
    assert_eq!(results[0].signature, "abc123");
    match &results[0].action {
        ClassificationAction::Duplicate { issue_number } => {
            assert_eq!(*issue_number, 42);
        }
        _ => panic!("expected Duplicate"),
    }
}

#[test]
fn test_should_generate_new_issue_via_llm() {
    let response = new_issue_response("xyz789");
    let records = vec![make_record("xyz789", "new error")];
    let results = classify(&records, Some(&response), &mut 0).unwrap();

    assert_eq!(results.len(), 1);
    match &results[0].action {
        ClassificationAction::NewIssue { title, body } => {
            assert_eq!(title, "Test Issue");
            assert_eq!(body, "Test body");
        }
        _ => panic!("expected NewIssue"),
    }
}

#[test]
fn test_should_fallback_on_llm_failure() {
    let records = vec![make_record("sig1", "test error")];
    let mut requests = 0;
    let results = classify(&records, None, &mut requests).unwrap();

    // Fallback should treat all as new issues
    assert_eq!(results.len(), 1);
    assert_eq!(requests, 1);
    match &results[0].action {
        ClassificationAction::NewIssue { title, .. } => {
            assert!(title.contains("test error"));
        }
        _ => panic!("expected fallback NewIssue"),
    }
}

#[test]
fn test_should_fallback_on_non_json_response() {
    let records = vec![make_record("sig1", "test")];
    let mut requests = 0;
    // Should fail after retry — non-JSON both times
    let result = classify(&records, Some("not valid json at all"), &mut requests);

    assert!(result.is_err());
    assert_eq!(requests, 2);
    assert_eq!(
        result.unwrap_err().to_string(),
        "reporter error: LLM response not valid JSON after retry"
    );
}

#[test]
fn test_parse_llm_response_should_handle_json_with_code_fence() {
    let text = r###"```json
[{"signature":"abc","action":{"title":"T","body":"B"}}]
```"###;
    let results = parse_llm_response(text).unwrap();
    assert_eq!(results.len(), 1);
}

#[test]
fn test_parse_llm_response_should_handle_plain_json() {
    let text = r#"[{"signature":"abc","action":{"title":"T","body":"B"}}]"#;
    let results = parse_llm_response(text).unwrap();
    assert_eq!(results.len(), 1);
}

#[test]
fn test_parse_llm_response_should_error_on_invalid() {
    let text = "not json";
    assert!(parse_llm_response(text).is_none());
}

#[test]
fn test_build_fallback_body_should_include_component() {
    let mut record = make_record("sig", "test message");
    record.module = Some("mod".to_string());
    record.location = Some("file.rs:1".to_string());

    let body = build_fallback_body(&record);
    assert!(body.contains("test message"));
    assert!(body.contains("test-comp"));
    assert!(body.contains("降级模式"));
}

#[test]
fn test_system_prompt_should_be_non_empty() {
    let prompt = build_system_prompt();
    assert!(!prompt.is_empty());
    assert!(prompt.contains("TokenFleet"));
}

#[test]
fn test_user_prompt_should_include_records() {
    let records = vec![make_record("sig-a", "error one")];
    let issues = vec![ExistingIssueData {
        number: 1,
        title: "Old".to_string(),
        body: "Old body".to_string(),
    }];

    let prompt = build_user_prompt(&records, &issues);
    assert!(prompt.contains("sig-a"));
    assert!(prompt.contains("error one"));
    assert!(prompt.contains("Old"));
    assert!(prompt.contains("Existing Open Issues"));
}

#[test]
fn the_user_prompt_is_exact() {
    let records = vec![make_record("s1", "a\tb"), make_record("s2", "c")];
    let issues = vec![
        ExistingIssueData {
            number: 0,
            title: "T".to_string(),
            body: "B".to_string(),
        },
        ExistingIssueData {
            number: u32::MAX,
            title: "\\".to_string(),
            body: "\u{1}".to_string(),
        },
    ];
    assert_eq!(
        build_user_prompt(&records, &issues),
        "## Existing Open Issues (JSON)\n[{\"number\":0,\"title\":\"T\",\"body\":\"B\"},{\"number\":4294967295,\"title\":\"\\\\\",\"body\":\"\\u0001\"}]\n\n## New Exceptions (JSON)\n[{\"signature\":\"s1\",\"component\":\"test-comp\",\"message\":\"a\\tb\",\"stacktrace\":\"stack trace\"},{\"signature\":\"s2\",\"component\":\"test-comp\",\"message\":\"c\",\"stacktrace\":\"stack trace\"}]"
    );
    assert_eq!(
        build_user_prompt(&vec![], &vec![]),
        "## Existing Open Issues (JSON)\n[]\n\n## New Exceptions (JSON)\n[]"
    );
}

#[test]
fn the_system_prompt_reads_as_one_paragraph() {
    let prompt = build_system_prompt();
    assert!(prompt.starts_with("You are a TokenFleet exception classification assistant. Your job"));
    assert!(prompt.ends_with("\"title\" and \"body\" (for new issues)."));
    assert!(!prompt.contains('\n'));
    assert!(!prompt.contains("  "));
}

#[test]
fn fences_are_stripped() {
    assert_eq!(response_json("```json\n[1]\n```"), "[1]");
    assert_eq!(response_json(" \n```json[1]``` "), "[1]");
    assert_eq!(response_json("  [1]\n"), "[1]");
    assert_eq!(response_json("```json\n[1]"), "```json\n[1]");
    assert_eq!(response_json("```\n[1]\n```"), "```\n[1]\n```");
    assert_eq!(response_json("```json```"), "");
    assert_eq!(response_json("```json``"), "```json``");
}

#[test]
fn without_the_model_each_exception_is_a_new_issue() {
    let records = vec![make_record("s1", &"m".repeat(100)), make_record("s2", "n")];
    let results = fallback_classify(&records);
    assert_eq!(results.len(), 2);
    assert_eq!(results[1].signature, "s2");
    match &results[0].action {
        ClassificationAction::NewIssue { title, body } => {
            assert_eq!(*title, format!("[test-comp] error_log: {}", "m".repeat(80)));
            assert_eq!(*body, build_fallback_body(&records[0]));
            assert!(body.ends_with("自动生成（降级模式）"));
        }
        _ => panic!("expected NewIssue"),
    }
}

#[test]
fn the_fallback_takes_messages_in_any_script() {
    let records = vec![ExceptionRecord::new(
        "comp",
        ExceptionKind::Panic,
        &"中".repeat(30),
        "",
    )];
    let results = fallback_classify(&records);
    assert_eq!(results.len(), 1);
    assert_eq!(results[0].signature, "");
    match &results[0].action {
        ClassificationAction::NewIssue { title, .. } => {
            assert_eq!(*title, format!("[comp] panic: {}", "中".repeat(26)));
        }
        _ => panic!("expected NewIssue"),
    }
}

#[test]
fn a_failing_channel_is_an_error_where_there_is_nothing_to_fall_back_to() {
    let result = classify(&vec![], None, &mut 0);
    assert_eq!(
        result.unwrap_err().to_string(),
        "reporter error: mock channel failure"
    );
    let failed = Answer::Failed(CollectorError::Reporter {
        reason: "second".to_string(),
    });
    match LlmClassifier::new().classify_batch(Request::Second, &vec![], failed) {
        Next::Done(Err(e)) => assert_eq!(e.to_string(), "reporter error: second"),
        other => panic!("expected an error, got {other:?}"),
    }
}

#[test]
fn a_second_request_that_fails_falls_back_too() {
    let failed = Answer::Failed(CollectorError::Reporter {
        reason: "second".to_string(),
    });
    let records = vec![make_record("s1", "m"), make_record("s2", "n")];
    match LlmClassifier::new().classify_batch(Request::Second, &records, failed) {
        Next::Done(Ok(results)) => {
            assert_eq!(results.len(), 2);
            for (result, record) in results.iter().zip(&records) {
                assert_eq!(result.signature, record.dedup_signature);
                assert!(matches!(result.action, ClassificationAction::NewIssue { .. }));
            }
        }
        other => panic!("expected the fallback, got {other:?}"),
    }
}

#[test]
fn a_second_answer_that_is_json_counts() {
    let records = vec![make_record("s", "m")];
    let results = parse_llm_response(&duplicate_response("s", 7)).unwrap();
    let next = LlmClassifier::new().classify_batch(
        Request::Second,
        &records,
        Answer::Classified(results),
    );
    match next {
        Next::Done(Ok(results)) => assert_eq!(results.len(), 1),
        other => panic!("expected a classification, got {other:?}"),
    }
    assert_eq!(LlmClassifier::new().timeout_secs, 30);
}
