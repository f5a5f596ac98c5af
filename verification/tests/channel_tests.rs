use exception_collector::{ChatReply, CollectorError, HttpLlmChannel, Json};

/// The library's document of a `serde_json` one.
fn document(value: serde_json::Value) -> Json {
    match value {
        serde_json::Value::Null => Json::Null,
        serde_json::Value::Bool(b) => Json::Bool(b),
        serde_json::Value::Number(n) => Json::Number(n.to_string()),
        serde_json::Value::String(s) => Json::Text(s),
        serde_json::Value::Array(items) => Json::Array(items.into_iter().map(document).collect()),
        serde_json::Value::Object(members) => Json::Object(
            members
                .into_iter()
                .map(|(k, v)| (k, document(v)))
                .collect(),
        ),
    }
}

fn parsed(text: &str) -> Json {
    document(serde_json::from_str(text).unwrap())
}

fn reason(result: Result<String, CollectorError>) -> String {
    match result {
        Err(CollectorError::Reporter { reason }) => reason,
        other => panic!("expected a reporter error, got {other:?}"),
    }
}

#[test]
fn test_http_channel_new_should_set_fields() {
    let ch = HttpLlmChannel::new("http://example.com/v1/chat/completions", "test-model");
    assert_eq!(ch.endpoint, "http://example.com/v1/chat/completions");
    assert_eq!(ch.model, "test-model");
    assert_eq!(ch.timeout_secs, 30);
}

#[test]
fn test_http_channel_new_should_append_chat_path() {
    let ch = HttpLlmChannel::new(
        "http://127.0.0.1:11837/v1/chat/completions",
        "deepseek-v4-flash",
    );
    assert_eq!(ch.endpoint, "http://127.0.0.1:11837/v1/chat/completions");
    assert_eq!(ch.model, "deepseek-v4-flash");
}

#[test]
fn test_http_channel_should_be_cloneable() {
    let ch = HttpLlmChannel::new("http://example.com/v1/chat/completions", "test-model");
    let cloned = ch.clone();
    assert_eq!(ch.endpoint, cloned.endpoint);
    assert_eq!(ch.model, cloned.model);
    assert_eq!(ch.timeout_secs, cloned.timeout_secs);
}

#[test]
fn test_http_channel_should_be_debug() {
    let ch = HttpLlmChannel::new("http://example.com/v1/chat/completions", "test-model");
    let debug = format!("{ch:?}");
    assert!(debug.contains("HttpLlmChannel"));
    assert!(debug.contains("test-model"));
}

#[test]
fn test_http_channel_default_timeout_should_be_30() {
    let ch = HttpLlmChannel::new("http://example.com/api", "model");
    assert_eq!(ch.timeout_secs, 30);
}

#[test]
fn the_environment_is_followed_or_defaults_stand_in() {
    let ch = HttpLlmChannel::from_env(&None, &None);
    assert_eq!(ch.endpoint, "http://127.0.0.1:11837/v1/chat/completions");
    assert_eq!(ch.model, "deepseek-v4-flash");
    assert_eq!(ch.timeout_secs, 30);
    let ch = HttpLlmChannel::from_env(&Some("http://proxy".to_string()), &Some("m".to_string()));
    assert_eq!(ch.endpoint, "http://proxy/v1/chat/completions");
    assert_eq!(ch.model, "m");
}

#[test]
fn requests_are_json_of_the_model_and_both_prompts() {
    let ch = HttpLlmChannel::new("http://e", "the \"model\"");
    let body = ch.request_body("be\nbrief", "why?");
    assert_eq!(
        body,
        "{\"model\":\"the \\\"model\\\"\",\"messages\":[{\"role\":\"system\",\"content\":\"be\\nbrief\"},{\"role\":\"user\",\"content\":\"why?\"}],\"temperature\":0.1}"
    );
    let value: serde_json::Value = serde_json::from_str(&body).unwrap();
    assert_eq!(value["temperature"].as_f64(), Some(0.1));
    assert_eq!(value["messages"][0]["content"].as_str(), Some("be\nbrief"));
}

#[test]
fn the_first_choice_answers() {
    let ch = HttpLlmChannel::new("http://e", "m");
    let reply = parsed(
        "{\"id\":1,\"choices\":[{\"message\":{\"role\":\"assistant\",\"content\":\"hello\"}},{\"message\":{\"content\":\"other\"}}]}",
    );
    assert_eq!(ch.completion(&ChatReply::Document(reply)).unwrap(), "hello");
}

#[test]
fn answers_without_content_are_errors() {
    let ch = HttpLlmChannel::new("http://e", "m");
    for text in [
        "null",
        "[]",
        "{}",
        "{\"choices\":[]}",
        "{\"choices\":{\"0\":1}}",
        "{\"choices\":[{}]}",
        "{\"choices\":[{\"message\":{}}]}",
        "{\"choices\":[{\"message\":{\"content\":null}}]}",
        "{\"choices\":[{\"message\":{\"content\":7}}]}",
        "{\"error\":{\"message\":\"m\"}}",
    ] {
        let result = ch.completion(&ChatReply::Document(parsed(text)));
        assert_eq!(reason(result), "LLM response missing content");
    }
}

#[test]
fn each_failure_has_its_reason() {
    let ch = HttpLlmChannel::new("http://e", "m");
    assert_eq!(
        reason(ch.completion(&ChatReply::NoClient("tls".to_string()))),
        "failed to build HTTP client: tls"
    );
    assert_eq!(
        reason(ch.completion(&ChatReply::NotAnswered("refused".to_string()))),
        "LLM request failed: refused"
    );
    assert_eq!(
        reason(ch.completion(&ChatReply::NotJson("decoding".to_string()))),
        "failed to parse LLM response: decoding"
    );
}

#[test]
fn members_and_items_are_found() {
    let value = parsed("{\"a\":[true,\"x\",{\"b\":1.5}]}");
    let items = value.get("a").unwrap();
    assert!(matches!(items.item(0), Some(Json::Bool(true))));
    assert_eq!(items.item(1).unwrap().as_str(), Some("x"));
    assert!(items.item(3).is_none());
    assert!(value.get("b").is_none());
    assert!(value.item(0).is_none());
    match items.item(2).unwrap().get("b") {
        Some(Json::Number(n)) => assert_eq!(n, "1.5"),
        other => panic!("expected a number, got {other:?}"),
    }
    let twice = Json::Object(vec![
        ("k".to_string(), Json::Text("first".to_string())),
        ("k".to_string(), Json::Text("second".to_string())),
    ]);
    assert_eq!(twice.get("k").unwrap().as_str(), Some("first"));
}
