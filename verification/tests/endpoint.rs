use abcb::message::{Message, Role, Session};
use abcb::models::{
    finish_health, parse_health, parse_response, wire_role, HealthReport, OpenAiCompatProvider,
};
use abcb::provider::ProviderError;

fn provider() -> OpenAiCompatProvider {
    OpenAiCompatProvider::new("http://localhost:8083/v1", "/models/gemma4")
}

#[test]
fn wire_role_maps_tool_to_user() {
    assert_eq!(wire_role(&Role::User), "user");
    assert_eq!(wire_role(&Role::Assistant), "assistant");
    assert_eq!(wire_role(&Role::System), "system");
    assert_eq!(wire_role(&Role::Tool), "user");
}

#[test]
fn build_request_serializes_model_messages_and_stream() {
    let mut session = Session::new("s", 0);
    session.push_message(Message::new(Role::User, "hi"));
    session.push_message(Message::new(Role::Tool, "tool result"));

    let text = provider().request_body(&session);
    let value: serde_json::Value = serde_json::from_str(&text).expect("request should be JSON");

    assert_eq!(value["model"], "/models/gemma4");
    assert_eq!(value["stream"], false);
    assert_eq!(value["messages"][0]["role"], "user");
    assert_eq!(value["messages"][0]["content"], "hi");
    assert_eq!(value["messages"][1]["role"], "user");
    assert_eq!(value["messages"][1]["content"], "tool result");
    assert_eq!(
        text,
        r#"{"model":"/models/gemma4","messages":[{"role":"user","content":"hi"},{"role":"user","content":"tool result"}],"stream":false}"#
    );
}

#[test]
fn requests_go_to_the_completions_of_the_base() {
    assert_eq!(provider().url(), "http://localhost:8083/v1/chat/completions");
    assert_eq!(
        OpenAiCompatProvider::new("http://h//", "m").url(),
        "http://h/chat/completions"
    );
}

#[test]
fn parse_health_reads_status_and_loaded_model() {
    let body = r#"{"status":"healthy","loaded_model":"/models/gemma4","loaded_adapter":null}"#;

    let report = parse_health(body).expect("should parse");

    assert_eq!(report.status, "healthy");
    assert_eq!(report.loaded_model.as_deref(), Some("/models/gemma4"));
    assert_eq!(report.loaded_adapter, None);
}

#[test]
fn parse_health_tolerates_missing_loaded_model() {
    let body = r#"{"status":"starting"}"#;

    let report = parse_health(body).expect("should parse");

    assert_eq!(report.status, "starting");
    assert_eq!(report.loaded_model, None);
}

#[test]
fn parse_health_errors_on_malformed_json() {
    let err = parse_health("not json").expect_err("malformed should error");

    assert!(matches!(err, ProviderError::Backend(_)));
}

#[test]
fn parse_response_extracts_first_choice_content() {
    let body = r#"{"choices":[{"message":{"role":"assistant","content":"hello there"}}]}"#;

    let content = parse_response(body).expect("should parse");

    assert_eq!(content, "hello there");
}

#[test]
fn parse_response_errors_on_empty_choices() {
    let body = r#"{"choices":[]}"#;

    let err = parse_response(body).expect_err("no choices should error");

    assert!(matches!(err, ProviderError::Backend(_)));
}

#[test]
fn parse_response_errors_on_malformed_json() {
    let err = parse_response("not json").expect_err("malformed should error");

    assert!(matches!(err, ProviderError::Backend(_)));
}

#[test]
fn parse_response_asks_for_all_choices() {
    let two = r#"{"choices":[{"message":{"content":"a"}},{"message":{"content":"b"}}]}"#;
    assert_eq!(parse_response(two), Ok("a".to_string()));
    let broken = r#"{"choices":[{"message":{"content":"a"}},{"message":{}}]}"#;
    assert_eq!(
        parse_response(broken),
        Err(ProviderError::Backend("missing field `content`".to_string()))
    );
    assert_eq!(
        parse_response(r#"{"choices":[]}"#),
        Err(ProviderError::Backend("response contained no choices".to_string()))
    );
    assert!(parse_response(r#"{"choices":{}}"#).is_err());
    assert!(parse_response(r#"{}"#).is_err());
}

#[test]
fn finish_gives_the_reply_of_a_success() {
    let body = r#"{"choices":[{"message":{"role":"assistant","content":"hello from mock"}}]}"#;
    assert_eq!(
        provider().finish(200, "200 OK", body),
        Ok(Message::new(Role::Assistant, "hello from mock"))
    );
    assert_eq!(
        provider().finish(299, "299", body),
        Ok(Message::new(Role::Assistant, "hello from mock"))
    );
}

#[test]
fn finish_maps_other_statuses_to_backend_errors() {
    assert_eq!(
        provider().finish(500, "500 Internal Server Error", "boom"),
        Err(ProviderError::Backend(
            "HTTP 500 Internal Server Error from http://localhost:8083/v1/chat/completions: boom"
                .to_string()
        ))
    );
    for code in [100, 199, 300, 404] {
        assert!(provider().finish(code, "x", "{}").is_err());
    }
}

#[test]
fn finish_health_reports_or_fails() {
    assert_eq!(
        finish_health("http://h/health", 200, "200 OK", r#"{"status":"healthy"}"#),
        Ok(HealthReport {
            status: "healthy".to_string(),
            loaded_model: None,
            loaded_adapter: None,
        })
    );
    assert_eq!(
        finish_health("http://h/health", 503, "503 Service Unavailable", ""),
        Err(ProviderError::Backend(
            "HTTP 503 Service Unavailable from http://h/health: ".to_string()
        ))
    );
    assert!(parse_health(r#"{"status":1}"#).is_err());
    assert!(parse_health(r#"{"status":"x","loaded_model":5}"#).is_err());
}
