use agent_web::json::JsonValue;
use agent_web::sse::{
    extract_tool_call, is_stream_done, make_agent_tag_event, make_delegation_event,
    make_delegation_result_event, make_done_event, make_error_event, make_native_call_event,
    make_sse_event, make_text_event, parse_sse_line,
};

fn data_of(event: &str) -> serde_json::Value {
    let line = event.lines().nth(1).unwrap();
    serde_json::from_str(line.strip_prefix("data: ").unwrap()).unwrap()
}

#[test]
fn sse_line_content() {
    let line = r#"data: {"choices":[{"delta":{"content":"Hel"}}]}"#;
    assert_eq!(parse_sse_line(line).as_deref(), Some("Hel"));
    assert_eq!(parse_sse_line("data: [DONE]"), None);
    assert_eq!(parse_sse_line(r#"data: {"choices":[{"delta":{}}]}"#), None);
    assert_eq!(parse_sse_line("event: ping"), None);
    assert_eq!(parse_sse_line("data: not json"), None);
}

#[test]
fn done_line() {
    assert!(is_stream_done("data: [DONE]"));
    assert!(is_stream_done("data: [DONE] trailing"));
    assert!(!is_stream_done("data: {}"));
}

#[test]
fn tool_call_delta() {
    let line = r#"data: {"choices":[{"delta":{"tool_calls":[{"id":"1"}]}}]}"#;
    let v = extract_tool_call(line).unwrap();
    assert_eq!(to_json_text(&v), r#"[{"id":"1"}]"#);
    assert!(extract_tool_call(r#"data: {"choices":[{"delta":{"content":"x"}}]}"#).is_none());
    assert!(extract_tool_call("nothing").is_none());
}

#[test]
fn event_framing() {
    let v = parse_json(r#"{"a":1}"#).unwrap();
    assert_eq!(make_sse_event("x", &v), "event: x\ndata: {\"a\":1}\n\n");
    assert_eq!(make_done_event(), "event: done\ndata: {}\n\n");
}

#[test]
fn text_and_error_events() {
    let t = make_text_event("hi \"there\"");
    assert!(t.starts_with("event: text\ndata: "));
    assert_eq!(data_of(&t)["content"], "hi \"there\"");
    let e = make_error_event("boom");
    assert_eq!(data_of(&e)["message"], "boom");
}

#[test]
fn agent_events() {
    let e = make_agent_tag_event("id1", "Name");
    assert_eq!(data_of(&e)["agent_id"], "id1");
    assert_eq!(data_of(&e)["agent_name"], "Name");
    let d = make_delegation_event("a", "A", "task", "running");
    assert_eq!(data_of(&d)["status"], "running");
    assert_eq!(data_of(&d)["target_agent_name"], "A");
    let r = make_delegation_result_event("a", "A", "t", "done", true);
    assert_eq!(data_of(&r)["success"], true);
    assert_eq!(data_of(&r)["result"], "done");
}

#[test]
fn native_call_event_optional_members() {
    let params = JsonValue::Bool(true);
    let e = make_native_call_event("open", "GET", Some(&params), None, Some(false), Some("Go"));
    let d = data_of(&e);
    assert_eq!(d["action"], "open");
    assert_eq!(d["params"], true);
    assert_eq!(d["auto_execute"], false);
    assert_eq!(d["label"], "Go");
    assert!(d.get("callback_id").is_none());
}

fn json_in(v: &serde_json::Value) -> JsonValue {
    match v {
        serde_json::Value::Null => JsonValue::Null,
        serde_json::Value::Bool(b) => JsonValue::Bool(*b),
        serde_json::Value::Number(n) => JsonValue::Number(n.to_string()),
        serde_json::Value::String(s) => JsonValue::Str(s.clone()),
        serde_json::Value::Array(a) => JsonValue::Array(a.iter().map(json_in).collect()),
        serde_json::Value::Object(m) => JsonValue::Object(m.iter().map(|(k, x)| (k.clone(), json_in(x))).collect()),
    }
}

fn parse_json(text: &str) -> Option<JsonValue> {
    serde_json::from_str::<serde_json::Value>(text).ok().map(|v| json_in(&v))
}

fn json_out(v: &JsonValue) -> serde_json::Value {
    match v {
        JsonValue::Null => serde_json::Value::Null,
        JsonValue::Bool(b) => serde_json::Value::Bool(*b),
        JsonValue::Number(n) => n.parse().map(serde_json::Value::Number).unwrap_or(serde_json::Value::Null),
        JsonValue::Str(s) => serde_json::Value::String(s.clone()),
        JsonValue::Array(a) => serde_json::Value::Array(a.iter().map(json_out).collect()),
        JsonValue::Object(m) => serde_json::Value::Object(m.iter().map(|(k, x)| (k.clone(), json_out(x))).collect()),
    }
}

fn to_json_text(v: &JsonValue) -> String {
    serde_json::to_string(&json_out(v)).unwrap_or_default()
}
