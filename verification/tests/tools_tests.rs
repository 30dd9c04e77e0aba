use agent_web::agents::AgentsService;
use agent_web::json::JsonValue;
use agent_web::tools::{DelegateToAgentTool, ListAvailableAgentsTool};

#[test]
fn delegation_checks_its_input() {
    let svc = AgentsService::new(vec![]);
    let e = DelegateToAgentTool::prepare(&svc, &parse_json("{\"task\":\"t\"}").unwrap()).unwrap_err();
    assert_eq!((e.message.as_str(), e.code.as_deref()), ("Missing required field: agent_id", Some("invalid_input")));
    let e = DelegateToAgentTool::prepare(&svc, &parse_json("{\"agent_id\":\"builtin-plan\"}").unwrap()).unwrap_err();
    assert_eq!(e.message, "Missing required field: task");
    let e = DelegateToAgentTool::prepare(&svc, &parse_json("{\"agent_id\":\"nobody\",\"task\":\"t\"}").unwrap()).unwrap_err();
    assert_eq!((e.message.as_str(), e.code.as_deref()), ("Agent not found: nobody", Some("agent_not_found")));
    let e = DelegateToAgentTool::prepare(&svc, &parse_json("{\"agent_id\":\"builtin-orchestrator\",\"task\":\"t\"}").unwrap()).unwrap_err();
    assert_eq!((e.message.as_str(), e.code.as_deref()), ("Cannot delegate to orchestrator itself", Some("invalid_delegation")));
    let (a, task) = DelegateToAgentTool::prepare(&svc, &parse_json("{\"agent_id\":\"builtin-plan\",\"task\":\"t\"}").unwrap()).unwrap();
    assert_eq!((a.agent_id.as_str(), task.as_str()), ("builtin-plan", "t"));
}

#[test]
fn delegation_output_and_failure() {
    let svc = AgentsService::new(vec![]);
    let a = svc.get_agent_by_id("builtin-plan").unwrap();
    let out = DelegateToAgentTool::finish(&a, "t", "result text");
    assert_eq!(out.output_type, "delegation_result");
    assert_eq!(out.content, "result text");
    assert_eq!(out.metadata.len(), 3);
    assert_eq!(out.metadata[1].0, "agent_name");
    assert_eq!(to_json_text(&out.metadata[1].1), "\"Plan Agent\"");
    let e = DelegateToAgentTool::failure("timeout");
    assert_eq!((e.message.as_str(), e.code.as_deref()), ("Failed to execute agent: timeout", Some("execution_error")));
    assert_eq!(DelegateToAgentTool::name(), "delegate_to_agent");
    let schema: serde_json::Value = serde_json::from_str(&to_json_text(&DelegateToAgentTool::input_schema())).unwrap();
    assert_eq!(schema["required"][1], "task");
    assert_eq!(schema["properties"]["agent_id"]["type"], "string");
}

#[test]
fn agent_listing_tool() {
    let svc = AgentsService::new(vec![]);
    let out = ListAvailableAgentsTool::execute(&svc);
    assert_eq!(out.output_type, "agent_list");
    assert!(out.content.contains('\n'));
    let v: serde_json::Value = serde_json::from_str(&out.content).unwrap();
    assert_eq!(v["count"], 5);
    assert_eq!(v["agents"].as_array().unwrap().len(), 5);
    assert!(v["agents"].as_array().unwrap().iter().all(|a| a["agent_id"] != "builtin-orchestrator"));
    let schema: serde_json::Value =
        serde_json::from_str(&to_json_text(&ListAvailableAgentsTool::input_schema())).unwrap();
    assert_eq!(schema["type"], "object");
    assert_eq!(schema["required"].as_array().unwrap().len(), 0);
    assert!(schema["properties"].as_object().unwrap().is_empty());
    assert_eq!(ListAvailableAgentsTool::name(), "list_available_agents");
}

fn json_in(v: &serde_json::Value) -> JsonValue {
    match v {
        serde_json::Value::Null => JsonValue::Null,
        serde_json::Value::Bool(b) => JsonValue::Bool(*b),
        serde_json::Value::Number(n) => JsonValue::Number(n.to_string()),
        serde_json::Value::String(s) => JsonValue::Str(s.clone()),
        serde_json::Value::Array(a) => JsonValue::Array(a.iter().map(json_in).collect()),
        serde_json::Value::Object(m) => JsonValue::Object(m.iter().map(|(k, x)| (k.clone(), json_in(x))).collect()),
    }
}

fn parse_json(text: &str) -> Option<JsonValue> {
    serde_json::from_str::<serde_json::Value>(text).ok().map(|v| json_in(&v))
}

fn json_out(v: &JsonValue) -> serde_json::Value {
    match v {
        JsonValue::Null => serde_json::Value::Null,
        JsonValue::Bool(b) => serde_json::Value::Bool(*b),
        JsonValue::Number(n) => n.parse().map(serde_json::Value::Number).unwrap_or(serde_json::Value::Null),
        JsonValue::Str(s) => serde_json::Value::String(s.clone()),
        JsonValue::Array(a) => serde_json::Value::Array(a.iter().map(json_out).collect()),
        JsonValue::Object(m) => serde_json::Value::Object(m.iter().map(|(k, x)| (k.clone(), json_out(x))).collect()),
    }
}

fn to_json_text(v: &JsonValue) -> String {
    serde_json::to_string(&json_out(v)).unwrap_or_default()
}
