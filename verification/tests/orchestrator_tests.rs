use agent_web::agents::{AgentDefinition, AgentType, AgentsService};
use agent_web::json::JsonValue;
use agent_web::orchestrator::{intent_from_value, OrchestratorService};

#[test]
fn parses_plain_json_reply() {
    let r = OrchestratorService::parse_intent_response(
        "  {\"agent_id\": \"builtin-plan\", \"reason\": \"planning\"}\n",
    )
    .unwrap();
    assert_eq!(r.agent_id, "builtin-plan");
    assert_eq!(r.reason, "planning");
}

#[test]
fn parses_json_inside_text() {
    let r = OrchestratorService::parse_intent_response(
        "Sure! {\"agent_id\": \"builtin-explore\"} hope that helps",
    )
    .unwrap();
    assert_eq!(r.agent_id, "builtin-explore");
    assert_eq!(r.reason, "");
}

#[test]
fn reply_without_agent_is_none() {
    assert!(OrchestratorService::parse_intent_response("no json here").is_none());
    assert!(OrchestratorService::parse_intent_response("{\"reason\": \"x\"}").is_none());
    assert!(OrchestratorService::parse_intent_response("{\"agent_id\": 3}").is_none());
    assert!(OrchestratorService::parse_intent_response("{ not json }").is_none());
}

#[test]
fn intent_from_parsed_value() {
    let v = parse_json("{\"agent_id\":\"a\",\"reason\":7}").unwrap();
    let r = intent_from_value(&v).unwrap();
    assert_eq!((r.agent_id.as_str(), r.reason.as_str()), ("a", ""));
    let v = parse_json("[1,2]").unwrap();
    assert!(intent_from_value(&v).is_none());
}

fn one_agent() -> Vec<AgentDefinition> {
    vec![AgentDefinition {
        agent_id: "x1".to_string(),
        agent_type: AgentType::Custom,
        name: "X".to_string(),
        description: "does x".to_string(),
        when_to_use: "when x".to_string(),
        tools: vec![],
        model: "sonnet".to_string(),
        system_prompt: String::new(),
        source: "custom".to_string(),
        base_dir: "custom".to_string(),
        is_orchestrator: false,
    }]
}

#[test]
fn intent_prompt_lists_agents() {
    let p = OrchestratorService::intent_prompt_for(&one_agent());
    assert!(p.contains("## 可用 Agent 列表\n\n- agent_id: \"x1\"\n  名称: X\n  描述: does x\n  适用场景: when x\n\n\n\n## 规则"));
    assert!(p.ends_with("{\"agent_id\": \"选中的agent_id\", \"reason\": \"简短的选择理由\"}"));
}

#[test]
fn orchestrator_prompt_lists_agents() {
    let p = OrchestratorService::orchestrator_prompt_for(&one_agent());
    assert!(p.contains("## 可用 Agent 列表\n\n- x1 (X): does x\n  适用场景: when x\n\n\n\n## 工作流程"));
}

#[test]
fn built_prompts_cover_every_non_orchestrator() {
    let svc = AgentsService::new(vec![]);
    let p = OrchestratorService::build_intent_prompt(&svc);
    for id in ["builtin-code-guide", "builtin-explore", "builtin-general-purpose", "builtin-plan", "builtin-verification"] {
        assert_eq!(p.matches(&format!("- agent_id: \"{}\"", id)).count(), 1);
    }
    assert!(!p.contains("- agent_id: \"builtin-orchestrator\""));
    let q = OrchestratorService::build_orchestrator_prompt(&svc);
    assert!(q.contains("- builtin-plan (Plan Agent): "));
    assert!(!q.contains("- builtin-orchestrator ("));
}

fn json_in(v: &serde_json::Value) -> JsonValue {
    match v {
        serde_json::Value::Null => JsonValue::Null,
        serde_json::Value::Bool(b) => JsonValue::Bool(*b),
        serde_json::Value::Number(n) => JsonValue::Number(n.to_string()),
        serde_json::Value::String(s) => JsonValue::Str(s.clone()),
        serde_json::Value::Array(a) => JsonValue::Array(a.iter().map(json_in).collect()),
        serde_json::Value::Object(m) => JsonValue::Object(m.iter().map(|(k, x)| (k.clone(), json_in(x))).collect()),
    }
}

fn parse_json(text: &str) -> Option<JsonValue> {
    serde_json::from_str::<serde_json::Value>(text).ok().map(|v| json_in(&v))
}
