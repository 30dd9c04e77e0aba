use agent_web::agents::AgentsService;
use agent_web::endpoints::{
    create_agent, create_api_key, delete_agent, delete_api_key, delete_session, get_agent, get_api_key,
    health_check, list_agents, list_api_keys, list_tools, new_session_title, session_title, update_agent,
    update_api_key, INTERNAL_SERVER_ERROR, NOT_FOUND,
};
use agent_web::models::{
    acknowledge_callback, default_agent_id, default_model, new_api_key, ApiResult, CreateAgentRequest,
    CreateApiKeyRequest, DelegationStatus, NativeCallbackRequest, UpdateAgentRequest, UpdateApiKeyRequest,
};
use agent_web::json::JsonValue;

fn create_req(name: &str) -> CreateAgentRequest {
    CreateAgentRequest {
        name: name.to_string(),
        description: "desc".to_string(),
        when_to_use: String::new(),
        tools: vec![],
        model: default_model(),
        system_prompt: "p".to_string(),
    }
}

#[test]
fn defaults_of_requests() {
    assert_eq!(default_agent_id(), "builtin-orchestrator");
    assert_eq!(default_model(), "sonnet");
    assert_eq!(DelegationStatus::Completed.as_str(), "completed");
    let ok: ApiResult<u8> = ApiResult::ok(3);
    assert!(ok.success && ok.data == Some(3) && ok.error.is_none());
    let err: ApiResult<u8> = ApiResult::err("nope");
    assert!(!err.success && err.data.is_none());
    assert_eq!(err.error.as_deref(), Some("nope"));
}

#[test]
fn agent_endpoints() {
    let mut svc = AgentsService::new(vec![]);
    let all = list_agents(&svc).data.unwrap();
    assert_eq!(all.len(), 6);
    let plan = get_agent(&svc, "builtin-plan").unwrap().data.unwrap();
    assert_eq!((plan.name.as_str(), plan.source.as_str()), ("Plan Agent", "built-in"));
    assert_eq!(get_agent(&svc, "x").unwrap_err(), NOT_FOUND);
    let created = create_agent(&mut svc, create_req("Mine")).unwrap().data.unwrap();
    assert!(created.agent_id.starts_with("custom-"));
    assert_eq!(svc.get_agent_by_id(&created.agent_id).unwrap().name, "Mine");
    assert_eq!(created.source, "custom");
    assert_eq!(list_agents(&svc).data.unwrap().len(), 7);
    let mine_id = svc.list_agents().into_iter().find(|a| a.name == "Mine").unwrap().agent_id;
    let upd = UpdateAgentRequest { name: Some("Renamed".to_string()), description: None, when_to_use: None, tools: None, model: None, system_prompt: None };
    let r = update_agent(&mut svc, &mine_id, upd.clone()).unwrap();
    assert_eq!(r.data.unwrap(), format!("Agent {} updated", mine_id));
    let a = svc.get_agent_by_id(&mine_id).unwrap();
    assert_eq!((a.name.as_str(), a.description.as_str(), a.source.as_str()), ("Renamed", "desc", "custom"));
    let r = update_agent(&mut svc, "builtin-plan", upd.clone()).unwrap();
    assert!(!r.success);
    assert_eq!(r.error.as_deref(), Some("Cannot modify built-in agent"));
    assert_eq!(update_agent(&mut svc, "ghost", upd).unwrap_err(), NOT_FOUND);
    let r = delete_agent(&mut svc, "builtin-plan").unwrap();
    assert_eq!(r.error.as_deref(), Some("Cannot delete built-in agent"));
    assert_eq!(delete_agent(&mut svc, "ghost").unwrap_err(), INTERNAL_SERVER_ERROR);
    let r = delete_agent(&mut svc, &mine_id).unwrap();
    assert_eq!(r.data.unwrap(), format!("Agent {} deleted", mine_id));
    assert!(svc.get_agent_by_id(&mine_id).is_none());
}

#[test]
fn session_endpoints() {
    let mut svc = AgentsService::new(vec![]);
    assert_eq!(session_title("0123456789abcdef"), "Session 01234567");
    assert_eq!(session_title("é1234567z"), "Session é123456");
    assert_eq!(new_session_title(None), "New Chat");
    assert_eq!(new_session_title(Some("T".to_string())), "T");
    let r = delete_session(&mut svc, "abc").unwrap();
    assert_eq!(r.data.unwrap(), "Session abc deleted");
}

#[test]
fn tool_and_health_endpoints() {
    let tools = list_tools().data.unwrap();
    assert_eq!(tools.len(), 2);
    assert_eq!(tools[0].name, "delegate_to_agent");
    assert_eq!(tools[1].name, "list_available_agents");
    let h = health_check().data.unwrap();
    let v: serde_json::Value = serde_json::from_str(&to_json_text(&h)).unwrap();
    assert_eq!(v["status"], "healthy");
    assert_eq!(v["service"], "agent-api");
    assert!(v["timestamp"].as_str().unwrap().len() > 10);
}

#[test]
fn native_callback_is_acknowledged() {
    let req = NativeCallbackRequest {
        callback_id: "cb1".to_string(),
        session_id: "s".to_string(),
        result: JsonValue::Null,
        success: true,
    };
    let r = acknowledge_callback(&req);
    assert!(r.received);
    assert_eq!(r.callback_id, "cb1");
}

#[test]
fn api_key_endpoints() {
    let mut svc = AgentsService::new(vec![]);
    let k = create_api_key(
        &mut svc,
        CreateApiKeyRequest {
            name: "n".to_string(),
            api_key: "sk-1".to_string(),
            base_url: "https://b".to_string(),
            default_model: "m".to_string(),
        },
    )
    .data
    .unwrap();
    assert!(k.is_active);
    assert!(!k.id.is_empty());
    assert_eq!(k.created_at, k.updated_at);
    assert_eq!(list_api_keys(&svc).data.unwrap().len(), 1);
    let got = get_api_key(&svc, &k.id).unwrap().data.unwrap();
    assert_eq!(got.api_key, "sk-1");
    let upd = UpdateApiKeyRequest { name: Some("n2".to_string()), api_key: None, base_url: None, default_model: None, is_active: Some(false) };
    let u = update_api_key(&mut svc, &k.id, upd).unwrap().data.unwrap();
    assert_eq!((u.name.as_str(), u.api_key.as_str(), u.is_active), ("n2", "sk-1", false));
    assert_eq!(u.created_at, k.created_at);
    let upd = UpdateApiKeyRequest { name: None, api_key: None, base_url: None, default_model: None, is_active: None };
    assert_eq!(update_api_key(&mut svc, "zzz", upd).unwrap_err(), NOT_FOUND);
    assert_eq!(get_api_key(&svc, "zzz").unwrap_err(), NOT_FOUND);
    let d = delete_api_key(&mut svc, &k.id).unwrap();
    assert_eq!(d.data.unwrap(), format!("API Key {} deleted", k.id));
    assert_eq!(delete_api_key(&mut svc, &k.id).unwrap_err(), NOT_FOUND);
    let made = new_api_key(
        CreateApiKeyRequest { name: "a".to_string(), api_key: "b".to_string(), base_url: "c".to_string(), default_model: "d".to_string() },
        "id9".to_string(),
        "now".to_string(),
    );
    assert_eq!((made.id.as_str(), made.created_at.as_str(), made.updated_at.as_str()), ("id9", "now", "now"));
}

fn json_out(v: &JsonValue) -> serde_json::Value {
    match v {
        JsonValue::Null => serde_json::Value::Null,
        JsonValue::Bool(b) => serde_json::Value::Bool(*b),
        JsonValue::Number(n) => n.parse().map(serde_json::Value::Number).unwrap_or(serde_json::Value::Null),
        JsonValue::Str(s) => serde_json::Value::String(s.clone()),
        JsonValue::Array(a) => serde_json::Value::Array(a.iter().map(json_out).collect()),
        JsonValue::Object(m) => serde_json::Value::Object(m.iter().map(|(k, x)| (k.clone(), json_out(x))).collect()),
    }
}

fn to_json_text(v: &JsonValue) -> String {
    serde_json::to_string(&json_out(v)).unwrap_or_default()
}
