use agent_web::agents::{
    agent_messages, load_builtin_agents, AgentDefinition, AgentError, AgentStatus, AgentType,
    AgentsService,
};
use agent_web::models::ApiKeyConfig;

fn custom(id: &str, name: &str) -> AgentDefinition {
    AgentDefinition {
        agent_id: id.to_string(),
        agent_type: AgentType::Plan,
        name: name.to_string(),
        description: "d".to_string(),
        when_to_use: "w".to_string(),
        tools: vec!["search".to_string()],
        model: "sonnet".to_string(),
        system_prompt: "You help.".to_string(),
        source: "file".to_string(),
        base_dir: "b".to_string(),
        is_orchestrator: false,
    }
}

fn key(id: &str, active: bool) -> ApiKeyConfig {
    ApiKeyConfig {
        id: id.to_string(),
        name: format!("key {}", id),
        api_key: "sk-test".to_string(),
        base_url: "https://api.example.com".to_string(),
        default_model: "m".to_string(),
        is_active: active,
        created_at: "t0".to_string(),
        updated_at: "t0".to_string(),
    }
}

#[test]
fn builtin_agents_are_loaded() {
    let v = load_builtin_agents();
    let mut ids: Vec<String> = v.iter().map(|a| a.agent_id.clone()).collect();
    ids.sort();
    assert_eq!(
        ids,
        vec![
            "builtin-code-guide",
            "builtin-explore",
            "builtin-general-purpose",
            "builtin-orchestrator",
            "builtin-plan",
            "builtin-verification"
        ]
    );
    let orch = v.iter().find(|a| a.agent_id == "builtin-orchestrator").unwrap();
    assert!(orch.is_orchestrator);
    assert_eq!(orch.system_prompt, "");
    assert_eq!(orch.tools, vec!["delegate_to_agent", "list_available_agents"]);
    assert!(v.iter().all(|a| a.source == "built-in" && a.model == "sonnet"));
    let gp = v.iter().find(|a| a.agent_id == "builtin-general-purpose").unwrap();
    assert_eq!(gp.tools.len(), 6);
    assert!(gp.system_prompt.starts_with("你是一个通用智能助手"));
}

#[test]
fn agent_type_names() {
    assert_eq!(AgentType::GeneralPurpose.as_str(), "general-purpose");
    assert_eq!(AgentType::Orchestrator.as_str(), "orchestrator");
    assert_eq!(AgentType::Custom.as_str(), "custom");
    assert_eq!(AgentType::Verification.variant_name(), "Verification");
}

#[test]
fn lookup_by_id_and_type() {
    let svc = AgentsService::new(vec![]);
    assert_eq!(svc.list_agents().len(), 6);
    assert_eq!(svc.get_agent_by_id("builtin-plan").unwrap().name, "Plan Agent");
    assert!(svc.get_agent_by_id("nope").is_none());
    assert_eq!(svc.get_agent(&AgentType::Explore).unwrap().agent_id, "builtin-explore");
    assert!(svc.get_agent(&AgentType::Custom).is_none());
    let others = svc.list_non_orchestrator_agents();
    assert_eq!(others.len(), 5);
    assert!(others.iter().all(|a| a.agent_type != AgentType::Orchestrator));
}

#[test]
fn register_custom_agent_fills_id_kind_and_source() {
    let mut svc = AgentsService::new(vec![]);
    assert!(svc.register_custom_agent(custom("", "Mine")).is_ok());
    let all = svc.list_agents();
    assert_eq!(all.len(), 7);
    let mine = all.iter().find(|a| a.name == "Mine").unwrap();
    assert!(mine.agent_id.starts_with("custom-"));
    assert!(mine.agent_id.len() > "custom-".len());
    assert_eq!(mine.agent_type, AgentType::Custom);
    assert_eq!(mine.source, "custom");
    // A second registration gets another fresh id.
    svc.register_custom_agent(custom("", "Mine")).unwrap();
    assert_eq!(svc.list_agents().len(), 8);
    // A given id is kept.
    svc.register_custom_agent(custom("mine-1", "Named")).unwrap();
    assert_eq!(svc.get_agent_by_id("mine-1").unwrap().name, "Named");
}

#[test]
fn built_in_agents_cannot_be_changed_or_deleted() {
    let mut svc = AgentsService::new(vec![]);
    let e = svc.update_custom_agent("builtin-plan", custom("x", "X")).unwrap_err();
    assert_eq!(e, AgentError::CannotModifyBuiltIn("builtin-plan".to_string()));
    assert_eq!(e.message(), "Cannot modify built-in agent: builtin-plan");
    let e = svc.delete_custom_agent("builtin-explore").unwrap_err();
    assert_eq!(e.message(), "Cannot delete built-in agent: builtin-explore");
    let e = svc.update_custom_agent("missing", custom("x", "X")).unwrap_err();
    assert_eq!(e.message(), "Agent not found: missing");
    assert_eq!(svc.get_agent_by_id("builtin-plan").unwrap().name, "Plan Agent");
}

#[test]
fn custom_agent_update_and_delete() {
    let mut svc = AgentsService::new(vec![]);
    svc.register_custom_agent(custom("c1", "One")).unwrap();
    svc.update_custom_agent("c1", custom("other", "Two")).unwrap();
    let a = svc.get_agent_by_id("c1").unwrap();
    assert_eq!(a.name, "Two");
    assert_eq!(a.agent_id, "c1");
    assert_eq!(a.agent_type, AgentType::Custom);
    assert!(svc.get_agent_by_id("other").is_none());
    svc.delete_custom_agent("c1").unwrap();
    assert!(svc.get_agent_by_id("c1").is_none());
    assert_eq!(svc.delete_custom_agent("c1").unwrap_err(), AgentError::AgentNotFound("c1".to_string()));
}

#[test]
fn loaded_agent_without_id_takes_file_stem() {
    let mut svc = AgentsService::new(vec![]);
    svc.insert_loaded_agent(custom("", "From file"), "planner");
    let a = svc.get_agent_by_id("planner").unwrap();
    assert_eq!(a.name, "From file");
    assert_eq!(a.agent_type, AgentType::Plan);
    svc.insert_loaded_agent(custom("kept-id", "Other"), "ignored");
    assert!(svc.get_agent_by_id("kept-id").is_some());
    assert!(svc.get_agent_by_id("ignored").is_none());
}

#[test]
fn run_lifecycle() {
    let mut svc = AgentsService::new(vec![]);
    let (s, a) = svc.start_run_by_id("builtin-plan", "plan my week").unwrap();
    assert_eq!(a.agent_id, "builtin-plan");
    assert_eq!(s.status, AgentStatus::Running);
    assert_eq!(s.messages.len(), 1);
    assert_eq!(s.messages[0].role, "user");
    assert_eq!(s.messages[0].content, "plan my week");
    assert!(s.result.is_none());
    assert!(s.created_at > 0);
    assert_eq!(svc.get_status().active_sessions, 1);
    let done = svc.finish_run(&s.id, "Monday: rest").unwrap();
    assert_eq!(done.status, AgentStatus::Completed);
    assert_eq!(done.result.as_deref(), Some("Monday: rest"));
    assert_eq!(done.messages.len(), 2);
    assert_eq!(done.messages[1].role, "assistant");
    assert_eq!(svc.get_session(&s.id).unwrap().status, AgentStatus::Completed);
    assert_eq!(svc.get_status().active_sessions, 0);
    assert_eq!(svc.list_sessions().len(), 1);
    assert_eq!(svc.finish_run("nope", "x").unwrap_err(), AgentError::SessionNotFound);
    assert_eq!(AgentError::SessionNotFound.message(), "Session not found after execution");
}

#[test]
fn run_by_kind_and_unknown_agent() {
    let mut svc = AgentsService::new(vec![]);
    let (_s, a) = svc.start_run(&AgentType::Verification, "check").unwrap();
    assert_eq!(a.agent_id, "builtin-verification");
    let e = svc.start_run(&AgentType::Custom, "x").unwrap_err();
    assert_eq!(e, AgentError::AgentTypeNotFound(AgentType::Custom));
    assert_eq!(e.message(), "Agent not found: Custom");
    let e = svc.start_run_by_id("ghost", "x").unwrap_err();
    assert_eq!(e.message(), "Agent not found: ghost");
    assert_eq!(svc.list_sessions().len(), 1);
}

#[test]
fn cancel_marks_failed() {
    let mut svc = AgentsService::new(vec![]);
    let (s, _a) = svc.start_run_by_id("builtin-explore", "look").unwrap();
    assert!(svc.cancel_session(&s.id).is_ok());
    assert_eq!(svc.get_session(&s.id).unwrap().status, AgentStatus::Failed);
    assert!(svc.cancel_session("unknown").is_ok());
    assert_eq!(svc.get_status().active_sessions, 0);
}

#[test]
fn agent_messages_are_system_then_user() {
    let a = custom("c", "C");
    let m = agent_messages(&a, "task");
    assert_eq!(m.len(), 2);
    assert_eq!((m[0].role.as_str(), m[0].content.as_str()), ("system", "You help."));
    assert_eq!((m[1].role.as_str(), m[1].content.as_str()), ("user", "task"));
}

#[test]
fn api_keys_store_read_delete() {
    let mut svc = AgentsService::new(vec![key("a", false), key("b", true), key("a", true)]);
    assert_eq!(svc.list_api_keys().len(), 2);
    assert!(svc.get_api_key("a").unwrap().is_active);
    let mut k = key("c", false);
    k.name = "third".to_string();
    svc.save_api_key(k.clone());
    assert_eq!(svc.get_api_key("c").unwrap().name, "third");
    svc.delete_api_key("c").unwrap();
    assert!(svc.get_api_key("c").is_none());
    let e = svc.delete_api_key("c").unwrap_err();
    assert_eq!(e.message(), "API Key not found: c");
    assert!(svc.active_api_key().unwrap().is_active);
    let svc2 = AgentsService::new(vec![key("z", false)]);
    assert!(svc2.active_api_key().is_none());
}
