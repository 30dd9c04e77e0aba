use agent_web::agents::AgentsService;
use agent_web::context::ContextEntry;
use agent_web::turn::{ChatAction, ChatPhase, ChatTurn};
use agent_web::web_search::{SearchIntent, SearchResult, WebSearchResponse};

fn event_names(acts: &[ChatAction]) -> Vec<String> {
    acts.iter()
        .map(|a| match a {
            ChatAction::Emit(e) => format!("emit:{}", e.event),
            ChatAction::AskModel(_) => "ask".to_string(),
            ChatAction::Search(_) => "search".to_string(),
            ChatAction::PrepareHistory => "history".to_string(),
            ChatAction::OpenStream(_) => "open".to_string(),
            ChatAction::SaveReply(r) => format!("save:{}", r),
            ChatAction::Finish => "finish".to_string(),
        })
        .collect()
}

fn chunk(text: &str) -> String {
    format!("data: {{\"choices\":[{{\"delta\":{{\"content\":\"{}\"}}}}]}}\n", text)
}

#[test]
fn direct_turn_streams_and_saves() {
    let svc = AgentsService::new(vec![]);
    let plan = svc.get_agent_by_id("builtin-plan").unwrap();
    let (mut t, acts) = ChatTurn::start(&svc, &plan, "make a plan");
    assert_eq!(event_names(&acts), vec!["emit:agent_tag", "history"]);
    let hist = vec![ContextEntry::new("user", "make a plan")];
    let acts = t.on_history(&hist);
    match &acts[0] {
        ChatAction::OpenStream(m) => {
            assert_eq!(m.len(), 2);
            assert_eq!(m[0].role, "system");
            assert!(m[0].content.starts_with("You are a Plan agent."));
            assert_eq!(m[1].content, "make a plan");
        }
        _ => panic!("expected the stream to open"),
    }
    assert!(t.on_stream_opened(Ok(())).is_empty());
    assert_eq!(t.current_phase(), ChatPhase::Streaming);
    let a = t.on_chunk(&(chunk("Step") + "data: {\"choices\":[{\"delta\":{\"content\":\" 1\"}}]}"));
    assert_eq!(event_names(&a), vec!["emit:text"]);
    let a = t.on_chunk("\n");
    assert_eq!(event_names(&a), vec!["emit:text"]);
    let end = t.on_stream_end();
    assert_eq!(event_names(&end), vec!["save:Step 1", "emit:done", "finish"]);
    assert_eq!(t.current_phase(), ChatPhase::Finished);
}

#[test]
fn orchestrated_turn_routes_and_reports_delegation() {
    let svc = AgentsService::new(vec![]);
    let orch = svc.get_agent_by_id("builtin-orchestrator").unwrap();
    let (mut t, acts) = ChatTurn::start(&svc, &orch, "explore the repo");
    assert_eq!(event_names(&acts), vec!["emit:agent_tag", "ask"]);
    assert_eq!(t.current_phase(), ChatPhase::AwaitIntent);
    let acts = t.on_intent_reply(&svc, Some("{\"agent_id\":\"builtin-explore\",\"reason\":\"code\"}"));
    assert_eq!(event_names(&acts), vec!["emit:delegation", "emit:agent_tag", "history"]);
    if let ChatAction::Emit(e) = &acts[1] {
        assert!(e.data.contains("Explore Agent"));
    }
    let _ = t.on_history(&[]);
    let acts = t.on_stream_opened(Err("refused".to_string()));
    assert_eq!(event_names(&acts), vec!["emit:error", "finish"]);
    if let ChatAction::Emit(e) = &acts[0] {
        let v: serde_json::Value = serde_json::from_str(&e.data).unwrap();
        assert_eq!(v["message"], "Failed to start delegation stream: refused");
    }
}

#[test]
fn general_purpose_turn_searches() {
    let svc = AgentsService::new(vec![]);
    let orch = svc.get_agent_by_id("builtin-orchestrator").unwrap();
    let (mut t, _) = ChatTurn::start(&svc, &orch, "latest news");
    let acts = t.on_intent_reply(&svc, None);
    assert_eq!(event_names(&acts), vec!["emit:delegation", "emit:agent_tag", "ask"]);
    let intent = Some(SearchIntent { needs_search: true, queries: vec!["news".to_string()], reason: String::new() });
    let acts = t.on_search_intent(&intent);
    assert_eq!(event_names(&acts), vec!["emit:tool_call_start", "search"]);
    let results = vec![WebSearchResponse {
        query: "news".to_string(),
        results: vec![SearchResult { title: "T".to_string(), url: String::new(), snippet: "S".to_string() }],
        source: "DuckDuckGo".to_string(),
    }];
    let acts = t.on_search_results(&results);
    assert_eq!(event_names(&acts), vec!["emit:tool_call_end", "history"]);
    let acts = t.on_history(&[]);
    match &acts[0] {
        ChatAction::OpenStream(m) => assert!(m[0].content.contains("## 联网搜索结果") && m[0].content.contains("注意：你拥有联网搜索能力")),
        _ => panic!("expected the stream to open"),
    }
    t.on_stream_opened(Ok(()));
    let acts = t.on_chunk_error("reset");
    assert_eq!(event_names(&acts), vec!["emit:error", "emit:delegation", "emit:done", "finish"]);
}

#[test]
fn intent_reply_is_tested_before_it_is_taken() {
    let svc = AgentsService::new(vec![]);
    let orch = svc.get_agent_by_id("builtin-orchestrator").unwrap();
    let (mut t, _) = ChatTurn::start(&svc, &orch, "explore the repo");
    assert!(t.try_intent_reply(&svc, Some("} then {")).is_none());
    assert_eq!(t.current_phase(), ChatPhase::AwaitIntent);
    let acts = t.try_intent_reply(&svc, Some("{\"agent_id\":\"builtin-explore\",\"reason\":\"code\"}")).unwrap();
    assert_eq!(event_names(&acts), vec!["emit:delegation", "emit:agent_tag", "history"]);
    assert!(t.try_intent_reply(&svc, None).is_none());
}
