use agent_web::agents::AgentsService;
use agent_web::chat::{
    agent_tag_event, answer_messages, answer_system_prompt, chat_route, count_hits, delegation_event,
    done_event, drain_lines, error_event, prompt_messages, resolve_target, routed_agent_id,
    search_end_event, search_queries, search_start_event, text_event, ChatRoute,
};
use agent_web::context::ContextEntry;
use agent_web::web_search::{SearchIntent, SearchResult, WebSearchResponse};

fn data(e: &agent_web::chat::ChatEvent) -> serde_json::Value {
    serde_json::from_str(&e.data).unwrap()
}

#[test]
fn routes_by_agent() {
    let svc = AgentsService::new(vec![]);
    assert_eq!(chat_route(&svc.get_agent_by_id("builtin-orchestrator").unwrap()), ChatRoute::Orchestrated);
    assert_eq!(chat_route(&svc.get_agent_by_id("builtin-general-purpose").unwrap()), ChatRoute::GeneralPurpose);
    assert_eq!(chat_route(&svc.get_agent_by_id("builtin-plan").unwrap()), ChatRoute::Direct);
}

#[test]
fn routing_falls_back_to_general_purpose() {
    assert_eq!(routed_agent_id(Some("{\"agent_id\":\"builtin-plan\",\"reason\":\"r\"}")), "builtin-plan");
    assert_eq!(routed_agent_id(Some("I think plan")), "builtin-general-purpose");
    assert_eq!(routed_agent_id(None), "builtin-general-purpose");
    let svc = AgentsService::new(vec![]);
    assert_eq!(resolve_target(&svc, "builtin-plan").agent_id, "builtin-plan");
    assert_eq!(resolve_target(&svc, "missing").agent_id, "builtin-general-purpose");
}

#[test]
fn search_only_when_needed_with_queries() {
    let yes = Some(SearchIntent { needs_search: true, queries: vec!["q1".to_string()], reason: String::new() });
    assert_eq!(search_queries(&yes), Some(vec!["q1".to_string()]));
    let empty = Some(SearchIntent { needs_search: true, queries: vec![], reason: String::new() });
    assert_eq!(search_queries(&empty), None);
    let no = Some(SearchIntent { needs_search: false, queries: vec!["q".to_string()], reason: String::new() });
    assert_eq!(search_queries(&no), None);
    assert_eq!(search_queries(&None), None);
}

#[test]
fn system_prompt_with_search_context() {
    assert_eq!(answer_system_prompt("base", None), "base");
    assert_eq!(
        answer_system_prompt("base", Some("CTX")),
        "base\n\nCTX\n\n注意：你拥有联网搜索能力。以上搜索结果来自实时互联网搜索。请结合搜索结果为用户提供最新、最准确的回答。"
    );
}

#[test]
fn messages_for_the_model() {
    let m = prompt_messages("sys", "hello");
    assert_eq!((m[0].role.as_str(), m[1].content.as_str()), ("system", "hello"));
    let hist = vec![ContextEntry::new("user", "q"), ContextEntry::new("assistant", "a")];
    let m = answer_messages("S", &hist);
    assert_eq!(m.len(), 3);
    assert_eq!((m[0].role.as_str(), m[0].content.as_str()), ("system", "S"));
    assert_eq!((m[1].role.as_str(), m[1].content.as_str()), ("user", "q"));
    assert_eq!((m[2].role.as_str(), m[2].content.as_str()), ("assistant", "a"));
}

#[test]
fn draining_the_stream_buffer() {
    let buf = "data: {\"choices\":[{\"delta\":{\"content\":\"He\"}}]}\n\n  \ndata: {\"choices\":[{\"delta\":{\"content\":\"llo\"}}]}\r\ndata: {\"choi";
    let (contents, rest) = drain_lines(buf);
    assert_eq!(contents, vec!["He".to_string(), "llo".to_string()]);
    assert_eq!(rest, "data: {\"choi");
    let (contents, rest) = drain_lines("data: [DONE]\ndata: {\"choices\":[{\"delta\":{\"content\":\"x\"}}]}\n");
    assert!(contents.is_empty());
    assert_eq!(rest, "data: {\"choices\":[{\"delta\":{\"content\":\"x\"}}]}\n");
    let (contents, rest) = drain_lines("no newline yet");
    assert!(contents.is_empty());
    assert_eq!(rest, "no newline yet");
}

#[test]
fn browser_events() {
    let e = agent_tag_event("builtin-orchestrator", "Orchestrator");
    assert_eq!(e.event, "agent_tag");
    assert_eq!(data(&e)["agent_name"], "Orchestrator");
    let svc = AgentsService::new(vec![]);
    let plan = svc.get_agent_by_id("builtin-plan").unwrap();
    let d = delegation_event(&plan, "do it", "completed");
    assert_eq!(d.event, "delegation");
    assert_eq!(data(&d)["target_agent_id"], "builtin-plan");
    assert_eq!(data(&d)["status"], "completed");
    assert_eq!(data(&text_event("hi"))["content"], "hi");
    let err = error_event("Stream error: ", "timeout");
    assert_eq!(err.event, "error");
    assert_eq!(data(&err)["message"], "Stream error: timeout");
    let done = done_event();
    assert_eq!((done.event.as_str(), done.data.as_str()), ("done", "{}"));
}

#[test]
fn search_events() {
    let s = search_start_event(&vec!["a".to_string(), "b".to_string()]);
    assert_eq!(s.event, "tool_call_start");
    assert_eq!(data(&s)["tool_name"], "web_search");
    assert_eq!(data(&s)["input"]["queries"][1], "b");
    let hits = vec![
        WebSearchResponse {
            query: "a".to_string(),
            results: vec![SearchResult { title: "t".to_string(), url: "u".to_string(), snippet: "s".to_string() }; 3],
            source: "DuckDuckGo".to_string(),
        },
        WebSearchResponse { query: "b".to_string(), results: vec![], source: "error".to_string() },
    ];
    assert_eq!(count_hits(&hits), 3);
    let e = search_end_event(count_hits(&hits));
    assert_eq!(e.event, "tool_call_end");
    assert_eq!(data(&e)["output"], "找到 3 条搜索结果");
}
