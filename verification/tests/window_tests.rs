use agent_web::context::{ContextEntry, ContextPriority};
use agent_web::window::{ContextManager, SessionContext};

fn entry(role: &str, content: &str, tokens: usize, p: ContextPriority) -> ContextEntry {
    let mut e = ContextEntry::new(role, content);
    e.token_count = tokens;
    e.priority = p;
    e
}

#[test]
fn window_reserves_a_tenth() {
    let m = ContextManager::new();
    let s = m.stats();
    assert_eq!((s.total_entries, s.total_tokens, s.max_tokens), (0, 0, 128000));
}

#[test]
fn adds_and_reads_back_in_order() {
    let mut m = ContextManager::with_max_tokens(1000);
    m.add_user("hello world");
    m.add_assistant("你好");
    let es = m.get_entries();
    assert_eq!(es.len(), 2);
    assert_eq!((es[0].role.as_str(), es[0].content.as_str()), ("user", "hello world"));
    assert_eq!((es[1].role.as_str(), es[1].content.as_str()), ("assistant", "你好"));
    assert_eq!(m.stats().total_tokens, 3 + 2);
}

#[test]
fn evicts_lowest_priority_oldest_first() {
    // Window 100, reserve 10: budget 90.
    let mut m = ContextManager::with_max_tokens(100);
    m.add_entry(entry("system", "s", 30, ContextPriority::Critical));
    m.add_entry(entry("user", "n1", 20, ContextPriority::Normal));
    m.add_entry(entry("memory", "low", 20, ContextPriority::Low));
    m.add_entry(entry("user", "n2", 20, ContextPriority::Normal));
    assert_eq!(m.stats().total_tokens, 90);
    m.add_entry(entry("user", "n3", 20, ContextPriority::Normal));
    let names: Vec<String> = m.get_entries().iter().map(|e| e.content.clone()).collect();
    assert_eq!(names, vec!["s", "n1", "n2", "n3"]);
    m.add_entry(entry("user", "n4", 20, ContextPriority::Normal));
    let names: Vec<String> = m.get_entries().iter().map(|e| e.content.clone()).collect();
    assert_eq!(names, vec!["s", "n2", "n3", "n4"]);
}

#[test]
fn critical_entries_are_never_evicted() {
    let mut m = ContextManager::with_max_tokens(10);
    m.add_entry(entry("system", "a", 50, ContextPriority::Critical));
    m.add_entry(entry("user", "b", 5, ContextPriority::High));
    m.add_entry(entry("system", "c", 50, ContextPriority::Critical));
    let names: Vec<String> = m.get_entries().iter().map(|e| e.content.clone()).collect();
    assert_eq!(names, vec!["a", "c"]);
    m.add_system("rules");
    assert_eq!(m.get_entries().len(), 3);
    m.clear();
    assert_eq!(m.get_entries().len(), 0);
}

#[test]
fn new_session_context() {
    let s = SessionContext::new();
    assert_eq!(s.context_mgr.stats().max_tokens, 128000);
    assert!(s.snip_mgr.stats().is_enabled);
    assert!(s.snip_mgr.get_segments().is_empty());
}
