use agent_web::context::ContextEntry;
use agent_web::history_snip::{
    create_segment_summary, strategy_hybrid, strategy_keep_recent, strategy_priority_based, strategy_smart,
    HistorySnipConfig, HistorySnipManager, SnipStrategy,
};

fn entry(role: &str, content: &str, tokens: usize) -> ContextEntry {
    let mut e = ContextEntry::new(role, content);
    e.token_count = tokens;
    e
}

fn contents(es: &[ContextEntry]) -> Vec<String> {
    es.iter().map(|e| e.content.clone()).collect()
}

fn history(n: usize, tokens: usize) -> Vec<ContextEntry> {
    (0..n)
        .map(|i| entry(if i % 2 == 0 { "user" } else { "assistant" }, &format!("m{}", i), tokens))
        .collect()
}

#[test]
fn keep_recent_keeps_newest_within_budget() {
    let es = history(6, 10);
    let out = strategy_keep_recent(&es, 35, 10);
    assert_eq!(contents(&out), vec!["m3", "m4", "m5"]);
    let out = strategy_keep_recent(&es, 100, 2);
    assert_eq!(contents(&out), vec!["m4", "m5"]);
}

#[test]
fn priority_based_fits_budget_in_history_order() {
    let mut es = history(5, 10);
    es[1] = entry("system", "m1", 10);
    let out = strategy_priority_based(&es, 30);
    let total: usize = out.iter().map(|e| e.token_count).sum();
    assert!(total <= 30);
    assert!(contents(&out).contains(&"m1".to_string()));
    let idx: Vec<usize> = out.iter().map(|e| e.content[1..].parse().unwrap()).collect();
    let mut sorted = idx.clone();
    sorted.sort();
    assert_eq!(idx, sorted);
}

#[test]
fn segment_summary_text() {
    let es = vec![entry("user", "How do I sort?", 1), entry("assistant", "Use sort. It is easy.", 1)];
    let s: String = create_segment_summary(&es).iter().collect();
    assert_eq!(s, "[历史对话摘要]\n• 用户: How do I sort?\n• 助手: Use sort");
}

#[test]
fn smart_and_hybrid_end_with_recent_messages() {
    let es = history(8, 10);
    let (out, records) = strategy_smart(&es, 40, 2, 3);
    assert_eq!(contents(&out[out.len() - 2..]), vec!["m6", "m7"]);
    assert!(records.len() <= 2);
    let out = strategy_hybrid(&es, 40, 2, 3);
    assert_eq!(contents(&out[out.len() - 2..]), vec!["m6", "m7"]);
}

#[test]
fn manager_leaves_small_history_alone() {
    let mut m = HistorySnipManager::with_defaults();
    let es = history(4, 10);
    let out = m.snip_if_needed(&es);
    assert_eq!(contents(&out), contents(&es));
    assert_eq!(m.stats().total_snips, 0);
}

#[test]
fn manager_snips_over_budget() {
    let cfg = HistorySnipConfig {
        max_tokens: 50,
        strategy: SnipStrategy::KeepRecent,
        keep_recent_count: 10,
        segment_size: 6,
        system_prompt_reserve: 20,
        enabled: true,
    };
    let mut m = HistorySnipManager::new(cfg);
    let es = history(6, 10);
    let out = m.snip_if_needed(&es);
    assert_eq!(contents(&out), vec!["m3", "m4", "m5"]);
    let st = m.stats();
    assert_eq!((st.total_snips, st.total_messages_compressed, st.total_tokens_saved), (1, 3, 30));
    m.set_enabled(false);
    assert_eq!(m.snip_if_needed(&es).len(), 6);
    assert!(!m.stats().is_enabled);
    m.clear();
    assert!(m.get_segments().is_empty());
    assert_eq!(m.stats().total_snips, 1);
}

#[test]
fn smart_and_hybrid_stay_within_budget_when_recent_fits() {
    let es = history(12, 10);
    for budget in [20usize, 25, 40, 60] {
        let (out, _) = strategy_smart(&es, budget, 2, 3);
        let total: usize = out.iter().map(|e| e.token_count).sum();
        assert!(total <= budget);
        let out = strategy_hybrid(&es, budget, 2, 3);
        let total: usize = out.iter().map(|e| e.token_count).sum();
        assert!(total <= budget);
    }
}

#[test]
fn manager_output_fits_budget_even_when_recent_exceed_it() {
    for strategy in [SnipStrategy::Smart, SnipStrategy::Hybrid] {
        let cfg = HistorySnipConfig {
            max_tokens: 45,
            strategy,
            keep_recent_count: 6,
            segment_size: 2,
            system_prompt_reserve: 20,
            enabled: true,
        };
        let mut m = HistorySnipManager::new(cfg);
        let es = history(10, 10);
        let out = m.snip_if_needed(&es);
        let total: usize = out.iter().map(|e| e.token_count).sum();
        assert!(total <= 25);
        assert_eq!(contents(&out), vec!["m8", "m9"]);
    }
}

#[test]
fn defaults_start_with_zero_counters() {
    let m = HistorySnipManager::with_defaults();
    let s = m.stats();
    assert_eq!((s.total_snips, s.total_messages_compressed, s.total_tokens_saved, s.segments_created), (0, 0, 0, 0));
    assert!(s.is_enabled);
    assert!(m.get_segments().is_empty());
}
