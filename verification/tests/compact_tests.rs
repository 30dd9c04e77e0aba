use agent_web::compact::{
    micro_compress_content, truncate_assistant_message, truncate_code_blocks, CompactConfig,
    CompactLevel, CompactService,
};
use agent_web::context::ContextEntry;

fn text(v: &[char]) -> String {
    v.iter().collect()
}

fn chars(s: &str) -> Vec<char> {
    s.chars().collect()
}

#[test]
fn micro_collapses_blank_lines_and_spaces() {
    let cfg = CompactConfig::default();
    let out = micro_compress_content(&cfg, "user", "a\n\n\n\n\nb   c");
    assert_eq!(text(&out), "a\n\nb c");
}

#[test]
fn truncate_assistant_keeps_head_and_tail() {
    let s: String = std::iter::repeat('x').take(20).collect();
    let out = truncate_assistant_message(10, &chars(&s));
    assert_eq!(text(&out), "xxxxxx\n\n... [省略 10 字符] ...\n\nxxxx");
}

#[test]
fn truncate_code_blocks_cuts_long_block() {
    let out = truncate_code_blocks(4, &chars("intro\n```rust\nabcdefgh\n```\nafter\n"));
    assert_eq!(text(&out), "intro\n```rust\nabcd\n// ... [代码块已截断，省略 5 字符] ...\n```\nafter");
}

#[test]
fn compact_small_history_only_micro() {
    let svc = CompactService::with_defaults();
    let es = vec![ContextEntry::new("user", "hello   world"), ContextEntry::new("assistant", "hi")];
    let (out, res) = svc.compact(&es);
    assert_eq!(res.level_applied, CompactLevel::Micro);
    assert_eq!(out.len(), 2);
    assert_eq!(out[0].content, "hello world");
    assert_eq!(res.entries_before, 2);
    assert_eq!(res.memories_extracted, 0);
}

#[test]
fn token_estimate_mixes_cjk_and_words() {
    let e = ContextEntry::new("user", "你好 hello world");
    assert_eq!(e.token_count, 2 + 3);
    assert_eq!(ContextEntry::new("user", "").token_count, 0);
    assert_eq!(ContextEntry::new("user", "   ").token_count, 1);
}

#[test]
fn memory_sentences_match_keywords_in_any_case() {
    let kws = vec!["important".to_string()];
    let got = agent_web::compact::extract_memory_content(
        &kws,
        &chars("This is IMPORTANT stuff. short. nothing here at all"),
    );
    let got: Vec<String> = got.iter().map(|v| text(v)).collect();
    assert_eq!(got, vec!["This is IMPORTANT stuff".to_string()]);
    let block = agent_web::compact::memory_block_exec(&vec![chars("a fact"), chars("another")]);
    assert_eq!(text(&block), "[长期记忆 - 2 条关键信息]\n1. a fact\n2. another");
}

#[test]
fn compaction_with_every_level_disabled_changes_nothing() {
    let mut cfg = CompactConfig::default();
    cfg.enable_microcompact = false;
    cfg.enable_session_compact = false;
    cfg.enable_memory_compact = false;
    let svc = CompactService::new(cfg);
    let es = vec![ContextEntry::new("user", "a\n\n\n\nb"), ContextEntry::new("assistant", "x   y")];
    let (out, res) = svc.compact(&es);
    assert_eq!(res.level_applied, CompactLevel::NotApplied);
    assert_eq!(out[0].content, "a\n\n\n\nb");
    assert_eq!(out[1].content, "x   y");
}

fn sized(role: &str, content: &str, tokens: usize) -> ContextEntry {
    let mut e = ContextEntry::new(role, content);
    e.token_count = tokens;
    e
}

fn small_thresholds(memory: usize) -> CompactConfig {
    let mut cfg = CompactConfig::default();
    cfg.enable_microcompact = false;
    cfg.session_compact_threshold = 10;
    cfg.memory_compact_threshold = memory;
    cfg.session_keep_recent = 2;
    cfg.session_batch_size = 2;
    cfg
}

#[test]
fn session_level_summarizes_old_and_keeps_recent() {
    let svc = CompactService::new(small_thresholds(1_000_000));
    let es: Vec<ContextEntry> = (0..6).map(|i| sized(if i % 2 == 0 { "user" } else { "assistant" }, &format!("msg {}", i), 5)).collect();
    let (out, res) = svc.compact(&es);
    assert_eq!(res.level_applied, CompactLevel::Session);
    assert_eq!(out.len(), 4);
    assert_eq!(out[2].content, "msg 4");
    assert_eq!(out[3].content, "msg 5");
    assert_eq!((res.entries_before, res.entries_after, res.tokens_before), (6, 4, 30));
}

#[test]
fn memory_level_keeps_a_block_and_recent() {
    let svc = CompactService::new(small_thresholds(1));
    let es = vec![
        sized("user", "Remember that the deadline is Friday. ok", 5),
        sized("assistant", "noted", 5),
        sized("user", "next question", 5),
        sized("assistant", "answer", 5),
    ];
    let (out, res) = svc.compact(&es);
    assert_eq!(res.level_applied, CompactLevel::Memory);
    assert_eq!(res.memories_extracted, 1);
    assert_eq!(out.len(), 3);
    assert_eq!(out[0].content, "[长期记忆 - 1 条关键信息]\n1. Q: Remember that the deadline is Friday");
    assert_eq!(out[1].content, "next question");
    assert_eq!(out[2].content, "answer");
}

#[test]
fn code_block_limit_counts_characters() {
    let out = truncate_code_blocks(4, &chars("```\n中文\n```"));
    assert_eq!(text(&out), "```\n中文\n```");
    let out = truncate_code_blocks(2, &chars("```\n中文字\n```"));
    assert_eq!(text(&out), "```\n中文\n// ... [代码块已截断，省略 2 字符] ...\n```");
}

#[test]
fn short_cjk_sentence_is_not_a_memory() {
    let cfg = CompactConfig::default();
    let got = agent_web::compact::extract_memory_content(&cfg.memory_keywords, &chars("记住这个。"));
    assert!(got.is_empty());
    let got = agent_web::compact::extract_memory_content(&cfg.memory_keywords, &chars("记住这个非常重要的设计决定啊。"));
    assert_eq!(got.len(), 1);
}

#[test]
fn assistant_limit_counts_characters() {
    let mut cfg = CompactConfig::default();
    cfg.micro_max_assistant_chars = 5;
    let out = micro_compress_content(&cfg, "assistant", "中文中文");
    assert_eq!(text(&out), "中文中文");
}
