use agent_web::json::JsonValue;
use agent_web::web_search::{encode, SearchResult, WebSearchResponse, WebSearchService};

fn resp(query: &str, hits: Vec<(&str, &str, &str)>, source: &str) -> WebSearchResponse {
    WebSearchResponse {
        query: query.to_string(),
        results: hits
            .into_iter()
            .map(|(t, u, s)| SearchResult { title: t.to_string(), url: u.to_string(), snippet: s.to_string() })
            .collect(),
        source: source.to_string(),
    }
}

#[test]
fn encode_is_percent_encoding() {
    assert_eq!(encode("Hello World-_.~"), "Hello+World-_.~");
    assert_eq!(encode("a/b?c=d"), "a%2Fb%3Fc%3Dd");
    assert_eq!(encode("中"), "%E4%B8%AD");
    assert_eq!(encode(""), "");
}

#[test]
fn search_urls() {
    assert_eq!(
        WebSearchService::api_url("rust lang"),
        "https://api.duckduckgo.com/?q=rust+lang&format=json&no_html=1&skip_disambig=1"
    );
    assert_eq!(WebSearchService::html_url("a&b"), "https://html.duckduckgo.com/html/?q=a%26b");
}

#[test]
fn intent_prompt_and_candidates() {
    assert!(WebSearchService::build_search_intent_prompt().starts_with("你是一个搜索意图分析引擎"));
    let c = WebSearchService::search_intent_candidates("  ok {\"needs_search\": true} end ");
    assert_eq!(c, vec!["ok {\"needs_search\": true} end".to_string(), "{\"needs_search\": true}".to_string()]);
    let c = WebSearchService::search_intent_candidates("plain");
    assert_eq!(c, vec!["plain".to_string()]);
}

#[test]
fn context_with_no_searches() {
    assert_eq!(WebSearchService::format_search_results_as_context(&[]), "（未找到相关搜索结果）");
}

#[test]
fn context_lists_each_search() {
    let rs = vec![
        resp("rust", vec![("Rust", "https://rust-lang.org", "A language."), ("Book", "", "Read it.")], "DuckDuckGo"),
        resp("none", vec![], "error"),
    ];
    let expected = "## 联网搜索结果\n\n\
### 搜索: rust (来源: DuckDuckGo)\n\n\
1. **Rust**\n   链接: https://rust-lang.org\n   A language.\n\n\
2. **Book**\n   Read it.\n\n\
### 搜索: none\n未找到相关结果。\n\n\
\n---\n请基于以上搜索结果回答用户的问题。如果搜索结果不够充分，可以结合你已有的知识进行补充，但请标明哪些是搜索结果提供的信息。\n";
    assert_eq!(WebSearchService::format_search_results_as_context(&rs), expected);
}

#[test]
fn instant_answer_hits() {
    let body = parse_json(
        r#"{"Abstract":"Rust is a language","AbstractURL":"https://r.org","AbstractSource":"Wikipedia",
            "RelatedTopics":[{"Text":"Topic one","FirstURL":"https://t1"},{"Text":"","FirstURL":"https://t2"},
                             {"Name":"group"},{"Text":"Topic four","FirstURL":"https://t4"}],
            "Infobox":{"content":[{"label":"Paradigm","value":"multi"},{"label":"x"}]}}"#,
    )
    .unwrap();
    let r = WebSearchService::api_results("rust", &body);
    assert_eq!(r.source, "DuckDuckGo");
    assert_eq!(r.query, "rust");
    let got: Vec<(String, String, String)> =
        r.results.iter().map(|h| (h.title.clone(), h.url.clone(), h.snippet.clone())).collect();
    assert_eq!(
        got,
        vec![
            ("rust - Wikipedia".to_string(), "https://r.org".to_string(), "Rust is a language".to_string()),
            ("Topic one".to_string(), "https://t1".to_string(), "Topic one".to_string()),
            ("Topic four".to_string(), "https://t4".to_string(), "Topic four".to_string()),
            ("Paradigm".to_string(), "".to_string(), "multi".to_string()),
        ]
    );
}

#[test]
fn instant_answer_defaults_and_limits() {
    let topics: Vec<String> = (0..7).map(|i| format!("{{\"Text\":\"t{}\",\"FirstURL\":\"u{}\"}}", i, i)).collect();
    let text = format!("{{\"Abstract\":\"abs\",\"RelatedTopics\":[{}]}}", topics.join(","));
    let body = parse_json(&text).unwrap();
    let r = WebSearchService::api_results("q", &body);
    assert_eq!(r.results.len(), 6);
    assert_eq!(r.results[0].title, "q - DuckDuckGo");
    assert_eq!(r.results[0].url, "");
    assert_eq!(r.results[5].title, "t4");
    let long = "x".repeat(100);
    let body = parse_json(&format!("{{\"RelatedTopics\":[{{\"Text\":\"{}\",\"FirstURL\":\"u\"}}]}}", long)).unwrap();
    let r = WebSearchService::api_results("q", &body);
    assert_eq!(r.results[0].title.chars().count(), 80);
    assert_eq!(r.results[0].snippet.len(), 100);
}

#[test]
fn html_page_hits() {
    let body = "<p class=\"result__snippet\">The first snippet is &amp; long enough</p>\
<a class=\"result__a\" href=\"https://one.example\">First <b>title</b></a>\
<p class=\"result__snippet\">short</p>\
<p class=\"result__snippet\">Another snippet that is long <b>enough</b></p>\
<a class=\"result__a\" href=\"https://two.example\">Second</a>";
    let r = WebSearchService::html_results("q", body);
    assert_eq!(r.source, "DuckDuckGo HTML");
    assert_eq!(r.results.len(), 2);
    assert_eq!(r.results[0].snippet, "The first snippet is & long enough");
    assert_eq!(r.results[0].title, "First title");
    assert_eq!(r.results[0].url, "https://one.example");
    assert_eq!(r.results[1].snippet, "Another snippet that is long enough");
    assert_eq!(r.results[1].title, "Second");
    assert_eq!(r.results[1].url, "https://two.example");
}

#[test]
fn html_page_keeps_at_most_five() {
    let mut body = String::new();
    for i in 0..8 {
        body.push_str(&format!("<div class=\"result__snippet\">snippet number {} is long enough</div>", i));
    }
    let r = WebSearchService::html_results("q", &body);
    assert_eq!(r.results.len(), 5);
    assert_eq!(r.results[4].snippet, "snippet number 4 is long enough");
    assert_eq!(r.results[0].title, "snippet number 0 is long enough");
}

#[test]
fn failed_search_and_usable_reply() {
    let e = WebSearchService::error_response("q");
    assert_eq!((e.query.as_str(), e.source.as_str(), e.results.len()), ("q", "error", 0));
    assert!(!WebSearchService::api_reply_usable(&None));
    assert!(!WebSearchService::api_reply_usable(&Some(resp("q", vec![], "DuckDuckGo"))));
    assert!(WebSearchService::api_reply_usable(&Some(resp("q", vec![("a", "b", "c")], "DuckDuckGo"))));
}

fn json_in(v: &serde_json::Value) -> JsonValue {
    match v {
        serde_json::Value::Null => JsonValue::Null,
        serde_json::Value::Bool(b) => JsonValue::Bool(*b),
        serde_json::Value::Number(n) => JsonValue::Number(n.to_string()),
        serde_json::Value::String(s) => JsonValue::Str(s.clone()),
        serde_json::Value::Array(a) => JsonValue::Array(a.iter().map(json_in).collect()),
        serde_json::Value::Object(m) => JsonValue::Object(m.iter().map(|(k, x)| (k.clone(), json_in(x))).collect()),
    }
}

fn parse_json(text: &str) -> Option<JsonValue> {
    serde_json::from_str::<serde_json::Value>(text).ok().map(|v| json_in(&v))
}

#[test]
fn api_results_from_raw_text() {
    let r = WebSearchService::api_results_from_text(
        "rust",
        r#"{"Abstract":"A language","AbstractURL":"https://r","AbstractSource":"Wiki"}"#,
    )
    .unwrap();
    assert_eq!(r.source, "DuckDuckGo");
    assert_eq!(r.results.len(), 1);
    assert_eq!(r.results[0].title, "rust - Wiki");
    assert!(WebSearchService::api_results_from_text("rust", "not json").is_none());
}

#[test]
fn encoded_queries_tell_plus_from_space() {
    assert_eq!(encode("a+b c"), "a%2Bb+c");
    assert_ne!(encode("+"), encode(" "));
    assert_eq!(encode("é"), "%C3%A9");
}

#[test]
fn html_page_without_markers_has_no_hits() {
    let r = WebSearchService::html_results("rust", "<html><head><title>Search results for rust</title></head></html>");
    assert_eq!(r.query, "rust");
    assert!(r.results.is_empty());
    assert_eq!(r.source, "DuckDuckGo HTML");
}

#[test]
fn encoding_goes_piece_by_piece() {
    let (a, b) = ("中 a+", "b/é");
    assert_eq!(encode(&format!("{}{}", a, b)), format!("{}{}", encode(a), encode(b)));
}
