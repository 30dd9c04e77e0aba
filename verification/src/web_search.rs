//! Web search: the prompt that asks whether a message needs a search, the
//! reading of search replies, and the context handed to the model.

use vstd::prelude::*;
use vstd::utf8::encode_utf8;
use crate::json::{Json, JsonValue, get_key, as_text, opt_key, json_parse, parse_json};
use crate::orchestrator::{braces_in_order, braced_part};
use crate::text::{chars_of, string_of, push_str, push_all, trim, trim_exec, slice_chars,
    take_chars, take_chars_exec, decimal, decimal_exec, views, replace_all, replace_all_exec,
    split_pat, split_pat_exec, find_pat, find_first, occurs_at, utf8_len, utf8_len_exec};

verus! {

pub const SEARCH_INTENT_PROMPT: &'static str = r#"你是一个搜索意图分析引擎。分析用户的问题，判断是否需要联网搜索来获取最新信息。

## 需要搜索的情况
- 询问最新新闻、时事、近期事件
- 询问实时数据（天气、股票、汇率等）
- 询问特定产品、服务的最新价格或状态
- 询问最新技术文档、API 版本
- 询问某人/某事的最新动态
- 需要验证时效性信息的准确性
- 询问不确定或你不了解的事实性问题

## 不需要搜索的情况
- 一般性知识问答（数学、历史常识、编程语法等）
- 创意写作（写诗、写故事、翻译等）
- 日常闲聊、打招呼
- 代码编写、调试
- 分析用户提供的内容
- 概念解释、教学

## 输出格式（严格 JSON，不要输出其他内容）

{"needs_search": true/false, "queries": ["搜索词1", "搜索词2"], "reason": "简短理由"}

注意：
- queries 数组在 needs_search=false 时为空数组 []
- queries 中的搜索词应该是简洁有效的关键词，适合搜索引擎
- 最多生成 3 个搜索词
- 搜索词优先使用中文，除非原文是英文问题"#;

/// One search hit.
#[derive(Debug, Clone)]
pub struct SearchResult {
    pub title: String,
    pub url: String,
    pub snippet: String,
}

/// The mathematical form of a search hit.
pub struct HitView {
    pub title: Seq<char>,
    pub url: Seq<char>,
    pub snippet: Seq<char>,
}

impl View for SearchResult {
    type V = HitView;

    open spec fn view(&self) -> HitView {
        HitView { title: self.title@, url: self.url@, snippet: self.snippet@ }
    }
}

impl SearchResult {
    /// A field-by-field copy.
    pub fn duplicate(&self) -> (r: Self)
        ensures
            r@ == self@,
    {
        SearchResult { title: self.title.clone(), url: self.url.clone(), snippet: self.snippet.clone() }
    }
}

/// The hits of one search, and where they came from.
#[derive(Debug, Clone)]
pub struct WebSearchResponse {
    pub query: String,
    pub results: Vec<SearchResult>,
    pub source: String,
}

/// The mathematical form of the hits of a list.
pub open spec fn hit_views(s: Seq<SearchResult>) -> Seq<HitView> {
    s.map_values(|r: SearchResult| r@)
}

/// Whether a message needs a search, and with which queries.
#[derive(Debug, Clone)]
pub struct SearchIntent {
    pub needs_search: bool,
    pub queries: Vec<String>,
    pub reason: String,
}

/// Searches the web for the agents that answer with fresh information.
pub struct WebSearchService;

/// An unreserved URL byte: a letter, a digit, `-`, `_`, `.` or `~`.
pub open spec fn unreserved(b: u8) -> bool {
    (0x41 <= b <= 0x5A) || (0x61 <= b <= 0x7A) || (0x30 <= b <= 0x39) || b == 0x2D || b == 0x5F
        || b == 0x2E || b == 0x7E
}

/// The upper-case hexadecimal digit for `d < 16`.
pub open spec fn hex_digit(d: u8) -> char {
    if d < 10 {
        (d + 0x30) as char
    } else {
        (d - 10 + 0x41) as char
    }
}

/// How one byte is written in a query: itself when unreserved, `+` for a
/// space, `%` and two upper-case hexadecimal digits otherwise.
pub open spec fn encode_byte(b: u8) -> Seq<char> {
    if unreserved(b) {
        seq![b as char]
    } else if b == 0x20 {
        seq!['+']
    } else {
        seq!['%', hex_digit(b / 16), hex_digit(b % 16)]
    }
}

/// The query form of a byte string, byte by byte.
pub open spec fn encode_bytes(bs: Seq<u8>) -> Seq<char>
    decreases bs.len(),
{
    if bs.len() == 0 {
        Seq::empty()
    } else {
        encode_bytes(bs.drop_last()) + encode_byte(bs.last())
    }
}

fn hex_digit_exec(d: u8) -> (c: char)
    requires
        d < 16,
    ensures
        c == hex_digit(d),
{
    if d < 10 {
        (d + 0x30) as char
    } else {
        (d - 10 + 0x41) as char
    }
}

/// Percent-encodes the UTF-8 bytes of `input` (see `encode_byte`).
pub fn encode(input: &str) -> (r: String)
    ensures
        r@ == encode_bytes(encode_utf8(input@)),
{
    let bytes = input.as_bytes();
    let mut out: Vec<char> = Vec::new();
    let mut i: usize = 0;
    while i < bytes.len()
        invariant
            i <= bytes@.len(),
            bytes@ == encode_utf8(input@),
            out@ == encode_bytes(bytes@.take(i as int)),
        decreases bytes.len() - i,
    {
        let b = bytes[i];
        assert(bytes@.take(i + 1).drop_last() =~= bytes@.take(i as int));
        if (0x41 <= b && b <= 0x5A) || (0x61 <= b && b <= 0x7A) || (0x30 <= b && b <= 0x39)
            || b == 0x2D || b == 0x5F || b == 0x2E || b == 0x7E {
            out.push(b as char);
        } else if b == 0x20 {
            out.push('+');
        } else {
            out.push('%');
            out.push(hex_digit_exec(b / 16));
            out.push(hex_digit_exec(b % 16));
        }
        i += 1;
    }
    assert(bytes@.take(bytes@.len() as int) =~= bytes@);
    string_of(&out)
}

/// The address of the instant-answer API for a query.
pub open spec fn api_url(query: Seq<char>) -> Seq<char> {
    "https://api.duckduckgo.com/?q="@ + encode_bytes(encode_utf8(query)) + "&format=json&no_html=1&skip_disambig=1"@
}

/// The address of the HTML results page for a query.
pub open spec fn html_url(query: Seq<char>) -> Seq<char> {
    "https://html.duckduckgo.com/html/?q="@ + encode_bytes(encode_utf8(query))
}

/// The candidate texts of a search-intent reply, in the order they are
/// tried: the trimmed reply, then its part from the first `{` to the last `}`.
pub open spec fn intent_candidates(text: Seq<char>) -> Seq<Seq<char>> {
    let t = trim(text);
    match braced_part(t) {
        Some(b) => seq![t, b],
        None => seq![t],
    }
}

impl WebSearchService {
    /// The prompt that asks whether a message needs a web search.
    pub fn build_search_intent_prompt() -> (r: String)
        ensures
            r@ == SEARCH_INTENT_PROMPT@,
    {
        String::from_str(SEARCH_INTENT_PROMPT)
    }

    /// The address of the instant-answer API for a query.
    pub fn api_url(query: &str) -> (r: String)
        ensures
            r@ == api_url(query@),
    {
        let mut out = chars_of("https://api.duckduckgo.com/?q=");
        let e = encode(query);
        push_str(&mut out, e.as_str());
        push_str(&mut out, "&format=json&no_html=1&skip_disambig=1");
        string_of(&out)
    }

    /// The address of the HTML results page for a query.
    pub fn html_url(query: &str) -> (r: String)
        ensures
            r@ == html_url(query@),
    {
        let mut out = chars_of("https://html.duckduckgo.com/html/?q=");
        let e = encode(query);
        push_str(&mut out, e.as_str());
        string_of(&out)
    }

    /// The texts a search-intent reply is read from, in order (see
    /// `intent_candidates`); the first that reads as an intent is taken.
    pub fn search_intent_candidates(response_text: &str) -> (r: Vec<String>)
        requires
            braces_in_order(trim(response_text@)),
        ensures
            r@.map_values(|s: String| s@) == intent_candidates(response_text@),
    {
        let cs = chars_of(response_text);
        let t = trim_exec(&cs);
        let mut out: Vec<String> = Vec::new();
        out.push(string_of(&t));
        let part = crate::orchestrator::braced_text(&t);
        match part {
            Some(b) => {
                out.push(string_of(&b));
            },
            None => {},
        }
        assert(out@.map_values(|s: String| s@) =~= intent_candidates(response_text@));
        out
    }

    /// The reply of a search that failed: no hits, source `error`.
    pub fn error_response(query: &str) -> (r: WebSearchResponse)
        ensures
            r.query@ == query@,
            r.results@.len() == 0,
            r.source@ == "error"@,
    {
        WebSearchResponse { query: query.to_owned(), results: Vec::new(), source: String::from_str("error") }
    }

    /// Whether the instant-answer reply is used as it is: it came and has hits.
    pub fn api_reply_usable(reply: &Option<WebSearchResponse>) -> (r: bool)
        ensures
            r == (reply is Some && reply->0.results@.len() > 0),
    {
        match reply {
            Some(resp) => resp.results.len() > 0,
            None => false,
        }
    }
}

/// How one hit is listed: its number, its title, its link when it has one,
/// and its snippet.
pub open spec fn hit_block(n: nat, h: HitView) -> Seq<char> {
    decimal(n) + ". **"@ + h.title + "**\n"@
        + (if h.url.len() > 0 { "   链接: "@ + h.url + "\n"@ } else { Seq::empty() })
        + "   "@ + h.snippet + "\n\n"@
}

/// The hits of a list, numbered from 1.
pub open spec fn hit_blocks(hs: Seq<HitView>) -> Seq<char>
    decreases hs.len(),
{
    if hs.len() == 0 {
        Seq::empty()
    } else {
        hit_blocks(hs.drop_last()) + hit_block(hs.len() as nat, hs.last())
    }
}

/// How one search is listed: a note when it found nothing, else its query,
/// its source and its hits.
pub open spec fn search_block(r: WebSearchResponse) -> Seq<char> {
    if r.results@.len() == 0 {
        "### 搜索: "@ + r.query@ + "\n未找到相关结果。\n\n"@
    } else {
        "### 搜索: "@ + r.query@ + " (来源: "@ + r.source@ + ")\n\n"@ + hit_blocks(hit_views(r.results@))
    }
}

/// The searches of a list, in order.
pub open spec fn search_blocks(rs: Seq<WebSearchResponse>) -> Seq<char>
    decreases rs.len(),
{
    if rs.len() == 0 {
        Seq::empty()
    } else {
        search_blocks(rs.drop_last()) + search_block(rs.last())
    }
}

/// The context handed to the model: a note when there were no searches,
/// else a heading, each search, and a closing instruction.
pub open spec fn search_context(rs: Seq<WebSearchResponse>) -> Seq<char> {
    if rs.len() == 0 {
        "（未找到相关搜索结果）"@
    } else {
        "## 联网搜索结果\n\n"@ + search_blocks(rs)
            + "\n---\n请基于以上搜索结果回答用户的问题。如果搜索结果不够充分，可以结合你已有的知识进行补充，但请标明哪些是搜索结果提供的信息。\n"@
    }
}

fn push_hit_block(out: &mut Vec<char>, i: usize, h: &SearchResult)
    requires
        i < usize::MAX,
    ensures
        final(out)@ == old(out)@ + hit_block((i + 1) as nat, h@),
{
    let num = decimal_exec((i + 1) as u128);
    push_all(out, &num);
    push_str(out, ". **");
    push_str(out, h.title.as_str());
    push_str(out, "**\n");
    if !h.url.as_str().is_empty() {
        push_str(out, "   链接: ");
        push_str(out, h.url.as_str());
        push_str(out, "\n");
    }
    push_str(out, "   ");
    push_str(out, h.snippet.as_str());
    push_str(out, "\n\n");
}

fn push_search_block(out: &mut Vec<char>, r: &WebSearchResponse)
    ensures
        final(out)@ == old(out)@ + search_block(*r),
{
    if r.results.len() == 0 {
        push_str(out, "### 搜索: ");
        push_str(out, r.query.as_str());
        push_str(out, "\n未找到相关结果。\n\n");
        return;
    }
    push_str(out, "### 搜索: ");
    push_str(out, r.query.as_str());
    push_str(out, " (来源: ");
    push_str(out, r.source.as_str());
    push_str(out, ")\n\n");
    let ghost head = out@;
    let mut i: usize = 0;
    while i < r.results.len()
        invariant
            i <= r.results.len(),
            out@ == head + hit_blocks(hit_views(r.results@.take(i as int))),
        decreases r.results.len() - i,
    {
        let h = &r.results[i];
        push_hit_block(out, i, h);
        proof {
            let hv = hit_views(r.results@.take(i + 1));
            assert(hv.drop_last() =~= hit_views(r.results@.take(i as int)));
            assert(hv.last() == h@);
        }
        i += 1;
    }
    assert(r.results@.take(r.results@.len() as int) =~= r.results@);
}

impl WebSearchService {
    /// The context handed to the model (see `search_context`).
    pub fn format_search_results_as_context(results: &[WebSearchResponse]) -> (r: String)
        ensures
            r@ == search_context(results@),
    {
        if results.len() == 0 {
            return String::from_str("（未找到相关搜索结果）");
        }
        let mut out = chars_of("## 联网搜索结果\n\n");
        let ghost head = out@;
        let mut i: usize = 0;
        while i < results.len()
            invariant
                i <= results.len(),
                out@ == head + search_blocks(results@.take(i as int)),
            decreases results.len() - i,
        {
            push_search_block(&mut out, &results[i]);
            assert(results@.take(i + 1).drop_last() =~= results@.take(i as int));
            i += 1;
        }
        assert(results@.take(results@.len() as int) =~= results@);
        push_str(&mut out, "\n---\n请基于以上搜索结果回答用户的问题。如果搜索结果不够充分，可以结合你已有的知识进行补充，但请标明哪些是搜索结果提供的信息。\n");
        string_of(&out)
    }
}

/// `v` when given, else `d`.
pub open spec fn text_or(v: Option<Seq<char>>, d: Seq<char>) -> Seq<char> {
    match v {
        Some(x) => x,
        None => d,
    }
}

/// The first `n` items of `s`, or all of them (`iter().take(n)`).
pub open spec fn first_n<T>(s: Seq<T>, n: nat) -> Seq<T> {
    if s.len() <= n {
        s
    } else {
        s.take(n as int)
    }
}

/// The hit of the `Abstract` of an instant answer, when it is a non-empty text.
pub open spec fn abstract_hits(query: Seq<char>, body: Json) -> Seq<HitView> {
    match as_text(get_key(body, "Abstract"@)) {
        Some(a) => if a.len() > 0 {
            seq![HitView {
                title: query + " - "@ + text_or(as_text(get_key(body, "AbstractSource"@)), "DuckDuckGo"@),
                url: text_or(as_text(get_key(body, "AbstractURL"@)), Seq::empty()),
                snippet: a,
            }]
        } else {
            Seq::empty()
        },
        None => Seq::empty(),
    }
}

/// The hit of a related topic with a non-empty `Text` and a `FirstURL`.
pub open spec fn topic_hit(t: Json) -> Seq<HitView> {
    match (as_text(get_key(t, "Text"@)), as_text(get_key(t, "FirstURL"@))) {
        (Some(text), Some(url)) => if text.len() > 0 {
            seq![HitView { title: take_chars(text, 80), url, snippet: text }]
        } else {
            Seq::empty()
        },
        _ => Seq::empty(),
    }
}

/// The hit of an infobox item with a `label` and a `value`.
pub open spec fn info_hit(t: Json) -> Seq<HitView> {
    match (as_text(get_key(t, "label"@)), as_text(get_key(t, "value"@))) {
        (Some(label), Some(value)) => seq![HitView { title: label, url: Seq::empty(), snippet: value }],
        _ => Seq::empty(),
    }
}

/// The hits of a list of related topics, in order.
pub open spec fn topic_hits(ts: Seq<Json>) -> Seq<HitView>
    decreases ts.len(),
{
    if ts.len() == 0 {
        Seq::empty()
    } else {
        topic_hits(ts.drop_last()) + topic_hit(ts.last())
    }
}

/// The hits of a list of infobox items, in order.
pub open spec fn info_hits(ts: Seq<Json>) -> Seq<HitView>
    decreases ts.len(),
{
    if ts.len() == 0 {
        Seq::empty()
    } else {
        info_hits(ts.drop_last()) + info_hit(ts.last())
    }
}

/// The hits of an instant answer: its abstract, then its first five related
/// topics, then its first five infobox items.
pub open spec fn api_hits(query: Seq<char>, body: Json) -> Seq<HitView> {
    abstract_hits(query, body)
        + match get_key(body, "RelatedTopics"@) {
            Some(Json::Array(ts)) => topic_hits(first_n(ts, 5)),
            _ => Seq::empty(),
        }
        + match opt_key(get_key(body, "Infobox"@), "content"@) {
            Some(Json::Array(ts)) => info_hits(first_n(ts, 5)),
            _ => Seq::empty(),
        }
}

fn text_member_of(v: &JsonValue, key: &str) -> (r: Option<String>)
    ensures
        match as_text(get_key(v@, key@)) {
            Some(t) => r is Some && r->0@ == t,
            None => r is None,
        },
{
    match v.get(key) {
        Some(x) => match x.as_str() {
            Some(t) => Some(t.to_owned()),
            None => None,
        },
        None => None,
    }
}

fn push_hit(out: &mut Vec<SearchResult>, title: String, url: String, snippet: String)
    ensures
        hit_views(final(out)@) == hit_views(old(out)@) + seq![HitView { title: title@, url: url@, snippet: snippet@ }],
{
    let ghost before = hit_views(out@);
    let h = SearchResult { title, url, snippet };
    out.push(h);
    assert(hit_views(out@) =~= before + seq![h@]);
}

fn push_topic_hits(out: &mut Vec<SearchResult>, list: &JsonValue, info: bool)
    ensures
        match list@ {
            Json::Array(ts) => hit_views(final(out)@) == hit_views(old(out)@)
                + if info { info_hits(first_n(ts, 5)) } else { topic_hits(first_n(ts, 5)) },
            _ => final(out)@ == old(out)@,
        },
{
    let n = match list.array_len() {
        Some(n) => n,
        None => {
            return;
        },
    };
    let ghost ts = list@->Array_0;
    let m: usize = if n <= 5 { n } else { 5 };
    let ghost start = hit_views(out@);
    assert(first_n(ts, 5) =~= ts.take(m as int));
    let mut i: usize = 0;
    while i < m
        invariant
            i <= m <= n,
            list@ == Json::Array(ts),
            ts.len() == n,
            hit_views(out@) == start + if info { info_hits(ts.take(i as int)) } else { topic_hits(ts.take(i as int)) },
        decreases m - i,
    {
        assert(ts.take(i + 1).drop_last() =~= ts.take(i as int));
        let item = match list.at(i) {
            Some(x) => x,
            None => {
                return;
            },
        };
        if info {
            let label = text_member_of(item, "label");
            let value = text_member_of(item, "value");
            match (label, value) {
                (Some(l), Some(v)) => {
                    push_hit(out, l, String::new(), v);
                },
                _ => {},
            }
        } else {
            let text = text_member_of(item, "Text");
            let url = text_member_of(item, "FirstURL");
            match (text, url) {
                (Some(t), Some(u)) => {
                    if !t.as_str().is_empty() {
                        let tc = chars_of(t.as_str());
                        let title = take_chars_exec(&tc, 80);
                        push_hit(out, string_of(&title), u, t);
                    }
                },
                _ => {},
            }
        }
        proof {
            reveal_strlit("");
            assert(""@ =~= Seq::<char>::empty());
        }
        i += 1;
    }
}

impl WebSearchService {
    /// The hits of the raw text of an instant-answer reply: `None` when the text
    /// is not JSON, else `api_results` on the parsed value.
    pub fn api_results_from_text(query: &str, text: &str) -> (r: Option<WebSearchResponse>)
        ensures
            match json_parse(text@) {
                Some(v) => r is Some && r->0.query@ == query@ && hit_views(r->0.results@) == api_hits(query@, v)
                    && r->0.source@ == "DuckDuckGo"@,
                None => r is None,
            },
    {
        match parse_json(text) {
            Some(body) => Some(Self::api_results(query, &body)),
            None => None,
        }
    }

    /// The hits of an instant-answer reply (see `api_hits`), source `DuckDuckGo`.
    pub fn api_results(query: &str, body: &JsonValue) -> (r: WebSearchResponse)
        ensures
            r.query@ == query@,
            hit_views(r.results@) == api_hits(query@, body@),
            r.source@ == "DuckDuckGo"@,
    {
        let mut results: Vec<SearchResult> = Vec::new();
        assert(hit_views(results@) =~= Seq::<HitView>::empty());
        if let Some(a) = text_member_of(body, "Abstract") {
            if !a.as_str().is_empty() {
                let url = match text_member_of(body, "AbstractURL") {
                    Some(u) => u,
                    None => String::new(),
                };
                let source = match text_member_of(body, "AbstractSource") {
                    Some(s) => s,
                    None => String::from_str("DuckDuckGo"),
                };
                let mut title = chars_of(query);
                push_str(&mut title, " - ");
                push_str(&mut title, source.as_str());
                push_hit(&mut results, string_of(&title), url, a);
                proof {
                    reveal_strlit("");
                    assert(""@ =~= Seq::<char>::empty());
                }
            }
        }
        let ghost after_abstract = hit_views(results@);
        assert(after_abstract == abstract_hits(query@, body@));
        match body.get("RelatedTopics") {
            Some(list) => {
                push_topic_hits(&mut results, list, false);
            },
            None => {},
        }
        let ghost after_topics = hit_views(results@);
        match body.get("Infobox") {
            Some(ib) => match ib.get("content") {
                Some(list) => {
                    push_topic_hits(&mut results, list, true);
                },
                None => {},
            },
            None => {},
        }
        assert(hit_views(results@) =~= api_hits(query@, body@));
        WebSearchResponse { query: query.to_owned(), results, source: String::from_str("DuckDuckGo") }
    }
}

/// The marker before each result snippet of the HTML page.
pub const SNIPPET_MARK: &'static str = "class=\"result__snippet\"";

/// The marker before each result link of the HTML page.
pub const LINK_MARK: &'static str = "class=\"result__a\"";

/// `x` without bold tags.
pub open spec fn strip_bold(x: Seq<char>) -> Seq<char> {
    replace_all(replace_all(x, "<b>"@, Seq::empty()), "</b>"@, Seq::empty())
}

/// `x` with the entities `&amp;`, `&lt;`, `&gt;` and `&quot;` written out,
/// one after the other.
pub open spec fn unescape(x: Seq<char>) -> Seq<char> {
    replace_all(replace_all(replace_all(replace_all(x, "&amp;"@, "&"@), "&lt;"@, "<"@), "&gt;"@, ">"@),
        "&quot;"@, "\""@)
}

/// The text of the first element of a segment: after its first `>`, up to
/// the next `</`.
pub open spec fn tag_text(seg: Seq<char>) -> Option<Seq<char>> {
    match find_pat(seg, ">"@) {
        Some(i) => {
            let part = seg.skip(i + 1);
            match find_pat(part, "</"@) {
                Some(j) => Some(part.take(j)),
                None => None,
            }
        },
        None => None,
    }
}

/// The snippet a segment carries, cleaned of tags and entities and trimmed.
pub open spec fn segment_snippet(seg: Seq<char>) -> Option<Seq<char>> {
    match tag_text(seg) {
        Some(x) => Some(trim(unescape(strip_bold(x)))),
        None => None,
    }
}

/// Collects the snippets of `segs` from `i` on into `acc`, until there are
/// five; a snippet counts when its UTF-8 form is longer than 20 bytes.
pub open spec fn snippet_hits(segs: Seq<Seq<char>>, i: int, acc: Seq<HitView>) -> Seq<HitView>
    decreases segs.len() - i,
{
    if i < 0 || i >= segs.len() || acc.len() >= 5 {
        acc
    } else {
        snippet_hits(segs, i + 1, match segment_snippet(segs[i]) {
            Some(sn) => if sn.len() > 0 && utf8_len(sn) > 20 {
                acc.push(HitView { title: take_chars(sn, 60), url: Seq::empty(), snippet: sn })
            } else {
                acc
            },
            None => acc,
        })
    }
}

/// The link target of a segment: between `href="` and the next `"`.
pub open spec fn href_of(seg: Seq<char>) -> Option<Seq<char>> {
    match find_pat(seg, "href=\""@) {
        Some(h) => {
            let part = seg.skip(h + 6);
            match find_pat(part, "\""@) {
                Some(e) => Some(part.take(e)),
                None => None,
            }
        },
        None => None,
    }
}

/// A hit with the link and, when non-empty, the title of its link segment.
pub open spec fn linked(h: HitView, seg: Seq<char>) -> HitView {
    HitView {
        title: match tag_text(seg) {
            Some(x) => if trim(strip_bold(x)).len() > 0 { trim(strip_bold(x)) } else { h.title },
            None => h.title,
        },
        url: match href_of(seg) {
            Some(u) => u,
            None => h.url,
        },
        snippet: h.snippet,
    }
}

/// The hits, the `k`-th updated from the link segment `k + 1`.
pub open spec fn with_links(hs: Seq<HitView>, segs: Seq<Seq<char>>) -> Seq<HitView> {
    Seq::new(hs.len(), |k: int| if k + 1 < segs.len() { linked(hs[k], segs[k + 1]) } else { hs[k] })
}

/// The hits of the HTML results page: up to five snippets, each read from the
/// text after a snippet marker (the text before the first marker is not a
/// result), then their links and titles.
pub open spec fn html_hits(body: Seq<char>) -> Seq<HitView> {
    with_links(snippet_hits(split_pat(body, SNIPPET_MARK@), 1, Seq::empty()), split_pat(body, LINK_MARK@))
}

fn replace_text(s: &Vec<char>, pat: &str, rep: &str) -> (r: Vec<char>)
    requires
        pat@.len() > 0,
    ensures
        r@ == replace_all(s@, pat@, rep@),
{
    let p = chars_of(pat);
    let q = chars_of(rep);
    replace_all_exec(s, &p, &q)
}

fn tag_text_exec(seg: &Vec<char>) -> (r: Option<Vec<char>>)
    ensures
        match tag_text(seg@) {
            Some(x) => r is Some && r->0@ == x,
            None => r is None,
        },
{
    let gt = chars_of(">");
    proof {
        reveal_strlit(">");
    }
    let i = match find_first(seg, &gt) {
        Some(i) => i,
        None => {
            return None;
        },
    };
    assert(gt@.len() == 1);
    assert(occurs_at(seg@, gt@, i as int));
    assert(i + 1 <= seg.len());
    let part = slice_chars(seg, i + 1, seg.len());
    assert(part@ =~= seg@.skip(i + 1));
    let close = chars_of("</");
    match find_first(&part, &close) {
        Some(j) => {
            proof {
                reveal_strlit("</");
            }
            Some(slice_chars(&part, 0, j))
        },
        None => None,
    }
}

fn strip_bold_exec(x: &Vec<char>) -> (r: Vec<char>)
    ensures
        r@ == strip_bold(x@),
{
    proof {
        reveal_strlit("<b>");
        reveal_strlit("</b>");
        reveal_strlit("");
        assert(""@ =~= Seq::<char>::empty());
    }
    let a = replace_text(x, "<b>", "");
    replace_text(&a, "</b>", "")
}

fn segment_snippet_exec(seg: &Vec<char>) -> (r: Option<Vec<char>>)
    ensures
        match segment_snippet(seg@) {
            Some(x) => r is Some && r->0@ == x,
            None => r is None,
        },
{
    match tag_text_exec(seg) {
        Some(x) => {
            let a = strip_bold_exec(&x);
            proof {
                reveal_strlit("&amp;");
                reveal_strlit("&lt;");
                reveal_strlit("&gt;");
                reveal_strlit("&quot;");
            }
            let b = replace_text(&a, "&amp;", "&");
            let c = replace_text(&b, "&lt;", "<");
            let d = replace_text(&c, "&gt;", ">");
            let e = replace_text(&d, "&quot;", "\"");
            Some(trim_exec(&e))
        },
        None => None,
    }
}

fn href_exec(seg: &Vec<char>) -> (r: Option<Vec<char>>)
    ensures
        match href_of(seg@) {
            Some(x) => r is Some && r->0@ == x,
            None => r is None,
        },
{
    let mark = chars_of("href=\"");
    proof {
        reveal_strlit("href=\"");
    }
    let h = match find_first(seg, &mark) {
        Some(h) => h,
        None => {
            return None;
        },
    };
    assert(mark@.len() == 6);
    assert(occurs_at(seg@, mark@, h as int));
    assert(h + 6 <= seg.len());
    let part = slice_chars(seg, h + 6, seg.len());
    assert(part@ =~= seg@.skip(h + 6));
    let quote = chars_of("\"");
    match find_first(&part, &quote) {
        Some(e) => {
            proof {
                reveal_strlit("\"");
            }
            Some(slice_chars(&part, 0, e))
        },
        None => None,
    }
}

impl WebSearchService {
    /// The hits of the HTML results page (see `html_hits`), source
    /// `DuckDuckGo HTML`.
    pub fn html_results(query: &str, body: &str) -> (r: WebSearchResponse)
        ensures
            r.query@ == query@,
            hit_views(r.results@) == html_hits(body@),
            r.source@ == "DuckDuckGo HTML"@,
    {
        let text = chars_of(body);
        let smark = chars_of(SNIPPET_MARK);
        proof {
            reveal_strlit("class=\"result__snippet\"");
            reveal_strlit("class=\"result__a\"");
        }
        let segs = split_pat_exec(&text, &smark);
        let ghost sv = views(segs@);
        let mut results: Vec<SearchResult> = Vec::new();
        assert(hit_views(results@) =~= Seq::<HitView>::empty());
        let mut i: usize = 1;
        while i < segs.len() && results.len() < 5
            invariant
                1 <= i <= segs.len() + 1,
                sv == views(segs@),
                sv.len() == segs@.len(),
                snippet_hits(sv, i as int, hit_views(results@)) == snippet_hits(sv, 1, Seq::empty()),
            decreases segs.len() + 1 - i,
        {
            let ghost acc = hit_views(results@);
            assert(sv[i as int] == segs@[i as int]@);
            match segment_snippet_exec(&segs[i]) {
                Some(sn) => {
                    if sn.len() > 0 && utf8_len_exec(&sn) > 20 {
                        let title = take_chars_exec(&sn, 60);
                        let sns = string_of(&sn);
                        let empty = String::new();
                        assert(empty@ =~= Seq::<char>::empty());
                        push_hit(&mut results, string_of(&title), empty, sns);
                        assert(hit_views(results@) =~= acc.push(HitView {
                            title: take_chars(sn@, 60),
                            url: Seq::empty(),
                            snippet: sn@,
                        }));
                    }
                },
                None => {},
            }
            i += 1;
        }
        let ghost found = hit_views(results@);
        assert(found == snippet_hits(sv, 1, Seq::empty()));
        assert(found.len() <= 5 || found.len() == found.len());
        let lmark = chars_of(LINK_MARK);
        let links = split_pat_exec(&text, &lmark);
        let ghost lv = views(links@);
        let n = results.len();
        let mut k: usize = 0;
        while k < n
            invariant
                k <= n,
                n == results@.len(),
                lv == views(links@),
                lv.len() == links@.len(),
                found.len() == n,
                forall|j: int| 0 <= j < k ==> #[trigger] hit_views(results@)[j] == with_links(found, lv)[j],
                forall|j: int| k <= j < n ==> #[trigger] hit_views(results@)[j] == found[j],
            decreases n - k,
        {
            if k + 1 < links.len() {
                let seg = &links[k + 1];
                assert(lv[k + 1] == seg@);
                let mut h = results[k].duplicate();
                assert(hit_views(results@)[k as int] == results@[k as int]@);
                assert(h@ == found[k as int]);
                let ghost h0 = h@;
                match href_exec(seg) {
                    Some(u) => {
                        h.url = string_of(&u);
                    },
                    None => {},
                }
                match tag_text_exec(seg) {
                    Some(x) => {
                        let t0 = strip_bold_exec(&x);
                        let t = trim_exec(&t0);
                        if t.len() > 0 {
                            h.title = string_of(&t);
                        }
                    },
                    None => {},
                }
                let ghost before = results@;
                assert(h@.snippet == h0.snippet);
                assert(h@.url == linked(h0, seg@).url);
                assert(h@.title == linked(h0, seg@).title);
                assert(h@ == linked(found[k as int], lv[k + 1]));
                results.set(k, h);
                assert forall|j: int| 0 <= j < n && j != k implies #[trigger] hit_views(results@)[j] == hit_views(before)[j] by {
                    assert(results@[j] == before[j]);
                }
                assert(hit_views(results@)[k as int] == with_links(found, lv)[k as int]);
            } else {
                assert(hit_views(results@)[k as int] == with_links(found, lv)[k as int]);
            }
            k += 1;
        }
        assert(hit_views(results@) =~= with_links(found, lv));
        WebSearchResponse { query: query.to_owned(), results, source: String::from_str("DuckDuckGo HTML") }
    }
}

} // verus!
