//! The decisions of a chat turn: which path a message takes, which agent an
//! orchestrated message goes to, whether to search, the messages sent to the
//! model, the events sent to the browser, and the reading of a streamed reply.
//!
//! The caller performs the outside work (model calls, searches, the stream)
//! and hands each outcome back to these functions.

use vstd::prelude::*;
use crate::agents::{AgentDefinition, AgentView, AgentsService};
use crate::api::ChatMessage;
use crate::context::ContextEntry;
use crate::json::{Json, JsonValue, json_text, to_json_text, text_member};
use crate::orchestrator::{OrchestratorService, braces_in_order, parsed_intent};
use crate::sse::{sse_content, parse_sse_line};
use crate::text::{chars_of, string_of, push_str, push_all, trim, trim_exec, starts_with,
    find_pat, find_first, slice_chars, occurs_at, occurs_at_exec, decimal, decimal_exec, str_eq};
use crate::web_search::{SearchIntent, WebSearchResponse};

verus! {

/// The id of the agent that answers when no other is chosen.
pub const GENERAL_PURPOSE_ID: &'static str = "builtin-general-purpose";

/// The path a chat message takes.
#[derive(Debug, Clone, Copy, PartialEq, Eq, Structural)]
pub enum ChatRoute {
    /// The orchestrator picks an agent, which then answers.
    Orchestrated,
    /// The general-purpose agent answers, searching the web when needed.
    GeneralPurpose,
    /// The addressed agent answers directly.
    Direct,
}

/// The path a message to `a` takes.
pub open spec fn route_of(a: AgentView) -> ChatRoute {
    if a.is_orchestrator {
        ChatRoute::Orchestrated
    } else if a.agent_id == GENERAL_PURPOSE_ID@ {
        ChatRoute::GeneralPurpose
    } else {
        ChatRoute::Direct
    }
}

/// The path a message to `agent` takes (see `route_of`).
pub fn chat_route(agent: &AgentDefinition) -> (r: ChatRoute)
    ensures
        r == route_of(agent@),
{
    if agent.is_orchestrator {
        ChatRoute::Orchestrated
    } else if str_eq(agent.agent_id.as_str(), GENERAL_PURPOSE_ID) {
        ChatRoute::GeneralPurpose
    } else {
        ChatRoute::Direct
    }
}

/// An event sent to the browser: its name and its JSON data.
#[derive(Debug, Clone)]
pub struct ChatEvent {
    pub event: String,
    pub data: String,
}

/// `e` is the `agent_tag` event of the agent `id` named `name`.
pub open spec fn is_tag_event(e: ChatEvent, id: Seq<char>, name: Seq<char>) -> bool {
    e.event@ == "agent_tag"@ && e.data@ == json_text(texts_object(seq![("agent_id"@, id), ("agent_name"@, name)]))
}

/// `e` is the `delegation` event of `task` going to `a` with `status`.
pub open spec fn is_delegation_event(e: ChatEvent, a: AgentView, task: Seq<char>, status: Seq<char>) -> bool {
    e.event@ == "delegation"@ && e.data@ == json_text(texts_object(seq![
        ("target_agent_id"@, a.agent_id),
        ("target_agent_name"@, a.name),
        ("task"@, task),
        ("status"@, status),
    ]))
}

/// `e` is the `text` event of `content`.
pub open spec fn is_text_event(e: ChatEvent, content: Seq<char>) -> bool {
    e.event@ == "text"@ && e.data@ == json_text(texts_object(seq![("content"@, content)]))
}

/// `e` is the `error` event with `message`.
pub open spec fn is_error_event(e: ChatEvent, message: Seq<char>) -> bool {
    e.event@ == "error"@ && e.data@ == json_text(texts_object(seq![("message"@, message)]))
}

/// `e` is the `done` event.
pub open spec fn is_done_event(e: ChatEvent) -> bool {
    e.event@ == "done"@ && e.data@ == "{}"@
}

/// `e` is the `tool_call_start` event of a search for `queries`.
pub open spec fn is_search_start_event(e: ChatEvent, queries: Seq<Seq<char>>) -> bool {
    e.event@ == "tool_call_start"@ && e.data@ == json_text(search_start_data(queries))
}

/// `e` is the `tool_call_end` event of a search that found `n` hits.
pub open spec fn is_search_end_event(e: ChatEvent, n: nat) -> bool {
    e.event@ == "tool_call_end"@ && e.data@ == json_text(texts_object(seq![
        ("tool_name"@, "web_search"@),
        ("output"@, "找到 "@ + decimal(n) + " 条搜索结果"@),
    ]))
}

/// `m` is a one-shot question: the system prompt, then the user's message.
pub open spec fn is_question(m: Seq<ChatMessage>, system_prompt: Seq<char>, message: Seq<char>) -> bool {
    &&& m.len() == 2
    &&& m[0].role@ == "system"@ && m[0].content@ == system_prompt && m[0].tool_calls is None
    &&& m[1].role@ == "user"@ && m[1].content@ == message && m[1].tool_calls is None
}

/// `m` is the system prompt, then each history entry with its role and content.
pub open spec fn is_answer_request(m: Seq<ChatMessage>, system_prompt: Seq<char>, history: Seq<ContextEntry>) -> bool {
    &&& m.len() == history.len() + 1
    &&& m[0].role@ == "system"@ && m[0].content@ == system_prompt && m[0].tool_calls is None
    &&& forall|i: int| 0 <= i < history.len() ==> {
        &&& (#[trigger] m[i + 1]).role@ == history[i].role@
        &&& m[i + 1].content@ == history[i].content@
        &&& m[i + 1].tool_calls is None
    }
}

/// A one-level JSON object of text members.
pub open spec fn texts_object(pairs: Seq<(Seq<char>, Seq<char>)>) -> Json {
    Json::Object(pairs.map_values(|p: (Seq<char>, Seq<char>)| (p.0, Json::Str(p.1))))
}

fn text_object_value(pairs: Vec<(String, String)>) -> (r: JsonValue)
    ensures
        r@ == texts_object(pairs@.map_values(|p: (String, String)| (p.0@, p.1@))),
{
    let mut members: Vec<(String, JsonValue)> = Vec::new();
    let mut i: usize = 0;
    while i < pairs.len()
        invariant
            i <= pairs.len(),
            members@.len() == i,
            forall|j: int| 0 <= j < i ==> #[trigger] members@[j].0@ == pairs@[j].0@
                && members@[j].1@ == Json::Str(pairs@[j].1@),
        decreases pairs.len() - i,
    {
        members.push(text_member(pairs[i].0.as_str(), pairs[i].1.as_str()));
        i += 1;
    }
    proof {
        crate::json::lemma_member_views(members@);
        assert(crate::json::member_views(members@) =~= pairs@.map_values(
            |p: (String, String)| (p.0@, p.1@),
        ).map_values(|p: (Seq<char>, Seq<char>)| (p.0, Json::Str(p.1))));
    }
    JsonValue::Object(members)
}

fn pair(k: &str, v: &str) -> (r: (String, String))
    ensures
        r.0@ == k@,
        r.1@ == v@,
{
    (k.to_owned(), v.to_owned())
}

/// An event whose data is an object of text members.
pub fn text_members_event(event: &str, pairs: Vec<(String, String)>) -> (r: ChatEvent)
    ensures
        r.event@ == event@,
        r.data@ == json_text(texts_object(pairs@.map_values(|p: (String, String)| (p.0@, p.1@)))),
{
    let v = text_object_value(pairs);
    ChatEvent { event: event.to_owned(), data: to_json_text(&v) }
}

/// `agent_tag`: the agent that is answering.
pub fn agent_tag_event(agent_id: &str, agent_name: &str) -> (r: ChatEvent)
    ensures
        r.event@ == "agent_tag"@,
        r.data@ == json_text(texts_object(seq![("agent_id"@, agent_id@), ("agent_name"@, agent_name@)])),
{
    let mut pairs: Vec<(String, String)> = Vec::new();
    pairs.push(pair("agent_id", agent_id));
    pairs.push(pair("agent_name", agent_name));
    assert(pairs@.map_values(|p: (String, String)| (p.0@, p.1@)) =~= seq![("agent_id"@, agent_id@), ("agent_name"@, agent_name@)]);
    text_members_event("agent_tag", pairs)
}

/// `delegation`: the agent a task went to, and its status.
pub fn delegation_event(agent: &AgentDefinition, task: &str, status: &str) -> (r: ChatEvent)
    ensures
        r.event@ == "delegation"@,
        r.data@ == json_text(texts_object(seq![
            ("target_agent_id"@, agent.agent_id@),
            ("target_agent_name"@, agent.name@),
            ("task"@, task@),
            ("status"@, status@),
        ])),
{
    let mut pairs: Vec<(String, String)> = Vec::new();
    pairs.push(pair("target_agent_id", agent.agent_id.as_str()));
    pairs.push(pair("target_agent_name", agent.name.as_str()));
    pairs.push(pair("task", task));
    pairs.push(pair("status", status));
    assert(pairs@.map_values(|p: (String, String)| (p.0@, p.1@)) =~= seq![
        ("target_agent_id"@, agent.agent_id@),
        ("target_agent_name"@, agent.name@),
        ("task"@, task@),
        ("status"@, status@),
    ]);
    text_members_event("delegation", pairs)
}

/// `text`: a piece of the reply.
pub fn text_event(content: &str) -> (r: ChatEvent)
    ensures
        r.event@ == "text"@,
        r.data@ == json_text(texts_object(seq![("content"@, content@)])),
{
    let mut pairs: Vec<(String, String)> = Vec::new();
    pairs.push(pair("content", content));
    assert(pairs@.map_values(|p: (String, String)| (p.0@, p.1@)) =~= seq![("content"@, content@)]);
    text_members_event("text", pairs)
}

/// `error`: what went wrong, after a prefix naming the step.
pub fn error_event(prefix: &str, detail: &str) -> (r: ChatEvent)
    ensures
        r.event@ == "error"@,
        r.data@ == json_text(texts_object(seq![("message"@, prefix@ + detail@)])),
{
    let mut m = chars_of(prefix);
    push_str(&mut m, detail);
    let message = string_of(&m);
    let mut pairs: Vec<(String, String)> = Vec::new();
    pairs.push(pair("message", message.as_str()));
    assert(pairs@.map_values(|p: (String, String)| (p.0@, p.1@)) =~= seq![("message"@, prefix@ + detail@)]);
    text_members_event("error", pairs)
}

/// `done`: the reply is complete; its data is an empty object.
pub fn done_event() -> (r: ChatEvent)
    ensures
        r.event@ == "done"@,
        r.data@ == "{}"@,
{
    ChatEvent { event: String::from_str("done"), data: String::from_str("{}") }
}

/// `tool_call_start` for a web search with the given queries.
pub open spec fn search_start_data(queries: Seq<Seq<char>>) -> Json {
    Json::Object(seq![
        ("tool_name"@, Json::Str("web_search"@)),
        ("input"@, Json::Object(seq![("queries"@, Json::Array(queries.map_values(|q: Seq<char>| Json::Str(q))))])),
    ])
}

/// `tool_call_start`: a web search with the given queries begins.
pub fn search_start_event(queries: &Vec<String>) -> (r: ChatEvent)
    ensures
        r.event@ == "tool_call_start"@,
        r.data@ == json_text(search_start_data(queries@.map_values(|q: String| q@))),
{
    let mut items: Vec<JsonValue> = Vec::new();
    let mut i: usize = 0;
    while i < queries.len()
        invariant
            i <= queries.len(),
            items@.len() == i,
            forall|j: int| 0 <= j < i ==> #[trigger] items@[j]@ == Json::Str(queries@[j]@),
        decreases queries.len() - i,
    {
        items.push(JsonValue::Str(queries[i].clone()));
        i += 1;
    }
    proof {
        crate::json::lemma_json_views(items@);
        assert(crate::json::json_views(items@) =~= queries@.map_values(|q: String| q@).map_values(|q: Seq<char>| Json::Str(q)));
    }
    let mut input: Vec<(String, JsonValue)> = Vec::new();
    input.push((String::from_str("queries"), JsonValue::Array(items)));
    let mut top: Vec<(String, JsonValue)> = Vec::new();
    top.push(text_member("tool_name", "web_search"));
    top.push((String::from_str("input"), JsonValue::Object(input)));
    let v = JsonValue::Object(top);
    proof {
        crate::json::lemma_member_views(top@);
        crate::json::lemma_member_views(input@);
        assert(crate::json::member_views(input@) =~= seq![("queries"@, Json::Array(queries@.map_values(|q: String| q@).map_values(|q: Seq<char>| Json::Str(q))))]);
        assert(crate::json::member_views(top@) =~= search_start_data(queries@.map_values(|q: String| q@))->Object_0);
    }
    ChatEvent { event: String::from_str("tool_call_start"), data: to_json_text(&v) }
}

/// The number of hits of a list of searches.
pub open spec fn hit_count(rs: Seq<WebSearchResponse>) -> nat
    decreases rs.len(),
{
    if rs.len() == 0 {
        0
    } else {
        hit_count(rs.drop_last()) + rs.last().results@.len()
    }
}

/// The number of hits of a list of searches (see `hit_count`).
pub fn count_hits(rs: &[WebSearchResponse]) -> (n: u128)
    ensures
        n == hit_count(rs@),
{
    let mut n: u128 = 0;
    let mut i: usize = 0;
    while i < rs.len()
        invariant
            i <= rs.len(),
            n == hit_count(rs@.take(i as int)),
            n <= i * 0x1_0000_0000_0000_0000,
        decreases rs.len() - i,
    {
        assert(rs@.take(i + 1).drop_last() =~= rs@.take(i as int));
        n = n + rs[i].results.len() as u128;
        i += 1;
    }
    assert(rs@.take(rs@.len() as int) =~= rs@);
    n
}

/// `tool_call_end`: the search found `n` hits.
pub fn search_end_event(n: u128) -> (r: ChatEvent)
    ensures
        r.event@ == "tool_call_end"@,
        r.data@ == json_text(texts_object(seq![
            ("tool_name"@, "web_search"@),
            ("output"@, "找到 "@ + decimal(n as nat) + " 条搜索结果"@),
        ])),
{
    let mut out = chars_of("找到 ");
    let d = decimal_exec(n);
    push_all(&mut out, &d);
    push_str(&mut out, " 条搜索结果");
    let output = string_of(&out);
    let mut pairs: Vec<(String, String)> = Vec::new();
    pairs.push(pair("tool_name", "web_search"));
    pairs.push(pair("output", output.as_str()));
    assert(pairs@.map_values(|p: (String, String)| (p.0@, p.1@)) =~= seq![
        ("tool_name"@, "web_search"@),
        ("output"@, "找到 "@ + decimal(n as nat) + " 条搜索结果"@),
    ]);
    text_members_event("tool_call_end", pairs)
}

/// The two messages of a one-shot question: a system prompt and the user's
/// message.
pub fn prompt_messages(system_prompt: &str, message: &str) -> (r: Vec<ChatMessage>)
    ensures
        r@.len() == 2,
        r@[0].role@ == "system"@ && r@[0].content@ == system_prompt@ && r@[0].tool_calls is None,
        r@[1].role@ == "user"@ && r@[1].content@ == message@ && r@[1].tool_calls is None,
{
    let mut r: Vec<ChatMessage> = Vec::new();
    r.push(ChatMessage::system(system_prompt));
    r.push(ChatMessage::user(message));
    r
}

/// The agent an orchestrated message goes to: the one the intent reply
/// names, or the general-purpose agent when the call failed or the reply
/// names none.
pub open spec fn routed_id(reply: Option<Seq<char>>) -> Seq<char> {
    match reply {
        Some(text) => match parsed_intent(text) {
            Some((id, _reason)) => id,
            None => GENERAL_PURPOSE_ID@,
        },
        None => GENERAL_PURPOSE_ID@,
    }
}

/// A reply can be read without slicing between misplaced braces.
pub open spec fn readable_reply(reply: Option<Seq<char>>) -> bool {
    match reply {
        Some(text) => braces_in_order(trim(text)),
        None => true,
    }
}

/// The agent an orchestrated message goes to (see `routed_id`); `reply` is
/// the text of the intent reply, `None` when the call failed.
pub fn routed_agent_id(reply: Option<&str>) -> (r: String)
    requires
        readable_reply(match reply { Some(t) => Some(t@), None => None }),
    ensures
        r@ == routed_id(match reply { Some(t) => Some(t@), None => None }),
{
    match reply {
        Some(text) => match OrchestratorService::parse_intent_response(text) {
            Some(intent) => intent.agent_id,
            None => String::from_str(GENERAL_PURPOSE_ID),
        },
        None => String::from_str(GENERAL_PURPOSE_ID),
    }
}

/// The agent that answers an orchestrated message: the routed agent, or the
/// general-purpose agent when the routed one does not exist.
pub fn resolve_target(agents: &AgentsService, agent_id: &str) -> (r: AgentDefinition)
    requires
        agents.agents().contains_key(agent_id@) || agents.agents().contains_key(GENERAL_PURPOSE_ID@),
    ensures
        agents.agents().contains_key(agent_id@) ==> r@ == agents.agents()[agent_id@],
        !agents.agents().contains_key(agent_id@) ==> r@ == agents.agents()[GENERAL_PURPOSE_ID@],
{
    match agents.get_agent_by_id(agent_id) {
        Some(a) => a,
        None => match agents.get_agent_by_id(GENERAL_PURPOSE_ID) {
            Some(a) => a,
            None => {
                assert(false);
                AgentDefinition {
                    agent_id: String::new(),
                    agent_type: crate::agents::AgentType::Custom,
                    name: String::new(),
                    description: String::new(),
                    when_to_use: String::new(),
                    tools: Vec::new(),
                    model: String::new(),
                    system_prompt: String::new(),
                    source: String::new(),
                    base_dir: String::new(),
                    is_orchestrator: false,
                }
            },
        },
    }
}

/// The queries to search for: those of an intent that needs a search and
/// names at least one.
pub fn search_queries(intent: &Option<SearchIntent>) -> (r: Option<Vec<String>>)
    ensures
        match intent {
            Some(i) => if i.needs_search && i.queries@.len() > 0 {
                r is Some && r->0@ == i.queries@
            } else {
                r is None
            },
            None => r is None,
        },
{
    match intent {
        Some(i) => {
            if i.needs_search && i.queries.len() > 0 {
                Some(crate::compact::copy_strings(&i.queries))
            } else {
                None
            }
        },
        None => None,
    }
}

/// The note appended after search results in a system prompt.
pub const SEARCH_NOTE: &'static str = "注意：你拥有联网搜索能力。以上搜索结果来自实时互联网搜索。请结合搜索结果为用户提供最新、最准确的回答。";

/// The system prompt of the answering agent, followed by the search
/// context and a note when there was a search.
pub open spec fn answer_prompt(base: Seq<char>, context: Option<Seq<char>>) -> Seq<char> {
    match context {
        Some(c) => base + "\n\n"@ + c + "\n\n"@ + SEARCH_NOTE@,
        None => base,
    }
}

/// The system prompt of the answering agent (see `answer_prompt`).
pub fn answer_system_prompt(base: &str, context: Option<&str>) -> (r: String)
    ensures
        r@ == answer_prompt(base@, match context { Some(c) => Some(c@), None => None }),
{
    match context {
        Some(c) => {
            let mut out = chars_of(base);
            push_str(&mut out, "\n\n");
            push_str(&mut out, c);
            push_str(&mut out, "\n\n");
            push_str(&mut out, SEARCH_NOTE);
            string_of(&out)
        },
        None => base.to_owned(),
    }
}

/// The messages sent to the answering agent: its system prompt, then the
/// history, each entry with its role and content.
pub fn answer_messages(system_prompt: &str, history: &[ContextEntry]) -> (r: Vec<ChatMessage>)
    ensures
        r@.len() == history@.len() + 1,
        r@[0].role@ == "system"@ && r@[0].content@ == system_prompt@ && r@[0].tool_calls is None,
        forall|i: int| 0 <= i < history@.len() ==> {
            &&& (#[trigger] r@[i + 1]).role@ == history@[i].role@
            &&& r@[i + 1].content@ == history@[i].content@
            &&& r@[i + 1].tool_calls is None
        },
{
    let mut r: Vec<ChatMessage> = Vec::new();
    r.push(ChatMessage::system(system_prompt));
    let mut i: usize = 0;
    while i < history.len()
        invariant
            i <= history.len(),
            r@.len() == i + 1,
            r@[0].role@ == "system"@ && r@[0].content@ == system_prompt@ && r@[0].tool_calls is None,
            forall|j: int| 0 <= j < i ==> {
                &&& (#[trigger] r@[j + 1]).role@ == history@[j].role@
                &&& r@[j + 1].content@ == history@[j].content@
                &&& r@[j + 1].tool_calls is None
            },
        decreases history.len() - i,
    {
        r.push(ChatMessage {
            role: history[i].role.clone(),
            content: history[i].content.clone(),
            tool_calls: None,
        });
        i += 1;
    }
    r
}

/// Reads the complete lines of a stream buffer: each line is trimmed; blank
/// lines are skipped; `data: [DONE]` stops the reading and leaves the rest of
/// the buffer; the other lines give their text content, if any. Yields the
/// contents and what remains of the buffer.
pub open spec fn drain(buf: Seq<char>) -> (Seq<Seq<char>>, Seq<char>)
    decreases buf.len(),
{
    match find_pat(buf, "\n"@) {
        Some(p) => if 0 <= p < buf.len() {
            let line = trim(buf.take(p));
            let rest = buf.skip(p + 1);
            if line.len() == 0 {
                drain(rest)
            } else if starts_with(line, "data: [DONE]"@) {
                (Seq::empty(), rest)
            } else {
                let (cs, r) = drain(rest);
                (match sse_content(line) {
                    Some(c) => seq![c] + cs,
                    None => cs,
                }, r)
            }
        } else {
            (Seq::empty(), buf)
        },
        None => (Seq::empty(), buf),
    }
}

/// Reads the complete lines of a stream buffer (see `drain`): the text
/// contents, in order, and what remains of the buffer.
pub fn drain_lines(buffer: &str) -> (r: (Vec<String>, String))
    ensures
        r.0@.map_values(|s: String| s@) == drain(buffer@).0,
        r.1@ == drain(buffer@).1,
{
    let mut b = chars_of(buffer);
    let mut out: Vec<String> = Vec::new();
    let nl = chars_of("\n");
    let done = chars_of("data: [DONE]");
    proof {
        reveal_strlit("\n");
    }
    loop
        invariant
            nl@ == "\n"@,
            nl@.len() == 1,
            done@ == "data: [DONE]"@,
            out@.map_values(|s: String| s@) + drain(b@).0 == drain(buffer@).0,
            drain(b@).1 == drain(buffer@).1,
        decreases b@.len(),
    {
        let ghost cur = b@;
        let p = match find_first(&b, &nl) {
            Some(p) => p,
            None => {
                assert(out@.map_values(|s: String| s@) =~= out@.map_values(|s: String| s@) + Seq::<Seq<char>>::empty());
                return (out, string_of(&b));
            },
        };
        assert(occurs_at(b@, nl@, p as int));
        let head = slice_chars(&b, 0, p);
        let line = trim_exec(&head);
        let rest = slice_chars(&b, p + 1, b.len());
        assert(head@ =~= cur.take(p as int));
        assert(rest@ =~= cur.skip(p + 1));
        if line.len() == 0 {
            b = rest;
        } else if line.len() >= done.len() && occurs_at_exec(&line, &done, 0) {
            assert(out@.map_values(|s: String| s@) =~= out@.map_values(|s: String| s@) + Seq::<Seq<char>>::empty());
            return (out, string_of(&rest));
        } else {
            let ls = string_of(&line);
            let ghost before = out@.map_values(|s: String| s@);
            match parse_sse_line(ls.as_str()) {
                Some(c) => {
                    out.push(c);
                    assert(out@.map_values(|s: String| s@) =~= before.push(out@.last()@));
                    assert(before.push(out@.last()@) + drain(rest@).0 =~= before + (seq![out@.last()@] + drain(rest@).0));
                },
                None => {},
            }
            b = rest;
        }
    }
}

} // verus!
