//! Server-sent events: reading the model's streamed lines and writing the
//! events sent to the browser.

use vstd::prelude::*;
use crate::json::{
    Json, JsonValue, json_parse, json_text, parse_json, to_json_text, get_key, opt_key,
    opt_index, as_text, text_member,
};
use crate::text::{chars_of, string_of, push_str, starts_with, occurs_at_exec, slice_chars};

verus! {

/// The text after `data: `, when the line starts with it.
pub open spec fn data_part(line: Seq<char>) -> Option<Seq<char>> {
    if starts_with(line, "data: "@) {
        Some(line.skip(6))
    } else {
        None
    }
}

/// `choices[0].delta.content` of a stream chunk, when it is a text.
pub open spec fn delta_content(v: Json) -> Option<Seq<char>> {
    as_text(opt_key(opt_key(opt_index(get_key(v, "choices"@), 0), "delta"@), "content"@))
}

/// `choices[0].delta.tool_calls` of a stream chunk, when present.
pub open spec fn delta_tool_calls(v: Json) -> Option<Json> {
    opt_key(opt_key(opt_index(get_key(v, "choices"@), 0), "delta"@), "tool_calls"@)
}

/// The text content an SSE line carries: the delta content of the JSON chunk
/// after `data: `; nothing for `[DONE]`, other lines, or chunks without text.
pub open spec fn sse_content(line: Seq<char>) -> Option<Seq<char>> {
    match data_part(line) {
        Some(data) => if data == "[DONE]"@ {
            None
        } else {
            match json_parse(data) {
                Some(v) => delta_content(v),
                None => None,
            }
        },
        None => None,
    }
}

fn prefix_len_six(line: &str) -> (r: Option<Vec<char>>)
    ensures
        match data_part(line@) {
            Some(d) => r is Some && r->0@ == d,
            None => r is None,
        },
{
    let cs = chars_of(line);
    let p = chars_of("data: ");
    proof {
        reveal_strlit("data: ");
    }
    if occurs_at_exec(&cs, &p, 0) {
        let d = slice_chars(&cs, 6, cs.len());
        assert(cs@.subrange(6, cs@.len() as int) =~= cs@.skip(6));
        Some(d)
    } else {
        None
    }
}

/// `choices[0].delta.content` of a parsed chunk (see `delta_content`).
pub fn delta_content_of(v: &JsonValue) -> (r: Option<String>)
    ensures
        match delta_content(v@) {
            Some(s) => r is Some && r->0@ == s,
            None => r is None,
        },
{
    match v.get("choices") {
        Some(c) => match c.at(0) {
            Some(first) => match first.get("delta") {
                Some(d) => match d.get("content") {
                    Some(x) => match x.as_str() {
                        Some(s) => Some(s.to_owned()),
                        None => None,
                    },
                    None => None,
                },
                None => None,
            },
            None => None,
        },
        None => None,
    }
}

/// `choices[0].delta.tool_calls` of a parsed chunk (see `delta_tool_calls`).
pub fn delta_tool_calls_of(v: &JsonValue) -> (r: Option<JsonValue>)
    ensures
        match delta_tool_calls(v@) {
            Some(x) => r is Some && r->0@ == x,
            None => r is None,
        },
{
    match v.get("choices") {
        Some(c) => match c.at(0) {
            Some(first) => match first.get("delta") {
                Some(d) => match d.get("tool_calls") {
                    Some(x) => Some(x.duplicate()),
                    None => None,
                },
                None => None,
            },
            None => None,
        },
        None => None,
    }
}

/// The text content of an SSE line (see `sse_content`).
pub fn parse_sse_line(line: &str) -> (r: Option<String>)
    ensures
        match sse_content(line@) {
            Some(s) => r is Some && r->0@ == s,
            None => r is None,
        },
{
    match prefix_len_six(line) {
        Some(data) => {
            let done = chars_of("[DONE]");
            if crate::text::chars_eq(&data, &done) {
                return None;
            }
            let text = string_of(&data);
            match parse_json(text.as_str()) {
                Some(v) => delta_content_of(&v),
                None => None,
            }
        },
        None => None,
    }
}

/// Whether an SSE line ends the stream (`data: [DONE]` at its start).
pub fn is_stream_done(line: &str) -> (r: bool)
    ensures
        r == starts_with(line@, "data: [DONE]"@),
{
    let cs = chars_of(line);
    let p = chars_of("data: [DONE]");
    occurs_at_exec(&cs, &p, 0)
}

/// The tool calls an SSE line carries, if any.
pub fn extract_tool_call(line: &str) -> (r: Option<JsonValue>)
    ensures
        match data_part(line@) {
            Some(data) => match json_parse(data) {
                Some(v) => match delta_tool_calls(v) {
                    Some(x) => r is Some && r->0@ == x,
                    None => r is None,
                },
                None => r is None,
            },
            None => r is None,
        },
{
    match prefix_len_six(line) {
        Some(data) => {
            let text = string_of(&data);
            match parse_json(text.as_str()) {
                Some(v) => delta_tool_calls_of(&v),
                None => None,
            }
        },
        None => None,
    }
}

/// The text of an SSE event: `event: <type>`, `data: <json>` and a blank line.
pub open spec fn sse_event(event_type: Seq<char>, data: Json) -> Seq<char> {
    "event: "@ + event_type + "\ndata: "@ + json_text(data) + "\n\n"@
}

/// An SSE event with the given type and JSON data.
pub fn make_sse_event(event_type: &str, data: &JsonValue) -> (r: String)
    ensures
        r@ == sse_event(event_type@, data@),
{
    let mut out = chars_of("event: ");
    push_str(&mut out, event_type);
    push_str(&mut out, "\ndata: ");
    let body = to_json_text(data);
    push_str(&mut out, body.as_str());
    push_str(&mut out, "\n\n");
    string_of(&out)
}

/// The event that ends a reply.
pub fn make_done_event() -> (r: String)
    ensures
        r@ == "event: done\ndata: {}\n\n"@,
{
    String::from_str("event: done\ndata: {}\n\n")
}

/// An object whose members are all texts.
pub open spec fn text_object(pairs: Seq<(Seq<char>, Seq<char>)>) -> Json {
    Json::Object(pairs.map_values(|p: (Seq<char>, Seq<char>)| (p.0, Json::Str(p.1))))
}

/// The members of an object value (none for other values).
pub open spec fn members_of(v: Json) -> Seq<(Seq<char>, Json)> {
    match v {
        Json::Object(m) => m,
        _ => Seq::empty(),
    }
}

/// Builds an object from its members.
fn object_of(pairs: Vec<(String, JsonValue)>) -> (r: JsonValue)
    ensures
        r@ is Object,
        r@->Object_0.len() == pairs@.len(),
        forall|i: int| 0 <= i < pairs@.len() ==> #[trigger] r@->Object_0[i] == (pairs@[i].0@, pairs@[i].1@),
{
    proof {
        crate::json::lemma_member_views(pairs@);
    }
    JsonValue::Object(pairs)
}

/// `event: error` with `{"message": message}`.
pub fn make_error_event(message: &str) -> (r: String)
    ensures
        r@ == sse_event("error"@, text_object(seq![("message"@, message@)])),
{
    let mut pairs: Vec<(String, JsonValue)> = Vec::new();
    pairs.push(text_member("message", message));
    let v = object_of(pairs);
    assert(v@->Object_0 =~= members_of(text_object(seq![("message"@, message@)])));
    make_sse_event("error", &v)
}

/// `event: text` with `{"content": content}`.
pub fn make_text_event(content: &str) -> (r: String)
    ensures
        r@ == sse_event("text"@, text_object(seq![("content"@, content@)])),
{
    let mut pairs: Vec<(String, JsonValue)> = Vec::new();
    pairs.push(text_member("content", content));
    let v = object_of(pairs);
    assert(v@->Object_0 =~= members_of(text_object(seq![("content"@, content@)])));
    make_sse_event("text", &v)
}

/// `event: delegation` with the target agent, the task and its status.
pub fn make_delegation_event(target_agent_id: &str, target_agent_name: &str, task: &str, status: &str) -> (r: String)
    ensures
        r@ == sse_event("delegation"@, text_object(seq![
            ("target_agent_id"@, target_agent_id@),
            ("target_agent_name"@, target_agent_name@),
            ("task"@, task@),
            ("status"@, status@),
        ])),
{
    let mut pairs: Vec<(String, JsonValue)> = Vec::new();
    pairs.push(text_member("target_agent_id", target_agent_id));
    pairs.push(text_member("target_agent_name", target_agent_name));
    pairs.push(text_member("task", task));
    pairs.push(text_member("status", status));
    let v = object_of(pairs);
    assert(v@->Object_0 =~= members_of(text_object(seq![
        ("target_agent_id"@, target_agent_id@),
        ("target_agent_name"@, target_agent_name@),
        ("task"@, task@),
        ("status"@, status@),
    ])));
    make_sse_event("delegation", &v)
}

/// `event: delegation_result` with the agent, the task, its result and success.
pub fn make_delegation_result_event(agent_id: &str, agent_name: &str, task: &str, result: &str, success: bool) -> (r: String)
    ensures
        r@ == sse_event("delegation_result"@, Json::Object(seq![
            ("agent_id"@, Json::Str(agent_id@)),
            ("agent_name"@, Json::Str(agent_name@)),
            ("task"@, Json::Str(task@)),
            ("result"@, Json::Str(result@)),
            ("success"@, Json::Bool(success)),
        ])),
{
    let mut pairs: Vec<(String, JsonValue)> = Vec::new();
    pairs.push(text_member("agent_id", agent_id));
    pairs.push(text_member("agent_name", agent_name));
    pairs.push(text_member("task", task));
    pairs.push(text_member("result", result));
    pairs.push((String::from_str("success"), JsonValue::Bool(success)));
    let v = object_of(pairs);
    assert(v@->Object_0 =~= members_of(Json::Object(seq![
        ("agent_id"@, Json::Str(agent_id@)),
        ("agent_name"@, Json::Str(agent_name@)),
        ("task"@, Json::Str(task@)),
        ("result"@, Json::Str(result@)),
        ("success"@, Json::Bool(success)),
    ])));
    make_sse_event("delegation_result", &v)
}

/// `event: agent_tag` with the agent's id and name.
pub fn make_agent_tag_event(agent_id: &str, agent_name: &str) -> (r: String)
    ensures
        r@ == sse_event("agent_tag"@, text_object(seq![("agent_id"@, agent_id@), ("agent_name"@, agent_name@)])),
{
    let mut pairs: Vec<(String, JsonValue)> = Vec::new();
    pairs.push(text_member("agent_id", agent_id));
    pairs.push(text_member("agent_name", agent_name));
    let v = object_of(pairs);
    assert(v@->Object_0 =~= members_of(text_object(seq![("agent_id"@, agent_id@), ("agent_name"@, agent_name@)])));
    make_sse_event("agent_tag", &v)
}

/// The data of a native-call event: action and method, then each optional
/// member that is given.
pub open spec fn native_call_data(
    action: Seq<char>,
    method: Seq<char>,
    params: Option<Json>,
    callback_id: Option<Seq<char>>,
    auto_execute: Option<bool>,
    label: Option<Seq<char>>,
) -> Json {
    Json::Object(
        seq![("action"@, Json::Str(action)), ("method"@, Json::Str(method))]
            + (match params { Some(p) => seq![("params"@, p)], None => Seq::empty() })
            + (match callback_id { Some(c) => seq![("callback_id"@, Json::Str(c))], None => Seq::empty() })
            + (match auto_execute { Some(a) => seq![("auto_execute"@, Json::Bool(a))], None => Seq::empty() })
            + (match label { Some(l) => seq![("label"@, Json::Str(l))], None => Seq::empty() }),
    )
}

/// `event: native_call` (see `native_call_data`).
pub fn make_native_call_event(
    action: &str,
    method: &str,
    params: Option<&JsonValue>,
    callback_id: Option<&str>,
    auto_execute: Option<bool>,
    label: Option<&str>,
) -> (r: String)
    ensures
        r@ == sse_event("native_call"@, native_call_data(
            action@,
            method@,
            match params { Some(p) => Some(p@), None => None },
            match callback_id { Some(c) => Some(c@), None => None },
            auto_execute,
            match label { Some(l) => Some(l@), None => None },
        )),
{
    let mut pairs: Vec<(String, JsonValue)> = Vec::new();
    pairs.push(text_member("action", action));
    pairs.push(text_member("method", method));
    proof {
        crate::json::lemma_member_views(pairs@);
    }
    let ghost base = crate::json::member_views(pairs@);
    assert(base =~= seq![("action"@, Json::Str(action@)), ("method"@, Json::Str(method@))]);
    let ghost mut expect = base;
    if let Some(p) = params {
        pairs.push((String::from_str("params"), p.duplicate()));
        proof { expect = expect.push(("params"@, p@)); }
    }
    assert(crate::json::member_views(pairs@) =~= expect) by {
        crate::json::lemma_member_views(pairs@);
    }
    if let Some(c) = callback_id {
        pairs.push(text_member("callback_id", c));
        proof { expect = expect.push(("callback_id"@, Json::Str(c@))); }
    }
    assert(crate::json::member_views(pairs@) =~= expect) by {
        crate::json::lemma_member_views(pairs@);
    }
    if let Some(a) = auto_execute {
        pairs.push((String::from_str("auto_execute"), JsonValue::Bool(a)));
        proof { expect = expect.push(("auto_execute"@, Json::Bool(a))); }
    }
    assert(crate::json::member_views(pairs@) =~= expect) by {
        crate::json::lemma_member_views(pairs@);
    }
    if let Some(l) = label {
        pairs.push(text_member("label", l));
        proof { expect = expect.push(("label"@, Json::Str(l@))); }
    }
    assert(crate::json::member_views(pairs@) =~= expect) by {
        crate::json::lemma_member_views(pairs@);
    }
    let v = object_of(pairs);
    assert(v@->Object_0 =~= members_of(native_call_data(
        action@,
        method@,
        match params { Some(p) => Some(p@), None => None },
        match callback_id { Some(c) => Some(c@), None => None },
        auto_execute,
        match label { Some(l) => Some(l@), None => None },
    )));
    make_sse_event("native_call", &v)
}

} // verus!
