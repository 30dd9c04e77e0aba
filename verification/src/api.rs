//! Messages and replies of an OpenAI-compatible chat-completions API, and
//! the endpoint URL built from a configured base URL.

use vstd::prelude::*;
use crate::json::JsonValue;
use crate::text::{chars_of, string_of, push_str, occurs_at, occurs_at_exec, contains_seq,
    contains_exec, find_from, slice_chars};

verus! {

/// One message of a conversation sent to the model.
#[derive(Debug)]
pub struct ChatMessage {
    pub role: String,
    pub content: String,
    pub tool_calls: Option<Vec<JsonValue>>,
}

impl ChatMessage {
    /// A message from the user.
    pub fn user(content: &str) -> (m: Self)
        ensures
            m.role@ == "user"@,
            m.content@ == content@,
            m.tool_calls is None,
    {
        ChatMessage { role: String::from_str("user"), content: content.to_owned(), tool_calls: None }
    }

    /// A message from the assistant.
    pub fn assistant(content: &str) -> (m: Self)
        ensures
            m.role@ == "assistant"@,
            m.content@ == content@,
            m.tool_calls is None,
    {
        ChatMessage { role: String::from_str("assistant"), content: content.to_owned(), tool_calls: None }
    }

    /// A system message.
    pub fn system(content: &str) -> (m: Self)
        ensures
            m.role@ == "system"@,
            m.content@ == content@,
            m.tool_calls is None,
    {
        ChatMessage { role: String::from_str("system"), content: content.to_owned(), tool_calls: None }
    }
}

/// Token usage reported with a reply.
#[derive(Debug, Clone, Copy)]
pub struct Usage {
    pub prompt_tokens: usize,
    pub completion_tokens: usize,
    pub total_tokens: usize,
}

/// One choice of a reply.
#[derive(Debug)]
pub struct Choice {
    pub index: i32,
    pub message: ChatMessage,
    pub finish_reason: Option<String>,
}

/// A complete (non-streamed) reply.
#[derive(Debug)]
pub struct ChatResponse {
    pub id: String,
    pub object: String,
    pub created: i64,
    pub model: String,
    pub choices: Vec<Choice>,
    pub usage: Option<Usage>,
}

/// What a streamed chunk adds to the reply.
#[derive(Debug)]
pub struct Delta {
    pub role: Option<String>,
    pub content: Option<String>,
}

/// One choice of a streamed chunk.
#[derive(Debug)]
pub struct StreamChoice {
    pub index: i32,
    pub delta: Delta,
    pub finish_reason: Option<String>,
}

/// One chunk of a streamed reply.
#[derive(Debug)]
pub struct StreamChunk {
    pub id: String,
    pub object: String,
    pub created: i64,
    pub model: String,
    pub choices: Vec<StreamChoice>,
}

/// The text of a reply: the content of its first choice, empty when it has none.
pub open spec fn reply_text(choices: Seq<Choice>) -> Seq<char> {
    if choices.len() > 0 {
        choices[0].message.content@
    } else {
        Seq::empty()
    }
}

/// The text of a reply (see `reply_text`).
pub fn first_choice_text(resp: &ChatResponse) -> (r: String)
    ensures
        r@ == reply_text(resp.choices@),
{
    if resp.choices.len() > 0 {
        resp.choices[0].message.content.clone()
    } else {
        String::new()
    }
}

/// `s` without its trailing `/` characters.
pub open spec fn trim_trailing_slashes(s: Seq<char>) -> Seq<char>
    decreases s.len(),
{
    if s.len() > 0 && s.last() == '/' {
        trim_trailing_slashes(s.drop_last())
    } else {
        s
    }
}

/// `pat` occurs at `i` and nowhere before.
pub open spec fn first_at(s: Seq<char>, pat: Seq<char>, i: int) -> bool {
    occurs_at(s, pat, i) && forall|j: int| 0 <= j < i ==> !occurs_at(s, pat, j)
}

/// `s` ends with `pat`.
pub open spec fn ends_with(s: Seq<char>, pat: Seq<char>) -> bool {
    s.len() >= pat.len() && occurs_at(s, pat, s.len() - pat.len())
}

/// The part of a URL after its scheme (`://`), or all of it.
pub open spec fn after_scheme(u: Seq<char>) -> Seq<char> {
    if exists|i: int| first_at(u, "://"@, i) {
        u.skip((choose|i: int| first_at(u, "://"@, i)) + 3)
    } else {
        u
    }
}

/// The path already names an API version or an API root. (Every such marker
/// begins with `/`, so it lies in the path that starts at the first `/`.)
pub open spec fn has_api_path(p: Seq<char>) -> bool {
    contains_seq(p, "/v1"@) || contains_seq(p, "/v2"@) || contains_seq(p, "/v3"@)
        || contains_seq(p, "/api/"@)
}

/// The chat-completions URL for a base URL: used as it is when it already
/// ends with `/chat/completions`; `/chat/completions` appended when its path
/// names an API version or root; `/v1/chat/completions` appended otherwise.
pub open spec fn chat_url(base: Seq<char>) -> Seq<char> {
    let t = trim_trailing_slashes(base);
    if ends_with(t, "/chat/completions"@) {
        t
    } else if has_api_path(after_scheme(t)) {
        t + "/chat/completions"@
    } else {
        t + "/v1/chat/completions"@
    }
}

proof fn lemma_first_unique(s: Seq<char>, pat: Seq<char>, i: int, j: int)
    requires
        first_at(s, pat, i),
        first_at(s, pat, j),
    ensures
        i == j,
{
    if i < j {
        assert(!occurs_at(s, pat, i));
    } else if j < i {
        assert(!occurs_at(s, pat, j));
    }
}

fn trim_trailing_slashes_exec(s: &Vec<char>) -> (r: Vec<char>)
    ensures
        r@ == trim_trailing_slashes(s@),
{
    let mut n = s.len();
    assert(s@.take(n as int) =~= s@);
    while n > 0 && s[n - 1] == '/'
        invariant
            n <= s.len(),
            trim_trailing_slashes(s@.take(n as int)) == trim_trailing_slashes(s@),
        decreases n,
    {
        assert(s@.take(n as int).drop_last() =~= s@.take(n - 1));
        n -= 1;
    }
    assert(trim_trailing_slashes(s@.take(n as int)) == s@.take(n as int));
    slice_chars(s, 0, n)
}

/// Builds the chat-completions URL from a base URL (see `chat_url`).
pub fn build_chat_url(base_url: &str) -> (r: String)
    ensures
        r@ == chat_url(base_url@),
{
    let b = chars_of(base_url);
    let t = trim_trailing_slashes_exec(&b);
    let suffix = chars_of("/chat/completions");
    let sl: usize = suffix.len();
    if t.len() >= sl && occurs_at_exec(&t, &suffix, t.len() - sl) {
        return string_of(&t);
    }
    let scheme = chars_of("://");
    proof {
        reveal_strlit("://");
    }
    let path_part = match find_from(&t, &scheme, 0) {
        Some(idx) => {
            proof {
                assert(first_at(t@, "://"@, idx as int));
                let c = choose|i: int| first_at(t@, "://"@, i);
                lemma_first_unique(t@, "://"@, idx as int, c);
            }
            slice_chars(&t, idx + 3, t.len())
        },
        None => {
            assert(!exists|i: int| first_at(t@, "://"@, i));
            slice_chars(&t, 0, t.len())
        },
    };
    assert(path_part@ =~= after_scheme(t@));
    let v1 = chars_of("/v1");
    let v2 = chars_of("/v2");
    let v3 = chars_of("/v3");
    let api = chars_of("/api/");
    let has = contains_exec(&path_part, &v1) || contains_exec(&path_part, &v2)
        || contains_exec(&path_part, &v3) || contains_exec(&path_part, &api);
    let mut out = t;
    if has {
        push_str(&mut out, "/chat/completions");
    } else {
        push_str(&mut out, "/v1/chat/completions");
    }
    string_of(&out)
}

} // verus!
