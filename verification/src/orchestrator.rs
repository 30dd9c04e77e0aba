//! Routing by intent: the prompts that ask the model which agent should
//! answer, and the reading of its reply.

use vstd::prelude::*;
use crate::agents::{AgentDefinition, AgentView, AgentsService, agent_map, without_orchestrators};
use crate::json::{Json, JsonValue, json_parse, parse_json, get_key, as_text};
use crate::registry::unique_keys;
use crate::text::{chars_of, string_of, push_str, push_all, trim, trim_exec, slice_chars};

verus! {

pub const INTENT_PROMPT_HEAD: &'static str = r#"你是一个智能意图分析引擎。你的唯一任务是分析用户的请求，从下方的 Agent 列表中选择最合适的一个来处理。

## 可用 Agent 列表

"#;

pub const INTENT_PROMPT_TAIL: &'static str = r#"

## 规则

1. 分析用户消息的核心意图
2. 根据各 Agent 的"适用场景"，选择最匹配的 agent_id
3. 如果用户的请求是一般性的聊天、问答、闲聊、写作、翻译、数学计算、知识问答、需要联网搜索最新信息、或者不明确适合哪个专业 Agent，就选择 "builtin-general-purpose"（该 Agent 具有联网搜索能力）
4. 你必须且只能输出一个 JSON 对象，不要输出其他任何内容

## 输出格式（严格遵守，不要添加任何其他文字）

{"agent_id": "选中的agent_id", "reason": "简短的选择理由"}"#;

pub const ORCHESTRATOR_PROMPT_HEAD: &'static str = r#"你是一个智能调度 Orchestrator Agent。你的职责是分析用户的自然语言请求，判断最合适的子 Agent 来处理任务，然后通过 delegate_to_agent 工具将任务委托给它。

## 可用 Agent 列表

"#;

pub const ORCHESTRATOR_PROMPT_TAIL: &'static str = r#"

## 工作流程

1. **分析意图**：理解用户请求的核心需求
2. **选择 Agent**：根据各 Agent 的"适用场景"描述，选择最匹配的子 Agent
3. **委托执行**：使用 `delegate_to_agent` 工具，传入 agent_id 和 task 描述
4. **汇总结果**：收到子 Agent 的执行结果后，整理并以用户友好的方式返回

## 注意事项

- 如果用户请求不明确，可以先使用 `list_available_agents` 确认可用 Agent
- 如果没有合适的专业 Agent，委托给 `builtin-general-purpose`
- 你可以在一次回复中委托多个 Agent（串行执行）
- 保持回复简洁、专业、有帮助

## 输出格式

始终使用中文回复用户。使用 Markdown 格式让回复更清晰易读。"#;

/// Routes a message to the agent that should answer it.
pub struct OrchestratorService;

/// The agent chosen for a message, and why.
#[derive(Debug, Clone)]
pub struct IntentResult {
    pub agent_id: String,
    pub reason: String,
}

/// The mathematical form of each agent of a list.
pub open spec fn agent_views(s: Seq<AgentDefinition>) -> Seq<AgentView> {
    s.map_values(|d: AgentDefinition| d@)
}

/// How the intent prompt lists one agent.
pub open spec fn intent_entry(a: AgentView) -> Seq<char> {
    "- agent_id: \""@ + a.agent_id + "\"\n  名称: "@ + a.name + "\n  描述: "@ + a.description
        + "\n  适用场景: "@ + a.when_to_use + "\n\n"@
}

/// How the orchestrator prompt lists one agent.
pub open spec fn roster_entry(a: AgentView) -> Seq<char> {
    "- "@ + a.agent_id + " ("@ + a.name + "): "@ + a.description + "\n  适用场景: "@ + a.when_to_use
        + "\n\n"@
}

/// The intent-prompt entries of a list of agents, in order.
pub open spec fn intent_list(s: Seq<AgentView>) -> Seq<char>
    decreases s.len(),
{
    if s.len() == 0 {
        Seq::empty()
    } else {
        intent_list(s.drop_last()) + intent_entry(s.last())
    }
}

/// The orchestrator-prompt entries of a list of agents, in order.
pub open spec fn roster_list(s: Seq<AgentView>) -> Seq<char>
    decreases s.len(),
{
    if s.len() == 0 {
        Seq::empty()
    } else {
        roster_list(s.drop_last()) + roster_entry(s.last())
    }
}

/// The prompt that asks for the agent of a message, listing `agents`.
pub open spec fn intent_prompt(agents: Seq<AgentView>) -> Seq<char> {
    INTENT_PROMPT_HEAD@ + intent_list(agents) + INTENT_PROMPT_TAIL@
}

/// The system prompt of the orchestrator, listing `agents`.
pub open spec fn orchestrator_prompt(agents: Seq<AgentView>) -> Seq<char> {
    ORCHESTRATOR_PROMPT_HEAD@ + roster_list(agents) + ORCHESTRATOR_PROMPT_TAIL@
}

/// The choice a parsed reply makes: its `agent_id` text, with its `reason`
/// text or an empty reason.
pub open spec fn intent_of(v: Json) -> Option<(Seq<char>, Seq<char>)> {
    match as_text(get_key(v, "agent_id"@)) {
        Some(id) => Some((id, match as_text(get_key(v, "reason"@)) {
            Some(r) => r,
            None => Seq::empty(),
        })),
        None => None,
    }
}

/// `c` stands at `i` and nowhere before.
pub open spec fn first_char_at(t: Seq<char>, c: char, i: int) -> bool {
    0 <= i < t.len() && t[i] == c && forall|k: int| 0 <= k < i ==> t[k] != c
}

/// `c` stands at `i` and nowhere after.
pub open spec fn last_char_at(t: Seq<char>, c: char, i: int) -> bool {
    0 <= i < t.len() && t[i] == c && forall|k: int| i < k < t.len() ==> t[k] != c
}

/// The last `}` of `t` does not come before its first `{` (slicing between
/// them would fail otherwise).
pub open spec fn braces_in_order(t: Seq<char>) -> bool {
    forall|i: int, j: int| first_char_at(t, '{', i) && last_char_at(t, '}', j) ==> i <= j
}

/// The text from the first `{` to the last `}`, when both occur.
pub open spec fn braced_part(t: Seq<char>) -> Option<Seq<char>> {
    if (exists|i: int| first_char_at(t, '{', i)) && (exists|j: int| last_char_at(t, '}', j)) {
        let i = choose|i: int| first_char_at(t, '{', i);
        let j = choose|j: int| last_char_at(t, '}', j);
        Some(t.subrange(i, j + 1))
    } else {
        None
    }
}

/// The choice a reply makes: the whole trimmed reply read as JSON, else the
/// part from its first `{` to its last `}`.
pub open spec fn parsed_intent(text: Seq<char>) -> Option<(Seq<char>, Seq<char>)> {
    let t = trim(text);
    match json_parse(t) {
        Some(v) if intent_of(v) is Some => intent_of(v),
        _ => match braced_part(t) {
            Some(b) => match json_parse(b) {
                Some(v) => intent_of(v),
                None => None,
            },
            None => None,
        },
    }
}

fn find_first_char(t: &Vec<char>, c: char) -> (r: Option<usize>)
    ensures
        match r {
            Some(i) => first_char_at(t@, c, i as int),
            None => forall|k: int| 0 <= k < t@.len() ==> t@[k] != c,
        },
{
    let mut i: usize = 0;
    while i < t.len()
        invariant
            i <= t.len(),
            forall|k: int| 0 <= k < i ==> t@[k] != c,
        decreases t.len() - i,
    {
        if t[i] == c {
            return Some(i);
        }
        i += 1;
    }
    None
}

fn find_last_char(t: &Vec<char>, c: char) -> (r: Option<usize>)
    ensures
        match r {
            Some(i) => last_char_at(t@, c, i as int),
            None => forall|k: int| 0 <= k < t@.len() ==> t@[k] != c,
        },
{
    let mut n: usize = t.len();
    while n > 0
        invariant
            n <= t.len(),
            forall|k: int| n <= k < t@.len() ==> t@[k] != c,
        decreases n,
    {
        if t[n - 1] == c {
            return Some(n - 1);
        }
        n -= 1;
    }
    None
}

proof fn lemma_first_char_unique(t: Seq<char>, c: char, i: int, j: int)
    requires
        first_char_at(t, c, i),
        first_char_at(t, c, j),
    ensures
        i == j,
{
    if i < j {
        assert(t[i] != c);
    } else if j < i {
        assert(t[j] != c);
    }
}

proof fn lemma_last_char_unique(t: Seq<char>, c: char, i: int, j: int)
    requires
        last_char_at(t, c, i),
        last_char_at(t, c, j),
    ensures
        i == j,
{
    if i < j {
        assert(t[j] != c);
    } else if j < i {
        assert(t[i] != c);
    }
}

fn intent_entries(agents: &Vec<AgentDefinition>, intent: bool) -> (r: Vec<char>)
    ensures
        intent ==> r@ == intent_list(agent_views(agents@)),
        !intent ==> r@ == roster_list(agent_views(agents@)),
{
    let mut out: Vec<char> = Vec::new();
    let mut i: usize = 0;
    while i < agents.len()
        invariant
            i <= agents.len(),
            intent ==> out@ == intent_list(agent_views(agents@.take(i as int))),
            !intent ==> out@ == roster_list(agent_views(agents@.take(i as int))),
        decreases agents.len() - i,
    {
        let a = &agents[i];
        if intent {
            push_str(&mut out, "- agent_id: \"");
            push_str(&mut out, a.agent_id.as_str());
            push_str(&mut out, "\"\n  名称: ");
            push_str(&mut out, a.name.as_str());
            push_str(&mut out, "\n  描述: ");
            push_str(&mut out, a.description.as_str());
            push_str(&mut out, "\n  适用场景: ");
            push_str(&mut out, a.when_to_use.as_str());
            push_str(&mut out, "\n\n");
        } else {
            push_str(&mut out, "- ");
            push_str(&mut out, a.agent_id.as_str());
            push_str(&mut out, " (");
            push_str(&mut out, a.name.as_str());
            push_str(&mut out, "): ");
            push_str(&mut out, a.description.as_str());
            push_str(&mut out, "\n  适用场景: ");
            push_str(&mut out, a.when_to_use.as_str());
            push_str(&mut out, "\n\n");
        }
        proof {
            let pre = agent_views(agents@.take(i as int));
            let cur = agent_views(agents@.take(i + 1));
            assert(cur.drop_last() =~= pre);
            assert(cur.last() == agents@[i as int]@);
        }
        i += 1;
    }
    assert(agents@.take(agents@.len() as int) =~= agents@);
    out
}

/// Whether the trimmed `text` has its braces in order (see `braces_in_order`).
pub fn reply_braces_in_order(text: &str) -> (b: bool)
    ensures
        b == braces_in_order(trim(text@)),
{
    let t = trim_exec(&chars_of(text));
    match (find_first_char(&t, '{'), find_last_char(&t, '}')) {
        (Some(i), Some(j)) => {
            proof {
                assert forall|a: int, c: int| first_char_at(t@, '{', a) && last_char_at(t@, '}', c) implies a == i && c == j by {
                    if a < i {
                        assert(t@[a] != '{');
                    }
                    if i < a {
                        assert(t@[i as int] != '{');
                    }
                    if c > j {
                        assert(t@[c] != '}');
                    }
                    if j > c {
                        assert(t@[j as int] != '}');
                    }
                }
            }
            i <= j
        },
        _ => true,
    }
}

/// The part of `t` from its first `{` to its last `}`, when both occur.
pub fn braced_text(t: &Vec<char>) -> (r: Option<Vec<char>>)
    requires
        braces_in_order(t@),
    ensures
        match braced_part(t@) {
            Some(b) => r is Some && r->0@ == b,
            None => r is None,
        },
{
    let start = match find_first_char(t, '{') {
        Some(i) => i,
        None => {
            assert(!exists|i: int| first_char_at(t@, '{', i));
            return None;
        },
    };
    let end = match find_last_char(t, '}') {
        Some(j) => j,
        None => {
            assert(!exists|j: int| last_char_at(t@, '}', j));
            return None;
        },
    };
    proof {
        let i0 = choose|i: int| first_char_at(t@, '{', i);
        let j0 = choose|j: int| last_char_at(t@, '}', j);
        lemma_first_char_unique(t@, '{', start as int, i0);
        lemma_last_char_unique(t@, '}', end as int, j0);
    }
    assert(end < t.len() && start <= end);
    Some(slice_chars(t, start, end + 1))
}

/// The choice of agent a parsed reply makes (see `intent_of`).
pub fn intent_from_value(v: &JsonValue) -> (r: Option<IntentResult>)
    ensures
        match intent_of(v@) {
            Some((id, reason)) => r is Some && r->0.agent_id@ == id && r->0.reason@ == reason,
            None => r is None,
        },
{
    let id = match v.get("agent_id") {
        Some(x) => match x.as_str() {
            Some(s) => s,
            None => {
                return None;
            },
        },
        None => {
            return None;
        },
    };
    let reason = match v.get("reason") {
        Some(x) => match x.as_str() {
            Some(s) => s.to_owned(),
            None => String::new(),
        },
        None => String::new(),
    };
    Some(IntentResult { agent_id: id.to_owned(), reason })
}

impl OrchestratorService {
    /// The intent prompt listing the given agents in their order.
    pub fn intent_prompt_for(agents: &Vec<AgentDefinition>) -> (r: String)
        ensures
            r@ == intent_prompt(agent_views(agents@)),
    {
        let mut out = chars_of(INTENT_PROMPT_HEAD);
        let list = intent_entries(agents, true);
        push_all(&mut out, &list);
        push_str(&mut out, INTENT_PROMPT_TAIL);
        string_of(&out)
    }

    /// The orchestrator prompt listing the given agents in their order.
    pub fn orchestrator_prompt_for(agents: &Vec<AgentDefinition>) -> (r: String)
        ensures
            r@ == orchestrator_prompt(agent_views(agents@)),
    {
        let mut out = chars_of(ORCHESTRATOR_PROMPT_HEAD);
        let list = intent_entries(agents, false);
        push_all(&mut out, &list);
        push_str(&mut out, ORCHESTRATOR_PROMPT_TAIL);
        string_of(&out)
    }

    /// The prompt that asks the model which agent should answer: every agent
    /// but the orchestrators, each listed once, in no particular order.
    pub fn build_intent_prompt(agents_service: &AgentsService) -> (r: String)
        ensures
            exists|s: Seq<AgentDefinition>| {
                &&& unique_keys(s)
                &&& agent_map(s) == without_orchestrators(agents_service.agents())
                &&& #[trigger] intent_prompt(agent_views(s)) == r@
            },
    {
        let agents = agents_service.list_non_orchestrator_agents();
        let r = Self::intent_prompt_for(&agents);
        assert(intent_prompt(agent_views(agents@)) == r@);
        r
    }

    /// The system prompt of the orchestrator: every agent but the
    /// orchestrators, each listed once, in no particular order.
    pub fn build_orchestrator_prompt(agents_service: &AgentsService) -> (r: String)
        ensures
            exists|s: Seq<AgentDefinition>| {
                &&& unique_keys(s)
                &&& agent_map(s) == without_orchestrators(agents_service.agents())
                &&& #[trigger] orchestrator_prompt(agent_views(s)) == r@
            },
    {
        let agents = agents_service.list_non_orchestrator_agents();
        let r = Self::orchestrator_prompt_for(&agents);
        assert(orchestrator_prompt(agent_views(agents@)) == r@);
        r
    }

    /// Reads the model's reply: the whole trimmed reply as JSON, else the part
    /// from its first `{` to its last `}`; `None` when neither names an agent.
    pub fn parse_intent_response(response_text: &str) -> (r: Option<IntentResult>)
        requires
            braces_in_order(trim(response_text@)),
        ensures
            match parsed_intent(response_text@) {
                Some((id, reason)) => r is Some && r->0.agent_id@ == id && r->0.reason@ == reason,
                None => r is None,
            },
    {
        let cs = chars_of(response_text);
        let t = trim_exec(&cs);
        let ts = string_of(&t);
        if let Some(v) = parse_json(ts.as_str()) {
            if let Some(intent) = intent_from_value(&v) {
                return Some(intent);
            }
        }
        let part = match braced_text(&t) {
            Some(p) => p,
            None => {
                return None;
            },
        };
        let ps = string_of(&part);
        match parse_json(ps.as_str()) {
            Some(v) => intent_from_value(&v),
            None => None,
        }
    }
}

} // verus!
