//! The orchestrator's tools: delegating a task to another agent, and listing
//! the agents it can delegate to.

use vstd::prelude::*;
use crate::agents::{
    AgentDefinition, AgentView, AgentsService, agent_map, without_orchestrators, texts,
};
use crate::json::{Json, JsonValue, get_key, as_text, text_member};
use crate::registry::unique_keys;
use crate::orchestrator::agent_views;
use crate::text::{chars_of, string_of, push_str, decimal, decimal_exec};

verus! {

/// Why a tool call failed, with a machine-readable code.
#[derive(Debug, Clone)]
pub struct ToolError {
    pub message: String,
    pub code: Option<String>,
}

/// What a tool call produced.
#[derive(Debug)]
pub struct ToolOutput {
    pub output_type: String,
    pub content: String,
    pub metadata: Vec<(String, JsonValue)>,
}

/// The text `serde_json::to_string_pretty` writes for a value.
pub uninterp spec fn json_pretty_text(v: Json) -> Seq<char>;

/// Calls `serde_json::to_string_pretty` on the value (an empty text if it
/// fails, as `unwrap_or_default` gives); the text is named `json_pretty_text`.
#[verifier::external_body]
fn to_json_pretty(v: &JsonValue) -> (r: String)
    ensures
        r@ == json_pretty_text(v@),
{
    serde_json::to_string_pretty(&crate::json::to_serde_value(v)).unwrap_or_default()
}

fn tool_error(message: &str, code: &str) -> (e: ToolError)
    ensures
        e.message@ == message@,
        e.code is Some && e.code->0@ == code@,
{
    ToolError { message: message.to_owned(), code: Some(code.to_owned()) }
}

/// Delegates a task to another agent.
pub struct DelegateToAgentTool;

/// The arguments of a delegation: a text `agent_id` and a text `task`.
pub open spec fn delegation_args(input: Json) -> Option<(Seq<char>, Seq<char>)> {
    match (as_text(get_key(input, "agent_id"@)), as_text(get_key(input, "task"@))) {
        (Some(a), Some(t)) => Some((a, t)),
        _ => None,
    }
}

/// The agent a delegation names.
pub open spec fn delegated_agent(input: Json) -> Seq<char> {
    match delegation_args(input) {
        Some((a, _t)) => a,
        None => Seq::empty(),
    }
}

/// The task a delegation names.
pub open spec fn delegated_task(input: Json) -> Seq<char> {
    match delegation_args(input) {
        Some((_a, t)) => t,
        None => Seq::empty(),
    }
}

/// The schema of one text member, with its description.
pub open spec fn delegation_schema_field(description: Seq<char>) -> Json {
    Json::Object(seq![("type"@, Json::Str("string"@)), ("description"@, Json::Str(description))])
}

/// The schema of a delegation's input.
pub open spec fn delegation_schema() -> Json {
    Json::Object(seq![
        ("type"@, Json::Str("object"@)),
        ("properties"@, Json::Object(seq![
            ("agent_id"@, delegation_schema_field("目标Agent的ID，如 builtin-explore, builtin-plan 等"@)),
            ("task"@, delegation_schema_field("需要委托执行的任务描述"@)),
        ])),
        ("required"@, Json::Array(seq![Json::Str("agent_id"@), Json::Str("task"@)])),
    ])
}

impl DelegateToAgentTool {
    /// The tool's name.
    pub fn name() -> (r: &'static str)
        ensures
            r@ == "delegate_to_agent"@,
    {
        "delegate_to_agent"
    }

    /// The tool's description.
    pub fn description() -> (r: &'static str)
        ensures
            r@ == "委托指定的子Agent执行任务。传入目标agent_id和任务描述，子Agent将执行并返回结果。"@,
    {
        "委托指定的子Agent执行任务。传入目标agent_id和任务描述，子Agent将执行并返回结果。"
    }

    /// The schema of the tool's input: an object with the text members
    /// `agent_id` and `task`, both required.
    pub fn input_schema() -> (r: JsonValue)
        ensures
            r@ == delegation_schema(),
    {
        let mut agent_id: Vec<(String, JsonValue)> = Vec::new();
        agent_id.push(text_member("type", "string"));
        agent_id.push(text_member("description", "目标Agent的ID，如 builtin-explore, builtin-plan 等"));
        let mut task: Vec<(String, JsonValue)> = Vec::new();
        task.push(text_member("type", "string"));
        task.push(text_member("description", "需要委托执行的任务描述"));
        proof {
            crate::json::lemma_member_views(agent_id@);
            crate::json::lemma_member_views(task@);
        }
        let a = JsonValue::Object(agent_id);
        let t = JsonValue::Object(task);
        assert(a@->Object_0 =~= delegation_schema_field("目标Agent的ID，如 builtin-explore, builtin-plan 等"@)->Object_0);
        assert(t@->Object_0 =~= delegation_schema_field("需要委托执行的任务描述"@)->Object_0);
        let mut props: Vec<(String, JsonValue)> = Vec::new();
        props.push((String::from_str("agent_id"), a));
        props.push((String::from_str("task"), t));
        let mut required: Vec<JsonValue> = Vec::new();
        required.push(JsonValue::Str(String::from_str("agent_id")));
        required.push(JsonValue::Str(String::from_str("task")));
        proof {
            crate::json::lemma_member_views(props@);
            crate::json::lemma_json_views(required@);
        }
        let p = JsonValue::Object(props);
        let q = JsonValue::Array(required);
        assert(p@->Object_0 =~= delegation_schema()->Object_0[1].1->Object_0);
        assert(q@->Array_0 =~= delegation_schema()->Object_0[2].1->Array_0);
        let mut top: Vec<(String, JsonValue)> = Vec::new();
        top.push(text_member("type", "object"));
        top.push((String::from_str("properties"), p));
        top.push((String::from_str("required"), q));
        proof {
            crate::json::lemma_member_views(top@);
        }
        let r = JsonValue::Object(top);
        assert(r@->Object_0 =~= delegation_schema()->Object_0);
        r
    }

    /// Checks a delegation: the input must name an agent and a task, the
    /// agent must exist, and it must not be an orchestrator. Yields the agent
    /// and the task.
    pub fn prepare(agents: &AgentsService, input: &JsonValue) -> (r: Result<(AgentDefinition, String), ToolError>)
        ensures
            match r {
                Ok((a, task)) => {
                    &&& delegation_args(input@) is Some
                    &&& agents.agents().contains_key(delegated_agent(input@))
                    &&& a@ == agents.agents()[delegated_agent(input@)]
                    &&& !a.is_orchestrator
                    &&& task@ == delegated_task(input@)
                },
                Err(e) => e.code is Some && {
                    ||| as_text(get_key(input@, "agent_id"@)) is None
                        && e.message@ == "Missing required field: agent_id"@ && e.code->0@ == "invalid_input"@
                    ||| as_text(get_key(input@, "agent_id"@)) is Some && as_text(get_key(input@, "task"@)) is None
                        && e.message@ == "Missing required field: task"@ && e.code->0@ == "invalid_input"@
                    ||| delegation_args(input@) is Some && !agents.agents().contains_key(delegated_agent(input@))
                        && e.message@ == "Agent not found: "@ + delegated_agent(input@)
                        && e.code->0@ == "agent_not_found"@
                    ||| delegation_args(input@) is Some && agents.agents().contains_key(delegated_agent(input@))
                        && agents.agents()[delegated_agent(input@)].is_orchestrator
                        && e.message@ == "Cannot delegate to orchestrator itself"@
                        && e.code->0@ == "invalid_delegation"@
                },
            },
    {
        let agent_id = match input.get("agent_id") {
            Some(v) => match v.as_str() {
                Some(s) => s,
                None => {
                    return Err(tool_error("Missing required field: agent_id", "invalid_input"));
                },
            },
            None => {
                return Err(tool_error("Missing required field: agent_id", "invalid_input"));
            },
        };
        let task = match input.get("task") {
            Some(v) => match v.as_str() {
                Some(s) => s,
                None => {
                    return Err(tool_error("Missing required field: task", "invalid_input"));
                },
            },
            None => {
                return Err(tool_error("Missing required field: task", "invalid_input"));
            },
        };
        let agent = match agents.get_agent_by_id(agent_id) {
            Some(a) => a,
            None => {
                let mut m = chars_of("Agent not found: ");
                push_str(&mut m, agent_id);
                let msg = string_of(&m);
                return Err(tool_error(msg.as_str(), "agent_not_found"));
            },
        };
        if agent.is_orchestrator {
            return Err(tool_error("Cannot delegate to orchestrator itself", "invalid_delegation"));
        }
        Ok((agent, task.to_owned()))
    }

    /// The output of a delegation: the sub-agent's reply, with the agent and
    /// the task as metadata.
    pub fn finish(agent: &AgentDefinition, task: &str, reply: &str) -> (r: ToolOutput)
        ensures
            r.output_type@ == "delegation_result"@,
            r.content@ == reply@,
            r.metadata@.len() == 3,
            r.metadata@[0].0@ == "agent_id"@ && r.metadata@[0].1@ == Json::Str(agent.agent_id@),
            r.metadata@[1].0@ == "agent_name"@ && r.metadata@[1].1@ == Json::Str(agent.name@),
            r.metadata@[2].0@ == "task"@ && r.metadata@[2].1@ == Json::Str(task@),
    {
        let mut metadata: Vec<(String, JsonValue)> = Vec::new();
        metadata.push(text_member("agent_id", agent.agent_id.as_str()));
        metadata.push(text_member("agent_name", agent.name.as_str()));
        metadata.push(text_member("task", task));
        ToolOutput { output_type: String::from_str("delegation_result"), content: reply.to_owned(), metadata }
    }

    /// The error of a delegation whose model call failed.
    pub fn failure(detail: &str) -> (e: ToolError)
        ensures
            e.message@ == "Failed to execute agent: "@ + detail@,
            e.code is Some && e.code->0@ == "execution_error"@,
    {
        let mut m = chars_of("Failed to execute agent: ");
        push_str(&mut m, detail);
        let msg = string_of(&m);
        tool_error(msg.as_str(), "execution_error")
    }
}

/// Lists the agents the orchestrator can delegate to.
pub struct ListAvailableAgentsTool;

/// How an agent is listed: its id, name, description, when to use it, and
/// its tools.
pub open spec fn listed_agent(a: AgentView) -> Json {
    Json::Object(seq![
        ("agent_id"@, Json::Str(a.agent_id)),
        ("name"@, Json::Str(a.name)),
        ("description"@, Json::Str(a.description)),
        ("when_to_use"@, Json::Str(a.when_to_use)),
        ("tools"@, Json::Array(a.tools.map_values(|t: Seq<char>| Json::Str(t)))),
    ])
}

/// The listing of a list of agents, with their count.
pub open spec fn agent_listing(s: Seq<AgentView>) -> Json {
    Json::Object(seq![
        ("agents"@, Json::Array(s.map_values(|a: AgentView| listed_agent(a)))),
        ("count"@, Json::Number(decimal(s.len()))),
    ])
}

fn listed_agent_value(a: &AgentDefinition) -> (r: JsonValue)
    ensures
        r@ == listed_agent(a@),
{
    let mut tools: Vec<JsonValue> = Vec::new();
    let mut i: usize = 0;
    while i < a.tools.len()
        invariant
            i <= a.tools.len(),
            tools@.len() == i,
            forall|j: int| 0 <= j < i ==> #[trigger] tools@[j]@ == Json::Str(a.tools@[j]@),
        decreases a.tools.len() - i,
    {
        tools.push(JsonValue::Str(a.tools[i].clone()));
        i += 1;
    }
    proof {
        crate::json::lemma_json_views(tools@);
        assert(crate::json::json_views(tools@) =~= texts(a.tools@).map_values(|t: Seq<char>| Json::Str(t)));
    }
    let mut m: Vec<(String, JsonValue)> = Vec::new();
    m.push(text_member("agent_id", a.agent_id.as_str()));
    m.push(text_member("name", a.name.as_str()));
    m.push(text_member("description", a.description.as_str()));
    m.push(text_member("when_to_use", a.when_to_use.as_str()));
    m.push((String::from_str("tools"), JsonValue::Array(tools)));
    proof {
        crate::json::lemma_member_views(m@);
        assert(crate::json::member_views(m@) =~= listed_agent(a@)->Object_0);
    }
    JsonValue::Object(m)
}

impl ListAvailableAgentsTool {
    /// The tool's name.
    pub fn name() -> (r: &'static str)
        ensures
            r@ == "list_available_agents"@,
    {
        "list_available_agents"
    }

    /// The tool's description.
    pub fn description() -> (r: &'static str)
        ensures
            r@ == "获取所有可用的Agent列表，包含每个Agent的ID、名称、描述和适用场景。"@,
    {
        "获取所有可用的Agent列表，包含每个Agent的ID、名称、描述和适用场景。"
    }

    /// The schema of the tool's input: an object with no members.
    pub fn input_schema() -> (r: JsonValue)
        ensures
            r@ == Json::Object(seq![
                ("type"@, Json::Str("object"@)),
                ("properties"@, Json::Object(Seq::empty())),
                ("required"@, Json::Array(Seq::empty())),
            ]),
    {
        let mut top: Vec<(String, JsonValue)> = Vec::new();
        top.push(text_member("type", "object"));
        top.push((String::from_str("properties"), JsonValue::Object(Vec::new())));
        top.push((String::from_str("required"), JsonValue::Array(Vec::new())));
        proof {
            crate::json::lemma_member_views(top@);
            assert(crate::json::member_views(Seq::<(String, JsonValue)>::empty()) =~= Seq::empty());
            assert(crate::json::json_views(Seq::<JsonValue>::empty()) =~= Seq::empty());
        }
        let r = JsonValue::Object(top);
        assert(r@->Object_0 =~= seq![
            ("type"@, Json::Str("object"@)),
            ("properties"@, Json::Object(Seq::empty())),
            ("required"@, Json::Array(Seq::empty())),
        ]);
        r
    }

    /// The listing of the given agents, in their order.
    pub fn listing(agents: &Vec<AgentDefinition>) -> (r: JsonValue)
        ensures
            r@ == agent_listing(agent_views(agents@)),
    {
        let mut items: Vec<JsonValue> = Vec::new();
        let mut i: usize = 0;
        while i < agents.len()
            invariant
                i <= agents.len(),
                items@.len() == i,
                forall|j: int| 0 <= j < i ==> #[trigger] items@[j]@ == listed_agent(agents@[j]@),
            decreases agents.len() - i,
        {
            items.push(listed_agent_value(&agents[i]));
            i += 1;
        }
        proof {
            crate::json::lemma_json_views(items@);
            assert(crate::json::json_views(items@) =~= agent_views(agents@).map_values(|a: AgentView| listed_agent(a)));
        }
        let count = decimal_exec(agents.len() as u128);
        let mut m: Vec<(String, JsonValue)> = Vec::new();
        m.push((String::from_str("agents"), JsonValue::Array(items)));
        m.push((String::from_str("count"), JsonValue::Number(string_of(&count))));
        proof {
            crate::json::lemma_member_views(m@);
            assert(crate::json::member_views(m@) =~= agent_listing(agent_views(agents@))->Object_0);
        }
        JsonValue::Object(m)
    }

    /// Lists every agent but the orchestrators, each once, in no particular
    /// order, as pretty-printed JSON.
    pub fn execute(agents: &AgentsService) -> (r: ToolOutput)
        ensures
            r.output_type@ == "agent_list"@,
            r.metadata@.len() == 0,
            exists|s: Seq<AgentDefinition>| {
                &&& unique_keys(s)
                &&& agent_map(s) == without_orchestrators(agents.agents())
                &&& #[trigger] json_pretty_text(agent_listing(agent_views(s))) == r.content@
            },
    {
        let list = agents.list_non_orchestrator_agents();
        let v = Self::listing(&list);
        let content = to_json_pretty(&v);
        assert(json_pretty_text(agent_listing(agent_views(list@))) == content@);
        ToolOutput { output_type: String::from_str("agent_list"), content, metadata: Vec::new() }
    }
}

} // verus!
