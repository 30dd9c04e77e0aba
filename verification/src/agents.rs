//! The agent registry: built-in and custom agents, the sessions they run, and
//! the stored API keys.

use vstd::prelude::*;
use crate::api::ChatMessage;
use crate::builtin_texts::{ORCHESTRATOR_DESCRIPTION, ORCHESTRATOR_WHEN_TO_USE, GUIDE_DESCRIPTION,
    GUIDE_WHEN_TO_USE, GUIDE_PROMPT, EXPLORE_DESCRIPTION, EXPLORE_WHEN_TO_USE, EXPLORE_PROMPT,
    GENERAL_DESCRIPTION, GENERAL_WHEN_TO_USE, GENERAL_PROMPT, PLAN_DESCRIPTION, PLAN_WHEN_TO_USE,
    PLAN_PROMPT, VERIFICATION_DESCRIPTION, VERIFICATION_WHEN_TO_USE, VERIFICATION_PROMPT};
use crate::ids::{new_id, now_micros};
use crate::models::ApiKeyConfig;
use crate::registry::{Keyed, unique_keys, has_key, keyed_map, find_key, upsert, remove_key,
    lemma_keyed_map_at, lemma_keyed_map_has, lemma_keyed_map_push, lemma_keyed_map_empty};
use crate::text::{is_empty_str, str_eq, starts_with, chars_of, string_of, push_str};

verus! {

/// The kinds of agents.
#[derive(Debug, Clone, Copy, PartialEq, Eq, Structural, Hash)]
pub enum AgentType {
    Orchestrator,
    ClaudeCodeGuide,
    Explore,
    GeneralPurpose,
    Plan,
    Verification,
    Custom,
}

/// The name a kind is displayed with.
pub open spec fn agent_type_name(t: AgentType) -> Seq<char> {
    match t {
        AgentType::Orchestrator => "orchestrator"@,
        AgentType::ClaudeCodeGuide => "code-guide"@,
        AgentType::Explore => "explore"@,
        AgentType::GeneralPurpose => "general-purpose"@,
        AgentType::Plan => "plan"@,
        AgentType::Verification => "verification"@,
        AgentType::Custom => "custom"@,
    }
}

/// The name of a kind's variant, as debug output writes it.
pub open spec fn agent_type_variant(t: AgentType) -> Seq<char> {
    match t {
        AgentType::Orchestrator => "Orchestrator"@,
        AgentType::ClaudeCodeGuide => "ClaudeCodeGuide"@,
        AgentType::Explore => "Explore"@,
        AgentType::GeneralPurpose => "GeneralPurpose"@,
        AgentType::Plan => "Plan"@,
        AgentType::Verification => "Verification"@,
        AgentType::Custom => "Custom"@,
    }
}

impl AgentType {
    /// The name the kind is displayed with.
    pub fn as_str(&self) -> (r: &'static str)
        ensures
            r@ == agent_type_name(*self),
    {
        match self {
            AgentType::Orchestrator => "orchestrator",
            AgentType::ClaudeCodeGuide => "code-guide",
            AgentType::Explore => "explore",
            AgentType::GeneralPurpose => "general-purpose",
            AgentType::Plan => "plan",
            AgentType::Verification => "verification",
            AgentType::Custom => "custom",
        }
    }

    /// The name of the kind's variant.
    pub fn variant_name(&self) -> (r: &'static str)
        ensures
            r@ == agent_type_variant(*self),
    {
        match self {
            AgentType::Orchestrator => "Orchestrator",
            AgentType::ClaudeCodeGuide => "ClaudeCodeGuide",
            AgentType::Explore => "Explore",
            AgentType::GeneralPurpose => "GeneralPurpose",
            AgentType::Plan => "Plan",
            AgentType::Verification => "Verification",
            AgentType::Custom => "Custom",
        }
    }
}

/// An agent: what it is for, the tools and model it uses, and its prompt.
#[derive(Debug, Clone)]
pub struct AgentDefinition {
    pub agent_id: String,
    pub agent_type: AgentType,
    pub name: String,
    pub description: String,
    pub when_to_use: String,
    pub tools: Vec<String>,
    pub model: String,
    pub system_prompt: String,
    pub source: String,
    pub base_dir: String,
    pub is_orchestrator: bool,
}

/// The mathematical form of an agent.
pub struct AgentView {
    pub agent_id: Seq<char>,
    pub agent_type: AgentType,
    pub name: Seq<char>,
    pub description: Seq<char>,
    pub when_to_use: Seq<char>,
    pub tools: Seq<Seq<char>>,
    pub model: Seq<char>,
    pub system_prompt: Seq<char>,
    pub source: Seq<char>,
    pub base_dir: Seq<char>,
    pub is_orchestrator: bool,
}

/// The texts of a list of strings.
pub open spec fn texts(v: Seq<String>) -> Seq<Seq<char>> {
    v.map_values(|s: String| s@)
}

impl View for AgentDefinition {
    type V = AgentView;

    open spec fn view(&self) -> AgentView {
        AgentView {
            agent_id: self.agent_id@,
            agent_type: self.agent_type,
            name: self.name@,
            description: self.description@,
            when_to_use: self.when_to_use@,
            tools: texts(self.tools@),
            model: self.model@,
            system_prompt: self.system_prompt@,
            source: self.source@,
            base_dir: self.base_dir@,
            is_orchestrator: self.is_orchestrator,
        }
    }
}

impl Keyed for AgentDefinition {
    open spec fn key(&self) -> Seq<char> {
        self.agent_id@
    }

    fn key_str(&self) -> (r: &str) {
        self.agent_id.as_str()
    }
}

/// Copies a list of strings.
pub fn copy_texts(v: &Vec<String>) -> (r: Vec<String>)
    ensures
        texts(r@) == texts(v@),
{
    let mut r: Vec<String> = Vec::new();
    let mut i: usize = 0;
    while i < v.len()
        invariant
            i <= v.len(),
            r@.len() == i,
            forall|j: int| 0 <= j < i ==> #[trigger] r@[j]@ == v@[j]@,
        decreases v.len() - i,
    {
        r.push(v[i].clone());
        i += 1;
    }
    assert(texts(r@) =~= texts(v@));
    r
}

impl AgentDefinition {
    /// A field-by-field copy.
    pub fn duplicate(&self) -> (r: Self)
        ensures
            r@ == self@,
    {
        AgentDefinition {
            agent_id: self.agent_id.clone(),
            agent_type: self.agent_type,
            name: self.name.clone(),
            description: self.description.clone(),
            when_to_use: self.when_to_use.clone(),
            tools: copy_texts(&self.tools),
            model: self.model.clone(),
            system_prompt: self.system_prompt.clone(),
            source: self.source.clone(),
            base_dir: self.base_dir.clone(),
            is_orchestrator: self.is_orchestrator,
        }
    }
}

/// The agents of a list, by id, in mathematical form.
pub open spec fn agent_map(s: Seq<AgentDefinition>) -> Map<Seq<char>, AgentView> {
    keyed_map(s).map_values(|d: AgentDefinition| d@)
}

/// A built-in agent: model `sonnet`, source and base directory `built-in`.
pub open spec fn builtin_view(
    id: Seq<char>,
    agent_type: AgentType,
    name: Seq<char>,
    description: Seq<char>,
    when_to_use: Seq<char>,
    tools: Seq<Seq<char>>,
    system_prompt: Seq<char>,
    is_orchestrator: bool,
) -> AgentView {
    AgentView {
        agent_id: id,
        agent_type,
        name,
        description,
        when_to_use,
        tools,
        model: "sonnet"@,
        system_prompt,
        source: "built-in"@,
        base_dir: "built-in"@,
        is_orchestrator,
    }
}

/// The six built-in agents, by id. The orchestrator's prompt is empty: it is
/// built at run time from the other agents.
pub open spec fn builtin_agents() -> Map<Seq<char>, AgentView> {
    Map::empty()
        .insert("builtin-orchestrator"@, builtin_view("builtin-orchestrator"@, AgentType::Orchestrator,
            "Orchestrator"@, ORCHESTRATOR_DESCRIPTION@, ORCHESTRATOR_WHEN_TO_USE@,
            seq!["delegate_to_agent"@, "list_available_agents"@], Seq::empty(), true))
        .insert("builtin-code-guide"@, builtin_view("builtin-code-guide"@,
            AgentType::ClaudeCodeGuide, "Code Guide"@, GUIDE_DESCRIPTION@, GUIDE_WHEN_TO_USE@,
            seq!["file_read"@, "search"@], GUIDE_PROMPT@, false))
        .insert("builtin-explore"@, builtin_view("builtin-explore"@, AgentType::Explore,
            "Explore Agent"@, EXPLORE_DESCRIPTION@, EXPLORE_WHEN_TO_USE@,
            seq!["file_read"@, "search"@, "list_files"@], EXPLORE_PROMPT@, false))
        .insert("builtin-general-purpose"@, builtin_view("builtin-general-purpose"@,
            AgentType::GeneralPurpose, "General Purpose Agent"@, GENERAL_DESCRIPTION@,
            GENERAL_WHEN_TO_USE@, seq!["web_search"@, "file_read"@, "file_write"@, "file_edit"@,
            "search"@, "execute_command"@], GENERAL_PROMPT@, false))
        .insert("builtin-plan"@, builtin_view("builtin-plan"@, AgentType::Plan, "Plan Agent"@,
            PLAN_DESCRIPTION@, PLAN_WHEN_TO_USE@, seq!["file_read"@, "search"@], PLAN_PROMPT@, false))
        .insert("builtin-verification"@, builtin_view("builtin-verification"@,
            AgentType::Verification, "Verification Agent"@, VERIFICATION_DESCRIPTION@,
            VERIFICATION_WHEN_TO_USE@, seq!["file_read"@, "execute_command"@, "search"@],
            VERIFICATION_PROMPT@, false))
}

fn text_list(items: &[&str]) -> (r: Vec<String>)
    ensures
        texts(r@) == items@.map_values(|s: &str| s@),
{
    let mut r: Vec<String> = Vec::new();
    let mut i: usize = 0;
    while i < items.len()
        invariant
            i <= items.len(),
            r@.len() == i,
            forall|j: int| 0 <= j < i ==> #[trigger] r@[j]@ == items@[j]@,
        decreases items.len() - i,
    {
        r.push(items[i].to_owned());
        i += 1;
    }
    assert(texts(r@) =~= items@.map_values(|s: &str| s@));
    r
}

fn make_builtin(
    id: &str,
    agent_type: AgentType,
    name: &str,
    description: &str,
    when_to_use: &str,
    tools: &[&str],
    system_prompt: &str,
    is_orchestrator: bool,
) -> (d: AgentDefinition)
    ensures
        d@ == builtin_view(id@, agent_type, name@, description@, when_to_use@,
            tools@.map_values(|s: &str| s@), system_prompt@, is_orchestrator),
{
    AgentDefinition {
        agent_id: id.to_owned(),
        agent_type,
        name: name.to_owned(),
        description: description.to_owned(),
        when_to_use: when_to_use.to_owned(),
        tools: text_list(tools),
        model: String::from_str("sonnet"),
        system_prompt: system_prompt.to_owned(),
        source: String::from_str("built-in"),
        base_dir: String::from_str("built-in"),
        is_orchestrator,
    }
}

proof fn lemma_agent_map_insert(s: Seq<AgentDefinition>, d: AgentDefinition)
    requires
        unique_keys(s),
        !has_key(s, d.key()),
    ensures
        unique_keys(s.push(d)),
        agent_map(s.push(d)) == agent_map(s).insert(d.agent_id@, d@),
{
    lemma_keyed_map_push(s, d);
    assert(agent_map(s.push(d)) =~= agent_map(s).insert(d.agent_id@, d@));
}

/// The built-in agents (see `builtin_agents`).
pub fn load_builtin_agents() -> (r: Vec<AgentDefinition>)
    ensures
        unique_keys(r@),
        agent_map(r@) == builtin_agents(),
{
    let mut v: Vec<AgentDefinition> = Vec::new();
    let ghost mut m: Map<Seq<char>, AgentView> = Map::empty();
    proof {
        lemma_keyed_map_empty(v@);
        assert(agent_map(v@) =~= m);
        reveal_strlit("");
        assert(""@ =~= Seq::<char>::empty());
        reveal_strlit("builtin-orchestrator");
        reveal_strlit("builtin-code-guide");
        reveal_strlit("builtin-explore");
        reveal_strlit("builtin-general-purpose");
        reveal_strlit("builtin-plan");
        reveal_strlit("builtin-verification");
    }
    let tools: [&str; 2] = ["delegate_to_agent", "list_available_agents"];
    let d = make_builtin("builtin-orchestrator", AgentType::Orchestrator, "Orchestrator", ORCHESTRATOR_DESCRIPTION, ORCHESTRATOR_WHEN_TO_USE, &tools,
        "", true);
    proof {
        assert(tools@.map_values(|s: &str| s@) =~= seq!["delegate_to_agent"@, "list_available_agents"@]);
        assert(d@ == builtin_view("builtin-orchestrator"@, AgentType::Orchestrator, "Orchestrator"@, ORCHESTRATOR_DESCRIPTION@, ORCHESTRATOR_WHEN_TO_USE@,
            seq!["delegate_to_agent"@, "list_available_agents"@], Seq::empty(), true));
        assert forall|j: int| 0 <= j < v@.len() implies #[trigger] v@[j].key() != d.key() by {
            assert(v@[j].key()[8] != d.key()[8] || v@[j].key().len() != d.key().len());
        }
        lemma_agent_map_insert(v@, d);
        m = m.insert("builtin-orchestrator"@, d@);
    }
    v.push(d);
    let tools: [&str; 2] = ["file_read", "search"];
    let d = make_builtin("builtin-code-guide", AgentType::ClaudeCodeGuide, "Code Guide", GUIDE_DESCRIPTION, GUIDE_WHEN_TO_USE, &tools,
        GUIDE_PROMPT, false);
    proof {
        assert(tools@.map_values(|s: &str| s@) =~= seq!["file_read"@, "search"@]);
        assert(d@ == builtin_view("builtin-code-guide"@, AgentType::ClaudeCodeGuide, "Code Guide"@, GUIDE_DESCRIPTION@, GUIDE_WHEN_TO_USE@,
            seq!["file_read"@, "search"@], GUIDE_PROMPT@, false));
        assert forall|j: int| 0 <= j < v@.len() implies #[trigger] v@[j].key() != d.key() by {
            assert(v@[j].key()[8] != d.key()[8] || v@[j].key().len() != d.key().len());
        }
        lemma_agent_map_insert(v@, d);
        m = m.insert("builtin-code-guide"@, d@);
    }
    v.push(d);
    let tools: [&str; 3] = ["file_read", "search", "list_files"];
    let d = make_builtin("builtin-explore", AgentType::Explore, "Explore Agent", EXPLORE_DESCRIPTION, EXPLORE_WHEN_TO_USE, &tools,
        EXPLORE_PROMPT, false);
    proof {
        assert(tools@.map_values(|s: &str| s@) =~= seq!["file_read"@, "search"@, "list_files"@]);
        assert(d@ == builtin_view("builtin-explore"@, AgentType::Explore, "Explore Agent"@, EXPLORE_DESCRIPTION@, EXPLORE_WHEN_TO_USE@,
            seq!["file_read"@, "search"@, "list_files"@], EXPLORE_PROMPT@, false));
        assert forall|j: int| 0 <= j < v@.len() implies #[trigger] v@[j].key() != d.key() by {
            assert(v@[j].key()[8] != d.key()[8] || v@[j].key().len() != d.key().len());
        }
        lemma_agent_map_insert(v@, d);
        m = m.insert("builtin-explore"@, d@);
    }
    v.push(d);
    let tools: [&str; 6] = ["web_search", "file_read", "file_write", "file_edit", "search", "execute_command"];
    let d = make_builtin("builtin-general-purpose", AgentType::GeneralPurpose, "General Purpose Agent", GENERAL_DESCRIPTION, GENERAL_WHEN_TO_USE, &tools,
        GENERAL_PROMPT, false);
    proof {
        assert(tools@.map_values(|s: &str| s@) =~= seq!["web_search"@, "file_read"@, "file_write"@, "file_edit"@, "search"@, "execute_command"@]);
        assert(d@ == builtin_view("builtin-general-purpose"@, AgentType::GeneralPurpose, "General Purpose Agent"@, GENERAL_DESCRIPTION@, GENERAL_WHEN_TO_USE@,
            seq!["web_search"@, "file_read"@, "file_write"@, "file_edit"@, "search"@, "execute_command"@], GENERAL_PROMPT@, false));
        assert forall|j: int| 0 <= j < v@.len() implies #[trigger] v@[j].key() != d.key() by {
            assert(v@[j].key()[8] != d.key()[8] || v@[j].key().len() != d.key().len());
        }
        lemma_agent_map_insert(v@, d);
        m = m.insert("builtin-general-purpose"@, d@);
    }
    v.push(d);
    let tools: [&str; 2] = ["file_read", "search"];
    let d = make_builtin("builtin-plan", AgentType::Plan, "Plan Agent", PLAN_DESCRIPTION, PLAN_WHEN_TO_USE, &tools,
        PLAN_PROMPT, false);
    proof {
        assert(tools@.map_values(|s: &str| s@) =~= seq!["file_read"@, "search"@]);
        assert(d@ == builtin_view("builtin-plan"@, AgentType::Plan, "Plan Agent"@, PLAN_DESCRIPTION@, PLAN_WHEN_TO_USE@,
            seq!["file_read"@, "search"@], PLAN_PROMPT@, false));
        assert forall|j: int| 0 <= j < v@.len() implies #[trigger] v@[j].key() != d.key() by {
            assert(v@[j].key()[8] != d.key()[8] || v@[j].key().len() != d.key().len());
        }
        lemma_agent_map_insert(v@, d);
        m = m.insert("builtin-plan"@, d@);
    }
    v.push(d);
    let tools: [&str; 3] = ["file_read", "execute_command", "search"];
    let d = make_builtin("builtin-verification", AgentType::Verification, "Verification Agent", VERIFICATION_DESCRIPTION, VERIFICATION_WHEN_TO_USE, &tools,
        VERIFICATION_PROMPT, false);
    proof {
        assert(tools@.map_values(|s: &str| s@) =~= seq!["file_read"@, "execute_command"@, "search"@]);
        assert(d@ == builtin_view("builtin-verification"@, AgentType::Verification, "Verification Agent"@, VERIFICATION_DESCRIPTION@, VERIFICATION_WHEN_TO_USE@,
            seq!["file_read"@, "execute_command"@, "search"@], VERIFICATION_PROMPT@, false));
        assert forall|j: int| 0 <= j < v@.len() implies #[trigger] v@[j].key() != d.key() by {
            assert(v@[j].key()[8] != d.key()[8] || v@[j].key().len() != d.key().len());
        }
        lemma_agent_map_insert(v@, d);
        m = m.insert("builtin-verification"@, d@);
    }
    v.push(d);
    assert(m =~= builtin_agents());
    v
}

/// The state of an agent session.
#[derive(Debug, Clone, Copy, PartialEq, Eq, Structural)]
pub enum AgentStatus {
    Idle,
    Running,
    Completed,
    Failed,
}

/// One message of a session; times are microseconds since the Unix epoch.
#[derive(Debug, Clone)]
pub struct AgentMessage {
    pub role: String,
    pub content: String,
    pub timestamp: i64,
}

impl AgentMessage {
    /// A field-by-field copy.
    pub fn duplicate(&self) -> (r: Self)
        ensures
            r == *self,
    {
        AgentMessage { role: self.role.clone(), content: self.content.clone(), timestamp: self.timestamp }
    }
}

/// One run of an agent on a prompt; times are microseconds since the Unix epoch.
#[derive(Debug, Clone)]
pub struct AgentSession {
    pub id: String,
    pub agent_type: AgentType,
    pub agent_id: String,
    pub status: AgentStatus,
    pub created_at: i64,
    pub updated_at: i64,
    pub messages: Vec<AgentMessage>,
    pub result: Option<String>,
}

/// The mathematical form of a session.
pub struct SessionView {
    pub id: Seq<char>,
    pub agent_type: AgentType,
    pub agent_id: Seq<char>,
    pub status: AgentStatus,
    pub created_at: i64,
    pub updated_at: i64,
    pub messages: Seq<AgentMessage>,
    pub result: Option<Seq<char>>,
}

impl View for AgentSession {
    type V = SessionView;

    open spec fn view(&self) -> SessionView {
        SessionView {
            id: self.id@,
            agent_type: self.agent_type,
            agent_id: self.agent_id@,
            status: self.status,
            created_at: self.created_at,
            updated_at: self.updated_at,
            messages: self.messages@,
            result: match self.result {
                Some(r) => Some(r@),
                None => None,
            },
        }
    }
}

impl Keyed for AgentSession {
    open spec fn key(&self) -> Seq<char> {
        self.id@
    }

    fn key_str(&self) -> (r: &str) {
        self.id.as_str()
    }
}

/// Copies the messages of a session.
pub fn copy_messages(v: &Vec<AgentMessage>) -> (r: Vec<AgentMessage>)
    ensures
        r@ == v@,
{
    let mut r: Vec<AgentMessage> = Vec::new();
    let mut i: usize = 0;
    while i < v.len()
        invariant
            i <= v.len(),
            r@ == v@.take(i as int),
        decreases v.len() - i,
    {
        r.push(v[i].duplicate());
        assert(v@.take(i + 1) =~= v@.take(i as int).push(v@[i as int]));
        i += 1;
    }
    assert(v@.take(v@.len() as int) =~= v@);
    r
}

impl AgentSession {
    /// A field-by-field copy.
    pub fn duplicate(&self) -> (r: Self)
        ensures
            r@ == self@,
    {
        AgentSession {
            id: self.id.clone(),
            agent_type: self.agent_type,
            agent_id: self.agent_id.clone(),
            status: self.status,
            created_at: self.created_at,
            updated_at: self.updated_at,
            messages: copy_messages(&self.messages),
            result: match &self.result {
                Some(r) => Some(r.clone()),
                None => None,
            },
        }
    }
}

/// The sessions of a list, by id, in mathematical form.
pub open spec fn session_map(s: Seq<AgentSession>) -> Map<Seq<char>, SessionView> {
    keyed_map(s).map_values(|x: AgentSession| x@)
}

/// What the registry reports of itself.
#[derive(Debug, Clone)]
pub struct AgentStatusReport {
    pub available_agents: Vec<AgentDefinition>,
    pub active_sessions: usize,
    pub sessions: Vec<AgentSession>,
}

/// Why a registry operation was refused.
#[derive(Debug, Clone, PartialEq, Eq)]
pub enum AgentError {
    /// No agent has this id.
    AgentNotFound(String),
    /// No agent is of this kind.
    AgentTypeNotFound(AgentType),
    /// The agent with this id is built in and cannot be changed.
    CannotModifyBuiltIn(String),
    /// The agent with this id is built in and cannot be deleted.
    CannotDeleteBuiltIn(String),
    /// The session disappeared while its agent ran.
    SessionNotFound,
    /// No API key has this id.
    ApiKeyNotFound(String),
}

/// The message an error is reported with.
pub open spec fn error_message(e: AgentError) -> Seq<char> {
    match e {
        AgentError::AgentNotFound(id) => "Agent not found: "@ + id@,
        AgentError::AgentTypeNotFound(t) => "Agent not found: "@ + agent_type_variant(t),
        AgentError::CannotModifyBuiltIn(id) => "Cannot modify built-in agent: "@ + id@,
        AgentError::CannotDeleteBuiltIn(id) => "Cannot delete built-in agent: "@ + id@,
        AgentError::SessionNotFound => "Session not found after execution"@,
        AgentError::ApiKeyNotFound(id) => "API Key not found: "@ + id@,
    }
}

impl AgentError {
    /// The message the error is reported with.
    pub fn message(&self) -> (r: String)
        ensures
            r@ == error_message(*self),
    {
        let (head, tail): (&str, &str) = match self {
            AgentError::AgentNotFound(id) => ("Agent not found: ", id.as_str()),
            AgentError::AgentTypeNotFound(t) => ("Agent not found: ", t.variant_name()),
            AgentError::CannotModifyBuiltIn(id) => ("Cannot modify built-in agent: ", id.as_str()),
            AgentError::CannotDeleteBuiltIn(id) => ("Cannot delete built-in agent: ", id.as_str()),
            AgentError::SessionNotFound => ("Session not found after execution", ""),
            AgentError::ApiKeyNotFound(id) => ("API Key not found: ", id.as_str()),
        };
        let mut out = chars_of(head);
        push_str(&mut out, tail);
        proof {
            reveal_strlit("");
            assert(""@ =~= Seq::<char>::empty());
            assert(out@ =~= head@ + tail@);
        }
        string_of(&out)
    }
}

/// A copy whose items have the views and keys of the source sequence keeps its map.
pub proof fn lemma_copy_views<T: Keyed + View>(s: Seq<T>, t: Seq<T>)
    requires
        unique_keys(s),
        t.len() == s.len(),
        forall|i: int| #![trigger t[i]] 0 <= i < s.len() ==> t[i]@ == s[i]@ && t[i].key() == s[i].key(),
    ensures
        unique_keys(t),
        keyed_map(t).map_values(|x: T| x@) == keyed_map(s).map_values(|x: T| x@),
{
    assert forall|i: int, j: int| 0 <= i < t.len() && 0 <= j < t.len() && i != j implies #[trigger] t[i].key() != #[trigger] t[j].key() by {
        assert(t[i]@ == s[i]@ && t[i].key() == s[i].key());
        assert(t[j]@ == s[j]@ && t[j].key() == s[j].key());
    }
    assert forall|k: Seq<char>| #[trigger] has_key(t, k) == has_key(s, k) by {
        if has_key(s, k) {
            let i = crate::registry::key_index(s, k);
            assert(t[i]@ == s[i]@ && t[i].key() == s[i].key());
        }
        if has_key(t, k) {
            let i = crate::registry::key_index(t, k);
            assert(t[i]@ == s[i]@ && t[i].key() == s[i].key());
        }
    }
    assert forall|k: Seq<char>| #[trigger] keyed_map(t).contains_key(k) implies keyed_map(t)[k]@ == keyed_map(s)[k]@ by {
        let i = crate::registry::key_index(s, k);
        assert(t[i]@ == s[i]@ && t[i].key() == s[i].key());
        lemma_keyed_map_at(t, i);
        lemma_keyed_map_at(s, i);
    }
    assert(keyed_map(t).map_values(|x: T| x@) =~= keyed_map(s).map_values(|x: T| x@));
}

/// The API keys of a list, loaded in order: a later key replaces an earlier
/// one with the same id.
pub open spec fn loaded_keys(s: Seq<ApiKeyConfig>) -> Map<Seq<char>, ApiKeyConfig>
    decreases s.len(),
{
    if s.len() == 0 {
        Map::empty()
    } else {
        loaded_keys(s.drop_last()).insert(s.last().id@, s.last())
    }
}

/// The agents of a map that are not orchestrators.
pub open spec fn without_orchestrators(m: Map<Seq<char>, AgentView>) -> Map<Seq<char>, AgentView> {
    Map::new(
        |k: Seq<char>| m.contains_key(k) && m[k].agent_type != AgentType::Orchestrator,
        |k: Seq<char>| m[k],
    )
}

/// An agent filed as a custom agent under `id`.
pub open spec fn as_custom(v: AgentView, id: Seq<char>) -> AgentView {
    AgentView { agent_id: id, agent_type: AgentType::Custom, ..v }
}

/// `after` is `before` with the custom agent `d` filed under `id`: the id the
/// agent carries, or `custom-` and a fresh id when it carries none; its kind
/// becomes custom and its source `custom`.
pub open spec fn registered(
    before: Map<Seq<char>, AgentView>,
    after: Map<Seq<char>, AgentView>,
    d: AgentView,
    id: Seq<char>,
) -> bool {
    &&& (d.agent_id.len() > 0 ==> id == d.agent_id)
    &&& (d.agent_id.len() == 0 ==> starts_with(id, "custom-"@))
    &&& after == before.insert(id, AgentView { source: "custom"@, ..as_custom(d, id) })
}

/// A session that has just started: its agent, running, with the prompt as
/// its one user message and no result yet.
pub open spec fn started(s: SessionView, a: AgentView, prompt: Seq<char>) -> bool {
    &&& s.agent_type == a.agent_type
    &&& s.agent_id == a.agent_id
    &&& s.status == AgentStatus::Running
    &&& s.result is None
    &&& s.messages.len() == 1
    &&& s.messages[0].role@ == "user"@
    &&& s.messages[0].content@ == prompt
}

/// A session completed with `result`: the reply is appended as an assistant
/// message; only the status, the result and the update time change besides.
pub open spec fn completed(o: SessionView, n: SessionView, result: Seq<char>) -> bool {
    &&& n.id == o.id
    &&& n.agent_type == o.agent_type
    &&& n.agent_id == o.agent_id
    &&& n.created_at == o.created_at
    &&& n.status == AgentStatus::Completed
    &&& n.result == Some(result)
    &&& n.messages.len() == o.messages.len() + 1
    &&& n.messages.take(o.messages.len() as int) == o.messages
    &&& n.messages.last().role@ == "assistant"@
    &&& n.messages.last().content@ == result
}

/// A session marked failed; only its status and update time change.
pub open spec fn cancelled(o: SessionView, n: SessionView) -> bool {
    n == SessionView { status: AgentStatus::Failed, updated_at: n.updated_at, ..o }
}

/// The number of running sessions in a list.
pub open spec fn running_count(s: Seq<AgentSession>) -> nat
    decreases s.len(),
{
    if s.len() == 0 {
        0
    } else {
        running_count(s.drop_last()) + if s.last().status == AgentStatus::Running { 1nat } else { 0nat }
    }
}

/// The agents, their sessions and the stored API keys, each filed by id.
pub struct AgentsService {
    agents: Vec<AgentDefinition>,
    sessions: Vec<AgentSession>,
    api_keys: Vec<ApiKeyConfig>,
}

impl AgentsService {
    #[verifier::type_invariant]
    spec fn wf(self) -> bool {
        &&& unique_keys(self.agents@)
        &&& unique_keys(self.sessions@)
        &&& unique_keys(self.api_keys@)
    }

    /// The agents by id.
    pub closed spec fn agents(self) -> Map<Seq<char>, AgentView> {
        agent_map(self.agents@)
    }

    /// The agent filed under an id carries that id.
    pub proof fn lemma_agent_ids(&self)
        ensures
            forall|k: Seq<char>| #[trigger] self.agents().contains_key(k) ==> self.agents()[k].agent_id == k,
    {
        assert forall|k: Seq<char>| #[trigger] self.agents().contains_key(k) implies self.agents()[k].agent_id == k by {
            lemma_keyed_map_has(self.agents@, k);
        }
    }

    /// The sessions by id.
    pub closed spec fn sessions(self) -> Map<Seq<char>, SessionView> {
        session_map(self.sessions@)
    }

    /// The stored API keys by id.
    pub closed spec fn api_keys(self) -> Map<Seq<char>, ApiKeyConfig> {
        keyed_map(self.api_keys@)
    }

    /// The built-in agents, no sessions, and the given API keys (a later key
    /// replaces an earlier one with the same id).
    pub fn new(api_keys: Vec<ApiKeyConfig>) -> (s: Self)
        ensures
            s.agents() == builtin_agents(),
            s.sessions() == Map::<Seq<char>, SessionView>::empty(),
            s.api_keys() == loaded_keys(api_keys@),
    {
        let agents = load_builtin_agents();
        let mut keys: Vec<ApiKeyConfig> = Vec::new();
        let sessions: Vec<AgentSession> = Vec::new();
        proof {
            lemma_keyed_map_empty(keys@);
            lemma_keyed_map_empty(sessions@);
            assert(keyed_map(keys@) =~= loaded_keys(api_keys@.take(0)));
            assert(session_map(sessions@) =~= Map::<Seq<char>, SessionView>::empty());
        }
        let mut i: usize = 0;
        while i < api_keys.len()
            invariant
                i <= api_keys.len(),
                unique_keys(keys@),
                keyed_map(keys@) == loaded_keys(api_keys@.take(i as int)),
            decreases api_keys.len() - i,
        {
            let k = api_keys[i].duplicate();
            upsert(&mut keys, k);
            assert(api_keys@.take(i + 1).drop_last() =~= api_keys@.take(i as int));
            i += 1;
        }
        assert(api_keys@.take(api_keys@.len() as int) =~= api_keys@);
        AgentsService { agents, sessions, api_keys: keys }
    }

    /// Every agent, each once, in no particular order.
    pub fn list_agents(&self) -> (r: Vec<AgentDefinition>)
        ensures
            unique_keys(r@),
            agent_map(r@) == self.agents(),
    {
        proof {
            use_type_invariant(self);
        }
        let mut r: Vec<AgentDefinition> = Vec::new();
        let mut i: usize = 0;
        while i < self.agents.len()
            invariant
                i <= self.agents.len(),
                r@.len() == i,
                forall|j: int| #![trigger r@[j]] 0 <= j < i ==> r@[j]@ == self.agents@[j]@ && r@[j].key() == self.agents@[j].key(),
            decreases self.agents.len() - i,
        {
            r.push(self.agents[i].duplicate());
            i += 1;
        }
        proof {
            lemma_copy_views(self.agents@, r@);
        }
        r
    }

    /// The agent with the given id.
    pub fn get_agent_by_id(&self, agent_id: &str) -> (r: Option<AgentDefinition>)
        ensures
            match r {
                Some(d) => self.agents().contains_key(agent_id@) && d@ == self.agents()[agent_id@]
                    && d@.agent_id == agent_id@,
                None => !self.agents().contains_key(agent_id@),
            },
    {
        proof {
            use_type_invariant(self);
            self.lemma_agent_ids();
        }
        match find_key(&self.agents, agent_id) {
            Some(i) => {
                proof {
                    lemma_keyed_map_at(self.agents@, i as int);
                }
                Some(self.agents[i].duplicate())
            },
            None => None,
        }
    }

    /// Some agent of the given kind.
    pub fn get_agent(&self, agent_type: &AgentType) -> (r: Option<AgentDefinition>)
        ensures
            match r {
                Some(d) => d.agent_type == *agent_type && self.agents().contains_key(d.agent_id@)
                    && self.agents()[d.agent_id@] == d@,
                None => forall|k: Seq<char>| #[trigger] self.agents().contains_key(k)
                    ==> self.agents()[k].agent_type != *agent_type,
            },
    {
        proof {
            use_type_invariant(self);
        }
        let mut i: usize = 0;
        while i < self.agents.len()
            invariant
                i <= self.agents.len(),
                unique_keys(self.agents@),
                forall|j: int| 0 <= j < i ==> #[trigger] self.agents@[j].agent_type != *agent_type,
            decreases self.agents.len() - i,
        {
            if self.agents[i].agent_type == *agent_type {
                proof {
                    lemma_keyed_map_at(self.agents@, i as int);
                }
                return Some(self.agents[i].duplicate());
            }
            i += 1;
        }
        proof {
            assert forall|k: Seq<char>| #[trigger] self.agents().contains_key(k)
                implies self.agents()[k].agent_type != *agent_type by {
                lemma_keyed_map_has(self.agents@, k);
            }
        }
        None
    }

    /// Every agent but the orchestrators, each once, in no particular order.
    pub fn list_non_orchestrator_agents(&self) -> (r: Vec<AgentDefinition>)
        ensures
            unique_keys(r@),
            agent_map(r@) == without_orchestrators(self.agents()),
    {
        proof {
            use_type_invariant(self);
        }
        let ghost v = self.agents@;
        let mut r: Vec<AgentDefinition> = Vec::new();
        proof {
            lemma_keyed_map_empty(r@);
        }
        let mut i: usize = 0;
        while i < self.agents.len()
            invariant
                i <= self.agents.len(),
                v == self.agents@,
                unique_keys(v),
                unique_keys(r@),
                forall|k: Seq<char>| #[trigger] has_key(r@, k) ==> exists|j: int| 0 <= j < i && v[j].key() == k
                    && v[j].agent_type != AgentType::Orchestrator,
                forall|j: int| 0 <= j < i && #[trigger] v[j].agent_type != AgentType::Orchestrator
                    ==> agent_map(r@).contains_key(v[j].key()) && agent_map(r@)[v[j].key()] == v[j]@,
            decreases self.agents.len() - i,
        {
            if self.agents[i].agent_type != AgentType::Orchestrator {
                let d = self.agents[i].duplicate();
                proof {
                    if has_key(r@, d.key()) {
                        let j = choose|j: int| 0 <= j < i && v[j].key() == d.key()
                            && v[j].agent_type != AgentType::Orchestrator;
                        assert(v[j].key() == v[i as int].key());
                    }
                    lemma_agent_map_insert(r@, d);
                    assert forall|k: Seq<char>| #[trigger] has_key(r@.push(d), k) implies exists|j: int| 0 <= j < i + 1 && v[j].key() == k
                        && v[j].agent_type != AgentType::Orchestrator by {
                        if k != d.key() {
                            let m = crate::registry::key_index(r@.push(d), k);
                            if m < r@.len() {
                                assert(r@.push(d)[m] == r@[m]);
                                assert(has_key(r@, k));
                            }
                        }
                    }
                }
                r.push(d);
            }
            i += 1;
        }
        proof {
            let target = without_orchestrators(self.agents());
            assert forall|k: Seq<char>| #[trigger] agent_map(r@).contains_key(k) == target.contains_key(k) by {
                if agent_map(r@).contains_key(k) {
                    let j = choose|j: int| 0 <= j < v.len() && v[j].key() == k
                        && v[j].agent_type != AgentType::Orchestrator;
                    lemma_keyed_map_at(v, j);
                }
                if target.contains_key(k) {
                    lemma_keyed_map_has(v, k);
                    let j = crate::registry::key_index(v, k);
                    assert(v[j].agent_type != AgentType::Orchestrator);
                }
            }
            assert forall|k: Seq<char>| #[trigger] agent_map(r@).contains_key(k) implies agent_map(r@)[k] == target[k] by {
                lemma_keyed_map_has(v, k);
                let j = crate::registry::key_index(v, k);
                assert(v[j].agent_type != AgentType::Orchestrator);
            }
            assert(agent_map(r@) =~= target);
        }
        r
    }

    /// Starts a run of the agent with the given id on `prompt`: a new running
    /// session is filed; the agent is handed back for the run itself.
    pub fn start_run_by_id(&mut self, agent_id: &str, prompt: &str) -> (r: Result<(AgentSession, AgentDefinition), AgentError>)
        ensures
            final(self).agents() == old(self).agents(),
            final(self).api_keys() == old(self).api_keys(),
            match r {
                Ok((s, a)) => {
                    &&& old(self).agents().contains_key(agent_id@)
                    &&& a@ == old(self).agents()[agent_id@]
                    &&& a@.agent_id == agent_id@
                    &&& s@.agent_id == agent_id@
                    &&& started(s@, a@, prompt@)
                    &&& final(self).sessions() == old(self).sessions().insert(s@.id, s@)
                },
                Err(e) => {
                    &&& !old(self).agents().contains_key(agent_id@)
                    &&& e == AgentError::AgentNotFound(e->AgentNotFound_0) && e->AgentNotFound_0@ == agent_id@
                    &&& final(self).sessions() == old(self).sessions()
                },
            },
    {
        proof {
            use_type_invariant(&*self);
        }
        let agent = match self.get_agent_by_id(agent_id) {
            Some(a) => a,
            None => {
                return Err(AgentError::AgentNotFound(agent_id.to_owned()));
            },
        };
        proof {
            lemma_keyed_map_has(self.agents@, agent_id@);
        }
        let session_id = new_id();
        let created_at = now_micros();
        let updated_at = now_micros();
        let timestamp = now_micros();
        let mut messages: Vec<AgentMessage> = Vec::new();
        messages.push(AgentMessage { role: String::from_str("user"), content: prompt.to_owned(), timestamp });
        let session = AgentSession {
            id: session_id,
            agent_type: agent.agent_type,
            agent_id: agent.agent_id.clone(),
            status: AgentStatus::Running,
            created_at,
            updated_at,
            messages,
            result: None,
        };
        let copy = session.duplicate();
        let ghost old_sessions = self.sessions@;
        let mut sessions: Vec<AgentSession> = Vec::new();
        std::mem::swap(&mut sessions, &mut self.sessions);
        upsert(&mut sessions, session);
        self.sessions = sessions;
        proof {
            assert(session_map(self.sessions@) =~= session_map(old_sessions).insert(copy@.id, copy@));
        }
        Ok((copy, agent))
    }

    /// Starts a run of some agent of the given kind on `prompt` (see
    /// `start_run_by_id`).
    pub fn start_run(&mut self, agent_type: &AgentType, prompt: &str) -> (r: Result<(AgentSession, AgentDefinition), AgentError>)
        ensures
            final(self).agents() == old(self).agents(),
            final(self).api_keys() == old(self).api_keys(),
            match r {
                Ok((s, a)) => {
                    &&& a.agent_type == *agent_type
                    &&& old(self).agents().contains_key(a.agent_id@)
                    &&& a@ == old(self).agents()[a.agent_id@]
                    &&& started(s@, a@, prompt@)
                    &&& final(self).sessions() == old(self).sessions().insert(s@.id, s@)
                },
                Err(e) => {
                    &&& forall|k: Seq<char>| #[trigger] old(self).agents().contains_key(k)
                        ==> old(self).agents()[k].agent_type != *agent_type
                    &&& e == AgentError::AgentTypeNotFound(*agent_type)
                    &&& final(self).sessions() == old(self).sessions()
                },
            },
    {
        match self.get_agent(agent_type) {
            Some(a) => self.start_run_by_id(a.agent_id.as_str(), prompt),
            None => Err(AgentError::AgentTypeNotFound(*agent_type)),
        }
    }

    /// Completes the session with the reply of its agent.
    pub fn finish_run(&mut self, session_id: &str, result: &str) -> (r: Result<AgentSession, AgentError>)
        ensures
            final(self).agents() == old(self).agents(),
            final(self).api_keys() == old(self).api_keys(),
            match r {
                Ok(s) => {
                    &&& old(self).sessions().contains_key(session_id@)
                    &&& completed(old(self).sessions()[session_id@], s@, result@)
                    &&& final(self).sessions() == old(self).sessions().insert(session_id@, s@)
                },
                Err(e) => {
                    &&& !old(self).sessions().contains_key(session_id@)
                    &&& e == AgentError::SessionNotFound
                    &&& final(self).sessions() == old(self).sessions()
                },
            },
    {
        proof {
            use_type_invariant(&*self);
        }
        match find_key(&self.sessions, session_id) {
            Some(i) => {
                proof {
                    lemma_keyed_map_at(self.sessions@, i as int);
                }
                let mut s = self.sessions[i].duplicate();
                let now = now_micros();
                s.status = AgentStatus::Completed;
                s.result = Some(result.to_owned());
                s.updated_at = now;
                let stamp = now_micros();
                let ghost before = s.messages@;
                s.messages.push(AgentMessage { role: String::from_str("assistant"), content: result.to_owned(), timestamp: stamp });
                assert(s.messages@.take(before.len() as int) =~= before);
                let copy = s.duplicate();
                let ghost old_sessions = self.sessions@;
                let mut sessions: Vec<AgentSession> = Vec::new();
                std::mem::swap(&mut sessions, &mut self.sessions);
                upsert(&mut sessions, s);
                self.sessions = sessions;
                proof {
                    assert(session_map(self.sessions@) =~= session_map(old_sessions).insert(session_id@, copy@));
                }
                Ok(copy)
            },
            None => Err(AgentError::SessionNotFound),
        }
    }

    /// The session with the given id.
    pub fn get_session(&self, session_id: &str) -> (r: Option<AgentSession>)
        ensures
            match r {
                Some(s) => self.sessions().contains_key(session_id@) && s@ == self.sessions()[session_id@],
                None => !self.sessions().contains_key(session_id@),
            },
    {
        proof {
            use_type_invariant(self);
        }
        match find_key(&self.sessions, session_id) {
            Some(i) => {
                proof {
                    lemma_keyed_map_at(self.sessions@, i as int);
                }
                Some(self.sessions[i].duplicate())
            },
            None => None,
        }
    }

    /// Every session, each once, in no particular order.
    pub fn list_sessions(&self) -> (r: Vec<AgentSession>)
        ensures
            unique_keys(r@),
            session_map(r@) == self.sessions(),
    {
        proof {
            use_type_invariant(self);
        }
        let mut r: Vec<AgentSession> = Vec::new();
        let mut i: usize = 0;
        while i < self.sessions.len()
            invariant
                i <= self.sessions.len(),
                r@.len() == i,
                forall|j: int| #![trigger r@[j]] 0 <= j < i ==> r@[j]@ == self.sessions@[j]@ && r@[j].key() == self.sessions@[j].key(),
            decreases self.sessions.len() - i,
        {
            r.push(self.sessions[i].duplicate());
            i += 1;
        }
        proof {
            lemma_copy_views(self.sessions@, r@);
        }
        r
    }

    /// Marks the session with the given id failed, if there is one.
    pub fn cancel_session(&mut self, session_id: &str) -> (r: Result<(), AgentError>)
        ensures
            r is Ok,
            final(self).agents() == old(self).agents(),
            final(self).api_keys() == old(self).api_keys(),
            old(self).sessions().contains_key(session_id@) ==> {
                &&& final(self).sessions().contains_key(session_id@)
                &&& cancelled(old(self).sessions()[session_id@], final(self).sessions()[session_id@])
                &&& final(self).sessions() == old(self).sessions().insert(session_id@, final(self).sessions()[session_id@])
            },
            !old(self).sessions().contains_key(session_id@) ==> final(self).sessions() == old(self).sessions(),
    {
        proof {
            use_type_invariant(&*self);
        }
        match find_key(&self.sessions, session_id) {
            Some(i) => {
                proof {
                    lemma_keyed_map_at(self.sessions@, i as int);
                }
                let mut s = self.sessions[i].duplicate();
                s.status = AgentStatus::Failed;
                s.updated_at = now_micros();
                let ghost sv = s@;
                let ghost old_sessions = self.sessions@;
                let mut sessions: Vec<AgentSession> = Vec::new();
                std::mem::swap(&mut sessions, &mut self.sessions);
                upsert(&mut sessions, s);
                self.sessions = sessions;
                proof {
                    assert(session_map(self.sessions@) =~= session_map(old_sessions).insert(session_id@, sv));
                }
            },
            None => {},
        }
        Ok(())
    }

    /// The agents, the number of running sessions, and the sessions.
    pub fn get_status(&self) -> (r: AgentStatusReport)
        ensures
            unique_keys(r.available_agents@),
            agent_map(r.available_agents@) == self.agents(),
            unique_keys(r.sessions@),
            session_map(r.sessions@) == self.sessions(),
            r.active_sessions == running_count(r.sessions@),
    {
        let available_agents = self.list_agents();
        let sessions = self.list_sessions();
        let mut n: usize = 0;
        let mut i: usize = 0;
        while i < sessions.len()
            invariant
                i <= sessions.len(),
                n == running_count(sessions@.take(i as int)),
                n <= i,
            decreases sessions.len() - i,
        {
            assert(sessions@.take(i + 1).drop_last() =~= sessions@.take(i as int));
            if sessions[i].status == AgentStatus::Running {
                n += 1;
            }
            i += 1;
        }
        assert(sessions@.take(sessions@.len() as int) =~= sessions@);
        AgentStatusReport { available_agents, active_sessions: n, sessions }
    }

    fn put_agent(&mut self, d: AgentDefinition)
        ensures
            final(self).agents() == old(self).agents().insert(d.agent_id@, d@),
            final(self).sessions() == old(self).sessions(),
            final(self).api_keys() == old(self).api_keys(),
    {
        proof {
            use_type_invariant(&*self);
        }
        let ghost dv = d@;
        let ghost old_agents = self.agents@;
        let mut agents: Vec<AgentDefinition> = Vec::new();
        std::mem::swap(&mut agents, &mut self.agents);
        upsert(&mut agents, d);
        self.agents = agents;
        proof {
            assert(agent_map(self.agents@) =~= agent_map(old_agents).insert(dv.agent_id, dv));
        }
    }

    /// Files a custom agent: one without an id gets `custom-` and a fresh
    /// id; its kind becomes custom and its source `custom`. An agent with the
    /// same id is replaced.
    pub fn register_custom_agent(&mut self, definition: AgentDefinition) -> (r: Result<(), AgentError>)
        ensures
            r is Ok,
            final(self).sessions() == old(self).sessions(),
            final(self).api_keys() == old(self).api_keys(),
            exists|id: Seq<char>| #[trigger] registered(old(self).agents(), final(self).agents(), definition@, id),
    {
        let ghost dv = definition@;
        let mut d = definition;
        if is_empty_str(d.agent_id.as_str()) {
            let mut id = chars_of("custom-");
            let fresh = new_id();
            push_str(&mut id, fresh.as_str());
            proof {
                reveal_strlit("custom-");
                assert(id@.subrange(0, 7) =~= "custom-"@);
            }
            d.agent_id = string_of(&id);
            assert(starts_with(d.agent_id@, "custom-"@));
        }
        d.agent_type = AgentType::Custom;
        d.source = String::from_str("custom");
        let ghost id = d.agent_id@;
        assert(d@ == AgentView { source: "custom"@, ..as_custom(dv, id) });
        self.put_agent(d);
        assert(dv.agent_id.len() > 0 ==> id == dv.agent_id);
        assert(dv.agent_id.len() == 0 ==> starts_with(id, "custom-"@));
        assert(registered(old(self).agents(), self.agents(), dv, id));
        Ok(())
    }

    /// Replaces a custom agent: refused for an unknown id and for a built-in
    /// agent; otherwise the agent is filed under the id as a custom agent.
    pub fn update_custom_agent(&mut self, agent_id: &str, definition: AgentDefinition) -> (r: Result<(), AgentError>)
        ensures
            final(self).sessions() == old(self).sessions(),
            final(self).api_keys() == old(self).api_keys(),
            match r {
                Ok(()) => {
                    &&& old(self).agents().contains_key(agent_id@)
                    &&& old(self).agents()[agent_id@].source != "built-in"@
                    &&& final(self).agents() == old(self).agents().insert(agent_id@, as_custom(definition@, agent_id@))
                },
                Err(e) => {
                    &&& final(self).agents() == old(self).agents()
                    &&& !old(self).agents().contains_key(agent_id@) ==> e == AgentError::AgentNotFound(e->AgentNotFound_0)
                        && e->AgentNotFound_0@ == agent_id@
                    &&& old(self).agents().contains_key(agent_id@) ==> old(self).agents()[agent_id@].source == "built-in"@
                        && e == AgentError::CannotModifyBuiltIn(e->CannotModifyBuiltIn_0)
                        && e->CannotModifyBuiltIn_0@ == agent_id@
                },
            },
    {
        match self.get_agent_by_id(agent_id) {
            Some(existing) => {
                if str_eq(existing.source.as_str(), "built-in") {
                    return Err(AgentError::CannotModifyBuiltIn(agent_id.to_owned()));
                }
            },
            None => {
                return Err(AgentError::AgentNotFound(agent_id.to_owned()));
            },
        }
        let mut d = definition;
        d.agent_id = agent_id.to_owned();
        d.agent_type = AgentType::Custom;
        self.put_agent(d);
        Ok(())
    }

    /// Deletes a custom agent: refused for an unknown id and for a built-in
    /// agent.
    pub fn delete_custom_agent(&mut self, agent_id: &str) -> (r: Result<(), AgentError>)
        ensures
            final(self).sessions() == old(self).sessions(),
            final(self).api_keys() == old(self).api_keys(),
            match r {
                Ok(()) => {
                    &&& old(self).agents().contains_key(agent_id@)
                    &&& old(self).agents()[agent_id@].source != "built-in"@
                    &&& final(self).agents() == old(self).agents().remove(agent_id@)
                },
                Err(e) => {
                    &&& final(self).agents() == old(self).agents()
                    &&& !old(self).agents().contains_key(agent_id@) ==> e == AgentError::AgentNotFound(e->AgentNotFound_0)
                        && e->AgentNotFound_0@ == agent_id@
                    &&& old(self).agents().contains_key(agent_id@) ==> old(self).agents()[agent_id@].source == "built-in"@
                        && e == AgentError::CannotDeleteBuiltIn(e->CannotDeleteBuiltIn_0)
                        && e->CannotDeleteBuiltIn_0@ == agent_id@
                },
            },
    {
        match self.get_agent_by_id(agent_id) {
            Some(existing) => {
                if str_eq(existing.source.as_str(), "built-in") {
                    return Err(AgentError::CannotDeleteBuiltIn(agent_id.to_owned()));
                }
            },
            None => {
                return Err(AgentError::AgentNotFound(agent_id.to_owned()));
            },
        }
        proof {
            use_type_invariant(&*self);
        }
        let ghost old_agents = self.agents@;
        let mut agents: Vec<AgentDefinition> = Vec::new();
        std::mem::swap(&mut agents, &mut self.agents);
        let _ = remove_key(&mut agents, agent_id);
        self.agents = agents;
        proof {
            assert(agent_map(self.agents@) =~= agent_map(old_agents).remove(agent_id@));
        }
        Ok(())
    }

    /// Files an agent read from a file; one without an id is filed under the
    /// file's stem. An agent with the same id is replaced.
    pub fn insert_loaded_agent(&mut self, definition: AgentDefinition, file_stem: &str)
        ensures
            final(self).sessions() == old(self).sessions(),
            final(self).api_keys() == old(self).api_keys(),
            final(self).agents() == old(self).agents().insert(
                if definition.agent_id@.len() == 0 { file_stem@ } else { definition.agent_id@ },
                AgentView {
                    agent_id: if definition.agent_id@.len() == 0 { file_stem@ } else { definition.agent_id@ },
                    ..definition@
                },
            ),
    {
        let mut d = definition;
        if is_empty_str(d.agent_id.as_str()) {
            d.agent_id = file_stem.to_owned();
        }
        self.put_agent(d);
    }

    /// Every stored API key, each once, in no particular order.
    pub fn list_api_keys(&self) -> (r: Vec<ApiKeyConfig>)
        ensures
            unique_keys(r@),
            keyed_map(r@) == self.api_keys(),
    {
        proof {
            use_type_invariant(self);
        }
        let mut r: Vec<ApiKeyConfig> = Vec::new();
        let mut i: usize = 0;
        while i < self.api_keys.len()
            invariant
                i <= self.api_keys.len(),
                r@ == self.api_keys@.take(i as int),
            decreases self.api_keys.len() - i,
        {
            r.push(self.api_keys[i].duplicate());
            assert(self.api_keys@.take(i + 1) =~= self.api_keys@.take(i as int).push(self.api_keys@[i as int]));
            i += 1;
        }
        assert(self.api_keys@.take(self.api_keys@.len() as int) =~= self.api_keys@);
        r
    }

    /// Some active API key, if any key is active.
    pub fn active_api_key(&self) -> (r: Option<ApiKeyConfig>)
        ensures
            match r {
                Some(k) => k.is_active && self.api_keys().contains_key(k.id@) && self.api_keys()[k.id@] == k,
                None => forall|id: Seq<char>| #[trigger] self.api_keys().contains_key(id) ==> !self.api_keys()[id].is_active,
            },
    {
        proof {
            use_type_invariant(self);
        }
        let mut i: usize = 0;
        while i < self.api_keys.len()
            invariant
                i <= self.api_keys.len(),
                unique_keys(self.api_keys@),
                forall|j: int| 0 <= j < i ==> !(#[trigger] self.api_keys@[j]).is_active,
            decreases self.api_keys.len() - i,
        {
            if self.api_keys[i].is_active {
                proof {
                    lemma_keyed_map_at(self.api_keys@, i as int);
                }
                return Some(self.api_keys[i].duplicate());
            }
            i += 1;
        }
        proof {
            assert forall|id: Seq<char>| #[trigger] self.api_keys().contains_key(id) implies !self.api_keys()[id].is_active by {
                lemma_keyed_map_has(self.api_keys@, id);
            }
        }
        None
    }

    /// The stored API key with the given id.
    pub fn get_api_key(&self, id: &str) -> (r: Option<ApiKeyConfig>)
        ensures
            match r {
                Some(k) => self.api_keys().contains_key(id@) && k == self.api_keys()[id@],
                None => !self.api_keys().contains_key(id@),
            },
    {
        proof {
            use_type_invariant(self);
        }
        match find_key(&self.api_keys, id) {
            Some(i) => {
                proof {
                    lemma_keyed_map_at(self.api_keys@, i as int);
                }
                Some(self.api_keys[i].duplicate())
            },
            None => None,
        }
    }

    /// Stores an API key, replacing one with the same id.
    pub fn save_api_key(&mut self, config: ApiKeyConfig)
        ensures
            final(self).api_keys() == old(self).api_keys().insert(config.id@, config),
            final(self).agents() == old(self).agents(),
            final(self).sessions() == old(self).sessions(),
    {
        proof {
            use_type_invariant(&*self);
        }
        let mut keys: Vec<ApiKeyConfig> = Vec::new();
        std::mem::swap(&mut keys, &mut self.api_keys);
        upsert(&mut keys, config);
        self.api_keys = keys;
    }

    /// Deletes the API key with the given id; refused when there is none.
    pub fn delete_api_key(&mut self, id: &str) -> (r: Result<(), AgentError>)
        ensures
            final(self).agents() == old(self).agents(),
            final(self).sessions() == old(self).sessions(),
            match r {
                Ok(()) => old(self).api_keys().contains_key(id@)
                    && final(self).api_keys() == old(self).api_keys().remove(id@),
                Err(e) => !old(self).api_keys().contains_key(id@)
                    && e == AgentError::ApiKeyNotFound(e->ApiKeyNotFound_0) && e->ApiKeyNotFound_0@ == id@
                    && final(self).api_keys() == old(self).api_keys(),
            },
    {
        proof {
            use_type_invariant(&*self);
        }
        let mut keys: Vec<ApiKeyConfig> = Vec::new();
        std::mem::swap(&mut keys, &mut self.api_keys);
        let removed = remove_key(&mut keys, id);
        self.api_keys = keys;
        match removed {
            Some(_) => Ok(()),
            None => Err(AgentError::ApiKeyNotFound(id.to_owned())),
        }
    }
}

/// The messages that run an agent on a prompt: its system prompt, then the
/// prompt as the user's message.
pub fn agent_messages(agent: &AgentDefinition, prompt: &str) -> (r: Vec<ChatMessage>)
    ensures
        r@.len() == 2,
        r@[0].role@ == "system"@ && r@[0].content@ == agent.system_prompt@ && r@[0].tool_calls is None,
        r@[1].role@ == "user"@ && r@[1].content@ == prompt@ && r@[1].tool_calls is None,
{
    let mut r: Vec<ChatMessage> = Vec::new();
    r.push(ChatMessage::system(agent.system_prompt.as_str()));
    r.push(ChatMessage::user(prompt));
    r
}

} // verus!
