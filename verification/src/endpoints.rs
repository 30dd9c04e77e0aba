//! What the agent API answers: each endpoint's reply as a value, or the HTTP
//! status it fails with. Transport and persistence are the caller's.

use vstd::prelude::*;
use crate::agents::{AgentDefinition, AgentView, AgentType, AgentsService, as_custom, registered,
    agent_map, texts};
use crate::ids::{new_id, now_rfc3339};
use crate::json::{Json, JsonValue, text_member};
use crate::models::{AgentResponse, ApiKeyConfig, ApiResult, CreateAgentRequest, CreateApiKeyRequest,
    ToolResponse, UpdateAgentRequest, UpdateApiKeyRequest, apply_key_update, new_api_key, or_else};
use crate::registry::{keyed_map, unique_keys};
use crate::text::{
    chars_of, string_of, push_str, str_eq, utf8_len, char_utf8_len, char_utf8_len_exec, starts_with,
};
use crate::tools::{DelegateToAgentTool, ListAvailableAgentsTool};

verus! {

/// The HTTP status of a missing resource.
pub const NOT_FOUND: u16 = 404;

/// The HTTP status of a failed operation.
pub const INTERNAL_SERVER_ERROR: u16 = 500;

/// The agent as the API shows it.
pub open spec fn shown(r: AgentResponse, a: AgentView) -> bool {
    &&& r.agent_id@ == a.agent_id
    &&& r.name@ == a.name
    &&& r.description@ == a.description
    &&& r.when_to_use@ == a.when_to_use
    &&& texts(r.tools@) == a.tools
    &&& r.model@ == a.model
    &&& r.source@ == a.source
    &&& r.is_orchestrator == a.is_orchestrator
}

/// The agent as the API shows it.
pub fn agent_response(a: &AgentDefinition) -> (r: AgentResponse)
    ensures
        shown(r, a@),
{
    AgentResponse {
        agent_id: a.agent_id.clone(),
        name: a.name.clone(),
        description: a.description.clone(),
        when_to_use: a.when_to_use.clone(),
        tools: crate::agents::copy_texts(&a.tools),
        model: a.model.clone(),
        source: a.source.clone(),
        is_orchestrator: a.is_orchestrator,
    }
}

/// Every agent as the API shows it, in no particular order.
pub fn list_agents(agents: &AgentsService) -> (r: ApiResult<Vec<AgentResponse>>)
    ensures
        r.success && r.error is None && r.data is Some,
        exists|s: Seq<AgentDefinition>| {
            &&& unique_keys(s)
            &&& #[trigger] agent_map(s) == agents.agents()
            &&& s.len() == r.data->0@.len()
            &&& forall|i: int| 0 <= i < s.len() ==> shown(#[trigger] r.data->0@[i], s[i]@)
        },
{
    let list = agents.list_agents();
    let mut out: Vec<AgentResponse> = Vec::new();
    let mut i: usize = 0;
    while i < list.len()
        invariant
            i <= list.len(),
            out@.len() == i,
            forall|j: int| 0 <= j < i ==> shown(#[trigger] out@[j], list@[j]@),
        decreases list.len() - i,
    {
        out.push(agent_response(&list[i]));
        i += 1;
    }
    assert(agent_map(list@) == agents.agents());
    ApiResult::ok(out)
}

/// The agent with the given id as the API shows it; 404 when there is none.
pub fn get_agent(agents: &AgentsService, id: &str) -> (r: Result<ApiResult<AgentResponse>, u16>)
    ensures
        match r {
            Ok(res) => agents.agents().contains_key(id@) && res.success && res.data is Some
                && shown(res.data->0, agents.agents()[id@]),
            Err(code) => !agents.agents().contains_key(id@) && code == NOT_FOUND,
        },
{
    match agents.get_agent_by_id(id) {
        Some(a) => Ok(ApiResult::ok(agent_response(&a))),
        None => Err(NOT_FOUND),
    }
}

/// The custom agent a creation request describes: no id yet, source and
/// base directory `custom`.
pub open spec fn requested_agent(req: CreateAgentRequest) -> AgentView {
    AgentView {
        agent_id: Seq::empty(),
        agent_type: AgentType::Custom,
        name: req.name@,
        description: req.description@,
        when_to_use: req.when_to_use@,
        tools: texts(req.tools@),
        model: req.model@,
        system_prompt: req.system_prompt@,
        source: "custom"@,
        base_dir: "custom"@,
        is_orchestrator: false,
    }
}

/// The requested agent under the id `id`.
pub open spec fn requested_with_id(req: CreateAgentRequest, id: Seq<char>) -> AgentView {
    AgentView { agent_id: id, ..requested_agent(req) }
}

/// Creates a custom agent under a fresh id `custom-...` and answers with the
/// created agent, its id included.
pub fn create_agent(agents: &mut AgentsService, req: CreateAgentRequest) -> (r: Result<ApiResult<AgentResponse>, u16>)
    ensures
        final(agents).sessions() == old(agents).sessions(),
        final(agents).api_keys() == old(agents).api_keys(),
        r is Ok,
        r->Ok_0.success && r->Ok_0.data is Some,
        starts_with(r->Ok_0.data->0.agent_id@, "custom-"@),
        registered(old(agents).agents(), final(agents).agents(),
            requested_with_id(req, r->Ok_0.data->0.agent_id@), r->Ok_0.data->0.agent_id@),
        final(agents).agents().contains_key(r->Ok_0.data->0.agent_id@),
        shown(r->Ok_0.data->0, requested_with_id(req, r->Ok_0.data->0.agent_id@)),
{
    let mut idv = chars_of("custom-");
    let fresh = new_id();
    push_str(&mut idv, fresh.as_str());
    proof {
        reveal_strlit("custom-");
        assert(idv@.subrange(0, 7) =~= "custom-"@);
    }
    let id = string_of(&idv);
    assert(starts_with(id@, "custom-"@));
    let definition = AgentDefinition {
        agent_id: id.clone(),
        agent_type: AgentType::Custom,
        name: req.name.clone(),
        description: req.description.clone(),
        when_to_use: req.when_to_use.clone(),
        tools: crate::agents::copy_texts(&req.tools),
        model: req.model.clone(),
        system_prompt: req.system_prompt.clone(),
        source: String::from_str("custom"),
        base_dir: String::from_str("custom"),
        is_orchestrator: false,
    };
    assert(definition@ == requested_with_id(req, id@));
    let _ = agents.register_custom_agent(definition);
    let shown_agent = AgentResponse {
        agent_id: id,
        name: req.name,
        description: req.description,
        when_to_use: req.when_to_use,
        tools: req.tools,
        model: req.model,
        source: String::from_str("custom"),
        is_orchestrator: false,
    };
    Ok(ApiResult::ok(shown_agent))
}

/// The agent after an update request: each given field replaces the old
/// one; the id is the addressed one, the kind custom, the source `custom`.
pub open spec fn updated_agent(id: Seq<char>, existing: AgentView, req: UpdateAgentRequest) -> AgentView {
    AgentView {
        agent_id: id,
        agent_type: AgentType::Custom,
        name: match req.name { Some(x) => x@, None => existing.name },
        description: match req.description { Some(x) => x@, None => existing.description },
        when_to_use: match req.when_to_use { Some(x) => x@, None => existing.when_to_use },
        tools: match req.tools { Some(x) => texts(x@), None => existing.tools },
        model: match req.model { Some(x) => x@, None => existing.model },
        system_prompt: match req.system_prompt { Some(x) => x@, None => existing.system_prompt },
        source: "custom"@,
        base_dir: existing.base_dir,
        is_orchestrator: false,
    }
}

fn text_or_existing(v: Option<String>, existing: String) -> (r: String)
    ensures
        r@ == match v { Some(x) => x@, None => existing@ },
{
    match v {
        Some(x) => x,
        None => existing,
    }
}

/// Updates a custom agent: 404 for an unknown id; a failed reply for a
/// built-in agent, which is left as it is.
pub fn update_agent(agents: &mut AgentsService, id: &str, req: UpdateAgentRequest) -> (r: Result<ApiResult<String>, u16>)
    ensures
        final(agents).sessions() == old(agents).sessions(),
        final(agents).api_keys() == old(agents).api_keys(),
        !old(agents).agents().contains_key(id@) ==> r == Err::<ApiResult<String>, u16>(NOT_FOUND)
            && final(agents).agents() == old(agents).agents(),
        old(agents).agents().contains_key(id@) && old(agents).agents()[id@].source == "built-in"@ ==> {
            &&& r is Ok && !r->Ok_0.success && r->Ok_0.error is Some
            &&& r->Ok_0.error->0@ == "Cannot modify built-in agent"@
            &&& final(agents).agents() == old(agents).agents()
        },
        old(agents).agents().contains_key(id@) && old(agents).agents()[id@].source != "built-in"@ ==> {
            &&& r is Ok && r->Ok_0.success && r->Ok_0.data is Some
            &&& r->Ok_0.data->0@ == "Agent "@ + id@ + " updated"@
            &&& final(agents).agents() == old(agents).agents().insert(id@,
                updated_agent(id@, old(agents).agents()[id@], req))
        },
{
    let existing = match agents.get_agent_by_id(id) {
        Some(a) => a,
        None => {
            return Err(NOT_FOUND);
        },
    };
    if str_eq(existing.source.as_str(), "built-in") {
        return Ok(ApiResult::err("Cannot modify built-in agent"));
    }
    let ghost ev = existing@;
    let ghost rq = req;
    let updated = AgentDefinition {
        agent_id: id.to_owned(),
        agent_type: AgentType::Custom,
        name: text_or_existing(req.name, existing.name),
        description: text_or_existing(req.description, existing.description),
        when_to_use: text_or_existing(req.when_to_use, existing.when_to_use),
        tools: match req.tools {
            Some(t) => t,
            None => existing.tools,
        },
        model: text_or_existing(req.model, existing.model),
        system_prompt: text_or_existing(req.system_prompt, existing.system_prompt),
        source: String::from_str("custom"),
        base_dir: existing.base_dir,
        is_orchestrator: false,
    };
    assert(updated@ == updated_agent(id@, ev, rq));
    assert(as_custom(updated@, id@) == updated_agent(id@, ev, rq));
    match agents.update_custom_agent(id, updated) {
        Ok(()) => {
            let mut m = chars_of("Agent ");
            push_str(&mut m, id);
            push_str(&mut m, " updated");
            Ok(ApiResult::ok(string_of(&m)))
        },
        Err(_) => Err(INTERNAL_SERVER_ERROR),
    }
}

/// Deletes a custom agent: a failed reply for a built-in agent; 500 for an
/// unknown id.
pub fn delete_agent(agents: &mut AgentsService, id: &str) -> (r: Result<ApiResult<String>, u16>)
    ensures
        final(agents).sessions() == old(agents).sessions(),
        final(agents).api_keys() == old(agents).api_keys(),
        !old(agents).agents().contains_key(id@) ==> r == Err::<ApiResult<String>, u16>(INTERNAL_SERVER_ERROR)
            && final(agents).agents() == old(agents).agents(),
        old(agents).agents().contains_key(id@) && old(agents).agents()[id@].source == "built-in"@ ==> {
            &&& r is Ok && !r->Ok_0.success && r->Ok_0.error is Some
            &&& r->Ok_0.error->0@ == "Cannot delete built-in agent"@
            &&& final(agents).agents() == old(agents).agents()
        },
        old(agents).agents().contains_key(id@) && old(agents).agents()[id@].source != "built-in"@ ==> {
            &&& r is Ok && r->Ok_0.success && r->Ok_0.data is Some
            &&& r->Ok_0.data->0@ == "Agent "@ + id@ + " deleted"@
            &&& final(agents).agents() == old(agents).agents().remove(id@)
        },
{
    if let Some(a) = agents.get_agent_by_id(id) {
        if str_eq(a.source.as_str(), "built-in") {
            return Ok(ApiResult::err("Cannot delete built-in agent"));
        }
    }
    match agents.delete_custom_agent(id) {
        Ok(()) => {
            let mut m = chars_of("Agent ");
            push_str(&mut m, id);
            push_str(&mut m, " deleted");
            Ok(ApiResult::ok(string_of(&m)))
        },
        Err(_) => Err(INTERNAL_SERVER_ERROR),
    }
}

/// Deletes a session: it is marked failed, if there is one, and the reply
/// always succeeds.
pub fn delete_session(agents: &mut AgentsService, id: &str) -> (r: Result<ApiResult<String>, u16>)
    ensures
        final(agents).agents() == old(agents).agents(),
        final(agents).api_keys() == old(agents).api_keys(),
        old(agents).sessions().contains_key(id@) ==> {
            &&& final(agents).sessions().contains_key(id@)
            &&& crate::agents::cancelled(old(agents).sessions()[id@], final(agents).sessions()[id@])
            &&& final(agents).sessions() == old(agents).sessions().insert(id@, final(agents).sessions()[id@])
        },
        !old(agents).sessions().contains_key(id@) ==> final(agents).sessions() == old(agents).sessions(),
        r is Ok && r->Ok_0.success && r->Ok_0.data is Some,
        r->Ok_0.data->0@ == "Session "@ + id@ + " deleted"@,
{
    let _ = agents.cancel_session(id);
    let mut m = chars_of("Session ");
    push_str(&mut m, id);
    push_str(&mut m, " deleted");
    Ok(ApiResult::ok(string_of(&m)))
}

/// The title of a new session: the requested one, else `New Chat`.
pub fn new_session_title(title: Option<String>) -> (r: String)
    ensures
        r@ == match title { Some(t) => t@, None => "New Chat"@ },
{
    match title {
        Some(t) => t,
        None => String::from_str("New Chat"),
    }
}

/// The number of characters of `s` whose UTF-8 form is `n` bytes long, if
/// `n` falls between characters.
pub open spec fn chars_in_bytes(s: Seq<char>, n: nat) -> Option<nat> {
    if exists|k: nat| k <= s.len() && utf8_len(s.take(k as int)) == n {
        Some(choose|k: nat| k <= s.len() && utf8_len(s.take(k as int)) == n)
    } else {
        None
    }
}

proof fn lemma_utf8_prefix_grows(s: Seq<char>, k: int)
    requires
        0 <= k < s.len(),
    ensures
        utf8_len(s.take(k + 1)) == utf8_len(s.take(k)) + char_utf8_len(s[k]),
        char_utf8_len(s[k]) >= 1,
{
    assert(s.take(k + 1).drop_last() =~= s.take(k));
    assert(char_utf8_len(s[k]) >= 1);
}

proof fn lemma_utf8_prefix_strict(s: Seq<char>, a: int, b: int)
    requires
        0 <= a < b <= s.len(),
    ensures
        utf8_len(s.take(a)) < utf8_len(s.take(b)),
    decreases b - a,
{
    lemma_utf8_prefix_grows(s, b - 1);
    if a < b - 1 {
        lemma_utf8_prefix_strict(s, a, b - 1);
    }
}

/// The title of a listed session: `Session ` and the first eight bytes of
/// its id.
pub fn session_title(id: &str) -> (r: String)
    requires
        chars_in_bytes(id@, 8) is Some,
    ensures
        r@ == "Session "@ + id@.take(chars_in_bytes(id@, 8)->0 as int),
{
    let cs = chars_of(id);
    let mut k: usize = 0;
    let mut bytes: usize = 0;
    let ghost target = chars_in_bytes(id@, 8)->0;
    proof {
        assert(cs@.take(0) =~= Seq::<char>::empty());
        let w = choose|w: nat| w <= id@.len() && utf8_len(id@.take(w as int)) == 8;
        assert(w == target);
    }
    while bytes < 8
        invariant
            k <= cs@.len(),
            cs@ == id@,
            bytes == utf8_len(id@.take(k as int)),
            bytes <= 8,
            target <= id@.len(),
            utf8_len(id@.take(target as int)) == 8,
            k <= target,
        decreases 8 - bytes,
    {
        proof {
            if k == target {
                assert(false);
            }
            lemma_utf8_prefix_grows(id@, k as int);
            if k + 1 < target {
                lemma_utf8_prefix_strict(id@, k + 1, target as int);
            }
        }
        let w = char_utf8_len_exec(cs[k]);
        bytes = bytes + w;
        k = k + 1;
    }
    proof {
        if k < target {
            lemma_utf8_prefix_strict(id@, k as int, target as int);
        }
    }
    let mut out = chars_of("Session ");
    let head = crate::text::prefix(&cs, k);
    crate::text::push_all(&mut out, &head);
    string_of(&out)
}

/// The tools the orchestrator is given, as the API shows them.
pub fn list_tools() -> (r: ApiResult<Vec<ToolResponse>>)
    ensures
        r.success && r.data is Some && r.data->0@.len() == 2,
        r.data->0@[0].name@ == "delegate_to_agent"@,
        r.data->0@[1].name@ == "list_available_agents"@,
{
    let mut v: Vec<ToolResponse> = Vec::new();
    v.push(ToolResponse {
        name: DelegateToAgentTool::name().to_owned(),
        description: DelegateToAgentTool::description().to_owned(),
    });
    v.push(ToolResponse {
        name: ListAvailableAgentsTool::name().to_owned(),
        description: ListAvailableAgentsTool::description().to_owned(),
    });
    ApiResult::ok(v)
}

/// The health report: healthy, with the service's name and the time.
pub fn health_check() -> (r: ApiResult<JsonValue>)
    ensures
        r.success && r.data is Some,
        exists|t: Seq<char>| #[trigger] r.data->0@ == Json::Object(seq![
            ("status"@, Json::Str("healthy"@)),
            ("service"@, Json::Str("agent-api"@)),
            ("timestamp"@, Json::Str(t)),
        ]),
{
    let now = now_rfc3339();
    let mut m: Vec<(String, JsonValue)> = Vec::new();
    m.push(text_member("status", "healthy"));
    m.push(text_member("service", "agent-api"));
    m.push(text_member("timestamp", now.as_str()));
    proof {
        crate::json::lemma_member_views(m@);
    }
    let v = JsonValue::Object(m);
    assert(v@->Object_0 =~= seq![
        ("status"@, Json::Str("healthy"@)),
        ("service"@, Json::Str("agent-api"@)),
        ("timestamp"@, Json::Str(now@)),
    ]);
    ApiResult::ok(v)
}

/// Every stored API key.
pub fn list_api_keys(agents: &AgentsService) -> (r: ApiResult<Vec<ApiKeyConfig>>)
    ensures
        r.success && r.data is Some,
        unique_keys(r.data->0@),
        keyed_map(r.data->0@) == agents.api_keys(),
{
    ApiResult::ok(agents.list_api_keys())
}

/// The stored API key with the given id; 404 when there is none.
pub fn get_api_key(agents: &AgentsService, id: &str) -> (r: Result<ApiResult<ApiKeyConfig>, u16>)
    ensures
        match r {
            Ok(res) => agents.api_keys().contains_key(id@) && res.success
                && res.data == Some(agents.api_keys()[id@]),
            Err(code) => !agents.api_keys().contains_key(id@) && code == NOT_FOUND,
        },
{
    match agents.get_api_key(id) {
        Some(k) => Ok(ApiResult::ok(k)),
        None => Err(NOT_FOUND),
    }
}

/// Stores a new API key: active, with a fresh id, created and updated now.
pub fn create_api_key(agents: &mut AgentsService, req: CreateApiKeyRequest) -> (r: ApiResult<ApiKeyConfig>)
    ensures
        r.success && r.data is Some,
        r.data->0.name == req.name && r.data->0.api_key == req.api_key,
        r.data->0.base_url == req.base_url && r.data->0.default_model == req.default_model,
        r.data->0.is_active && r.data->0.created_at == r.data->0.updated_at,
        final(agents).api_keys() == old(agents).api_keys().insert(r.data->0.id@, r.data->0),
        final(agents).agents() == old(agents).agents(),
        final(agents).sessions() == old(agents).sessions(),
{
    let id = new_id();
    let now = now_rfc3339();
    let key = new_api_key(req, id, now);
    agents.save_api_key(key.duplicate());
    ApiResult::ok(key)
}

/// Changes a stored API key (see `apply_key_update`); 404 when there is none.
pub fn update_api_key(agents: &mut AgentsService, id: &str, req: UpdateApiKeyRequest) -> (r: Result<ApiResult<ApiKeyConfig>, u16>)
    ensures
        final(agents).agents() == old(agents).agents(),
        final(agents).sessions() == old(agents).sessions(),
        match r {
            Ok(res) => {
                let k = res.data->0;
                let e = old(agents).api_keys()[id@];
                &&& old(agents).api_keys().contains_key(id@)
                &&& res.success && res.data is Some
                &&& k.id == e.id && k.created_at == e.created_at
                &&& k.name == or_else(req.name, e.name)
                &&& k.api_key == or_else(req.api_key, e.api_key)
                &&& k.base_url == or_else(req.base_url, e.base_url)
                &&& k.default_model == or_else(req.default_model, e.default_model)
                &&& k.is_active == or_else(req.is_active, e.is_active)
                &&& final(agents).api_keys() == old(agents).api_keys().insert(k.id@, k)
            },
            Err(code) => !old(agents).api_keys().contains_key(id@) && code == NOT_FOUND
                && final(agents).api_keys() == old(agents).api_keys(),
        },
{
    let existing = match agents.get_api_key(id) {
        Some(k) => k,
        None => {
            return Err(NOT_FOUND);
        },
    };
    let now = now_rfc3339();
    let k = apply_key_update(existing, req, now);
    agents.save_api_key(k.duplicate());
    Ok(ApiResult::ok(k))
}

/// Deletes a stored API key; 404 when there is none.
pub fn delete_api_key(agents: &mut AgentsService, id: &str) -> (r: Result<ApiResult<String>, u16>)
    ensures
        final(agents).agents() == old(agents).agents(),
        final(agents).sessions() == old(agents).sessions(),
        match r {
            Ok(res) => old(agents).api_keys().contains_key(id@)
                && final(agents).api_keys() == old(agents).api_keys().remove(id@)
                && res.success && res.data is Some && res.data->0@ == "API Key "@ + id@ + " deleted"@,
            Err(code) => !old(agents).api_keys().contains_key(id@) && code == NOT_FOUND
                && final(agents).api_keys() == old(agents).api_keys(),
        },
{
    match agents.delete_api_key(id) {
        Ok(()) => {
            let mut m = chars_of("API Key ");
            push_str(&mut m, id);
            push_str(&mut m, " deleted");
            Ok(ApiResult::ok(string_of(&m)))
        },
        Err(_) => Err(NOT_FOUND),
    }
}

} // verus!
