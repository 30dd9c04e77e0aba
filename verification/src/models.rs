//! The records exchanged with the browser: blocks of rich messages, event
//! payloads, and the requests and replies of the agent API.

use vstd::prelude::*;
use crate::json::JsonValue;

verus! {

/// A run of rich text.
#[derive(Debug, Clone)]
pub struct RichTextNode {
    pub node_type: String,
    pub content: String,
    pub url: Option<String>,
    pub style: Option<String>,
}

/// One step of a task shown with its progress.
#[derive(Debug, Clone)]
pub struct TaskStep {
    pub label: String,
    pub status: String,
    pub detail: Option<String>,
}

/// What a link asks the client to do.
#[derive(Debug)]
pub struct ActionPayload {
    pub action_type: String,
    pub url: Option<String>,
    pub data: Option<JsonValue>,
}

/// A reply the user can pick with one tap.
#[derive(Debug, Clone)]
pub struct QuickReply {
    pub label: String,
    pub value: String,
    pub icon: Option<String>,
}

/// The state of a delegated task.
#[derive(Debug, Clone, Copy, PartialEq, Eq, Structural)]
pub enum DelegationStatus {
    Pending,
    Running,
    Completed,
    Failed,
}

/// The lower-case name a status is written with.
pub open spec fn delegation_status_name(s: DelegationStatus) -> Seq<char> {
    match s {
        DelegationStatus::Pending => "pending"@,
        DelegationStatus::Running => "running"@,
        DelegationStatus::Completed => "completed"@,
        DelegationStatus::Failed => "failed"@,
    }
}

impl DelegationStatus {
    /// The lower-case name the status is written with.
    pub fn as_str(&self) -> (r: &'static str)
        ensures
            r@ == delegation_status_name(*self),
    {
        match self {
            DelegationStatus::Pending => "pending",
            DelegationStatus::Running => "running",
            DelegationStatus::Completed => "completed",
            DelegationStatus::Failed => "failed",
        }
    }
}

/// Payload of a `text` event.
#[derive(Debug, Clone)]
pub struct TextEventData {
    pub content: String,
}

/// Payload of a `task_progress` event.
#[derive(Debug, Clone)]
pub struct TaskProgressData {
    pub steps: Vec<TaskStep>,
    pub collapsed: bool,
}

/// Payload of a `table` event.
#[derive(Debug, Clone)]
pub struct TableEventData {
    pub headers: Vec<String>,
    pub rows: Vec<Vec<String>>,
    pub title: Option<String>,
}

/// Payload of a `chart` event.
#[derive(Debug)]
pub struct ChartEventData {
    pub chart_type: String,
    pub data: JsonValue,
    pub title: Option<String>,
}

/// Payload of an `action_link` event.
#[derive(Debug)]
pub struct ActionLinkData {
    pub label: String,
    pub icon: Option<String>,
    pub action: ActionPayload,
}

/// Payload of an `image` event.
#[derive(Debug, Clone)]
pub struct ImageEventData {
    pub url: String,
    pub alt: Option<String>,
}

/// Payload of a `quick_replies` event.
#[derive(Debug, Clone)]
pub struct QuickRepliesData {
    pub options: Vec<QuickReply>,
}

/// Payload of a `navigate` event.
#[derive(Debug)]
pub struct NavigateEventData {
    pub target: String,
    pub params: Option<JsonValue>,
    pub label: Option<String>,
}

/// Payload of a `native_call` event.
#[derive(Debug)]
pub struct NativeCallEventData {
    pub action: String,
    pub method: String,
    pub params: Option<JsonValue>,
    pub callback_id: Option<String>,
    pub auto_execute: Option<bool>,
    pub label: Option<String>,
}

/// Payload of an `agent_tag` event.
#[derive(Debug, Clone)]
pub struct AgentTagData {
    pub agent_id: String,
    pub agent_name: String,
}

/// Payload of a `delegation` event.
#[derive(Debug, Clone)]
pub struct DelegationEventData {
    pub target_agent_id: String,
    pub target_agent_name: String,
    pub task: String,
    pub status: DelegationStatus,
}

/// Payload of a `delegation_result` event.
#[derive(Debug, Clone)]
pub struct DelegationResultData {
    pub agent_id: String,
    pub agent_name: String,
    pub task: String,
    pub result: String,
    pub success: bool,
}

/// Payload of the `tool_call_start` and `tool_call_end` events.
#[derive(Debug)]
pub struct ToolCallData {
    pub tool_name: String,
    pub input: Option<JsonValue>,
    pub output: Option<String>,
}

/// Payload of an `error` event.
#[derive(Debug, Clone)]
pub struct ErrorEventData {
    pub message: String,
    pub code: Option<String>,
}

/// A chat request: the agent addressed, the message and the session.
#[derive(Debug, Clone)]
pub struct ChatRequest {
    pub agent_id: String,
    pub message: String,
    pub session_id: Option<String>,
}

/// The agent a request addresses when it names none: the orchestrator.
pub fn default_agent_id() -> (r: String)
    ensures
        r@ == "builtin-orchestrator"@,
{
    String::from_str("builtin-orchestrator")
}

/// A request to open a session.
#[derive(Debug, Clone)]
pub struct CreateSessionRequest {
    pub agent_id: String,
    pub title: Option<String>,
}

/// A request to create a custom agent.
#[derive(Debug, Clone)]
pub struct CreateAgentRequest {
    pub name: String,
    pub description: String,
    pub when_to_use: String,
    pub tools: Vec<String>,
    pub model: String,
    pub system_prompt: String,
}

/// The model a new agent uses when the request names none.
pub fn default_model() -> (r: String)
    ensures
        r@ == "sonnet"@,
{
    String::from_str("sonnet")
}

/// A request to change a custom agent; absent fields are left as they are.
#[derive(Debug, Clone)]
pub struct UpdateAgentRequest {
    pub name: Option<String>,
    pub description: Option<String>,
    pub when_to_use: Option<String>,
    pub tools: Option<Vec<String>>,
    pub model: Option<String>,
    pub system_prompt: Option<String>,
}

/// An agent as the API shows it.
#[derive(Debug, Clone)]
pub struct AgentResponse {
    pub agent_id: String,
    pub name: String,
    pub description: String,
    pub when_to_use: String,
    pub tools: Vec<String>,
    pub model: String,
    pub source: String,
    pub is_orchestrator: bool,
}

/// A tool as the API shows it.
#[derive(Debug, Clone)]
pub struct ToolResponse {
    pub name: String,
    pub description: String,
}

/// The envelope of every API reply.
#[derive(Debug, Clone)]
pub struct ApiResult<T> {
    pub success: bool,
    pub data: Option<T>,
    pub error: Option<String>,
}

impl<T> ApiResult<T> {
    /// A successful reply carrying `data`.
    pub fn ok(data: T) -> (r: Self)
        ensures
            r.success,
            r.data == Some(data),
            r.error is None,
    {
        ApiResult { success: true, data: Some(data), error: None }
    }

    /// A failed reply carrying an error message.
    pub fn err(msg: &str) -> (r: Self)
        ensures
            !r.success,
            r.data is None,
            r.error is Some && r.error->0@ == msg@,
    {
        ApiResult { success: false, data: None, error: Some(msg.to_owned()) }
    }
}

/// The result of a native call, sent back by the client.
#[derive(Debug)]
pub struct NativeCallbackRequest {
    pub callback_id: String,
    pub session_id: String,
    pub result: JsonValue,
    pub success: bool,
}

/// The acknowledgement of a native callback.
#[derive(Debug, Clone)]
pub struct NativeCallbackResponse {
    pub received: bool,
    pub callback_id: String,
}

/// The acknowledgement of a native callback: received, with its id.
pub fn acknowledge_callback(req: &NativeCallbackRequest) -> (r: NativeCallbackResponse)
    ensures
        r.received,
        r.callback_id@ == req.callback_id@,
{
    NativeCallbackResponse { received: true, callback_id: req.callback_id.clone() }
}

/// A stored API key with the endpoint and model it is used with.
#[derive(Debug, Clone)]
pub struct ApiKeyConfig {
    pub id: String,
    pub name: String,
    pub api_key: String,
    pub base_url: String,
    pub default_model: String,
    pub is_active: bool,
    pub created_at: String,
    pub updated_at: String,
}

/// A request to store a new API key.
#[derive(Debug, Clone)]
pub struct CreateApiKeyRequest {
    pub name: String,
    pub api_key: String,
    pub base_url: String,
    pub default_model: String,
}

/// A request to change a stored API key; absent fields are left as they are.
#[derive(Debug, Clone)]
pub struct UpdateApiKeyRequest {
    pub name: Option<String>,
    pub api_key: Option<String>,
    pub base_url: Option<String>,
    pub default_model: Option<String>,
    pub is_active: Option<bool>,
}

impl ApiKeyConfig {
    /// A field-by-field copy.
    pub fn duplicate(&self) -> (r: Self)
        ensures
            r == *self,
    {
        ApiKeyConfig {
            id: self.id.clone(),
            name: self.name.clone(),
            api_key: self.api_key.clone(),
            base_url: self.base_url.clone(),
            default_model: self.default_model.clone(),
            is_active: self.is_active,
            created_at: self.created_at.clone(),
            updated_at: self.updated_at.clone(),
        }
    }
}

impl crate::registry::Keyed for ApiKeyConfig {
    open spec fn key(&self) -> Seq<char> {
        self.id@
    }

    fn key_str(&self) -> (r: &str) {
        self.id.as_str()
    }
}

/// `v` when given, else `d`.
pub open spec fn or_else<T>(v: Option<T>, d: T) -> T {
    match v {
        Some(x) => x,
        None => d,
    }
}

/// A new API key from a request: active, with a fresh id, created and
/// updated at `now`.
pub fn new_api_key(req: CreateApiKeyRequest, id: String, now: String) -> (k: ApiKeyConfig)
    ensures
        k.id == id,
        k.name == req.name,
        k.api_key == req.api_key,
        k.base_url == req.base_url,
        k.default_model == req.default_model,
        k.is_active,
        k.created_at == now,
        k.updated_at == now,
{
    let created = now.clone();
    ApiKeyConfig {
        id,
        name: req.name,
        api_key: req.api_key,
        base_url: req.base_url,
        default_model: req.default_model,
        is_active: true,
        created_at: created,
        updated_at: now,
    }
}

/// A stored key changed by a request: each given field replaces the old one,
/// and the key is marked updated at `now`.
pub fn apply_key_update(existing: ApiKeyConfig, req: UpdateApiKeyRequest, now: String) -> (k: ApiKeyConfig)
    ensures
        k.id == existing.id,
        k.name == or_else(req.name, existing.name),
        k.api_key == or_else(req.api_key, existing.api_key),
        k.base_url == or_else(req.base_url, existing.base_url),
        k.default_model == or_else(req.default_model, existing.default_model),
        k.is_active == or_else(req.is_active, existing.is_active),
        k.created_at == existing.created_at,
        k.updated_at == now,
{
    let mut k = existing;
    if let Some(name) = req.name {
        k.name = name;
    }
    if let Some(api_key) = req.api_key {
        k.api_key = api_key;
    }
    if let Some(base_url) = req.base_url {
        k.base_url = base_url;
    }
    if let Some(default_model) = req.default_model {
        k.default_model = default_model;
    }
    if let Some(is_active) = req.is_active {
        k.is_active = is_active;
    }
    k.updated_at = now;
    k
}

} // verus!
