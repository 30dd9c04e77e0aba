//! One chat turn as a state machine. Each step takes what the outside work
//! brought (a model reply, search results, the prepared history, a piece of
//! the stream) and returns the actions to perform next: events for the
//! browser, and at most one piece of outside work.

use vstd::prelude::*;
use crate::agents::{AgentDefinition, AgentView, AgentsService};
use crate::api::ChatMessage;
use crate::chat::{
    agent_tag_event, answer_messages, answer_prompt, answer_system_prompt, delegation_event, done_event,
    drain, drain_lines, error_event, hit_count, count_hits, is_answer_request, is_delegation_event,
    is_done_event, is_error_event, is_question, is_search_end_event, is_search_start_event, is_tag_event,
    is_text_event, prompt_messages, readable_reply, resolve_target, route_of, routed_agent_id, routed_id,
    search_end_event, search_queries, search_start_event, text_event, chat_route, ChatEvent, ChatRoute,
    GENERAL_PURPOSE_ID,
};
use crate::context::ContextEntry;
use crate::orchestrator::{intent_prompt, agent_views, reply_braces_in_order, OrchestratorService};
use crate::registry::unique_keys;
use crate::agents::{agent_map, without_orchestrators};
use crate::text::{chars_of, string_of, push_str};
use crate::web_search::{
    SearchIntent, WebSearchResponse, WebSearchService, SEARCH_INTENT_PROMPT, search_context,
};

verus! {

/// What the turn waits for.
#[derive(Debug, Clone, Copy, PartialEq, Eq, Structural)]
pub enum ChatPhase {
    /// The reply of the model to the intent question.
    AwaitIntent,
    /// The reply of the model to the search-intent question.
    AwaitSearchIntent,
    /// The results of the web searches.
    AwaitSearch,
    /// The history, snipped and compacted.
    AwaitHistory,
    /// Whether the reply stream opened.
    AwaitStream,
    /// The pieces of the reply stream.
    Streaming,
    /// Nothing: the turn is over.
    Finished,
}

/// What the caller does next.
#[derive(Debug)]
pub enum ChatAction {
    /// Send an event to the browser.
    Emit(ChatEvent),
    /// Ask the model these messages and hand back the text of its reply.
    AskModel(Vec<ChatMessage>),
    /// Search the web for these queries and hand back the results.
    Search(Vec<String>),
    /// Read the session's history, snip and compact it, and hand it back.
    PrepareHistory,
    /// Open the reply stream for these messages.
    OpenStream(Vec<ChatMessage>),
    /// Add the reply to the session's history as the assistant's message.
    SaveReply(String),
    /// The turn is over.
    Finish,
}

/// The state of a chat turn.
pub struct ChatTurn {
    route: ChatRoute,
    phase: ChatPhase,
    message: String,
    target: AgentDefinition,
    search_context: Option<String>,
    full_response: String,
    buffer: String,
}

/// The concatenation of a list of texts.
pub open spec fn concat(s: Seq<Seq<char>>) -> Seq<char>
    decreases s.len(),
{
    if s.len() == 0 {
        Seq::empty()
    } else {
        concat(s.drop_last()) + s.last()
    }
}

/// `a` is the action of emitting an event that meets `p`.
pub open spec fn emits(a: ChatAction, p: spec_fn(ChatEvent) -> bool) -> bool {
    a matches ChatAction::Emit(e) && p(e)
}

/// `a` asks the model a one-shot question.
pub open spec fn asks(a: ChatAction, system_prompt: Seq<char>, message: Seq<char>) -> bool {
    match a {
        ChatAction::AskModel(m) => is_question(m@, system_prompt, message),
        _ => false,
    }
}

/// `a` opens the reply stream with the system prompt and the history.
pub open spec fn opens(a: ChatAction, system_prompt: Seq<char>, history: Seq<ContextEntry>) -> bool {
    match a {
        ChatAction::OpenStream(m) => is_answer_request(m@, system_prompt, history),
        _ => false,
    }
}

/// `a` searches for the queries.
pub open spec fn searches(a: ChatAction, queries: Seq<String>) -> bool {
    match a {
        ChatAction::Search(q) => q@ == queries,
        _ => false,
    }
}

/// `a` saves the reply.
pub open spec fn saves(a: ChatAction, reply: Seq<char>) -> bool {
    match a {
        ChatAction::SaveReply(r) => r@ == reply,
        _ => false,
    }
}

/// The prefix of the error message when the reply stream did not open.
pub open spec fn open_failure_prefix(route: ChatRoute) -> Seq<char> {
    if route == ChatRoute::Orchestrated {
        "Failed to start delegation stream: "@
    } else {
        "Failed to start stream: "@
    }
}

/// The actions that end a stream: save a non-empty reply, report the
/// delegation completed (orchestrated turns), send `done`, finish.
pub open spec fn ending(acts: Seq<ChatAction>, route: ChatRoute, target: AgentView, message: Seq<char>, reply: Seq<char>) -> bool {
    let save = if reply.len() > 0 { 1int } else { 0int };
    let deleg = if route == ChatRoute::Orchestrated { 1int } else { 0int };
    &&& acts.len() == save + deleg + 2
    &&& reply.len() > 0 ==> saves(acts[0], reply)
    &&& route == ChatRoute::Orchestrated ==> emits(acts[save], |e: ChatEvent| is_delegation_event(e, target, message, "completed"@))
    &&& emits(acts[save + deleg], |e: ChatEvent| is_done_event(e))
    &&& acts[save + deleg + 1] is Finish
}

/// What `on_intent_reply` does to the turn `o`, giving `n` and the actions `r`.
pub open spec fn intent_reply_done(
    o: ChatTurn,
    n: ChatTurn,
    agents: AgentsService,
    reply: Option<Seq<char>>,
    r: Seq<ChatAction>,
) -> bool {
    let id = routed_id(reply);
    &&& n.target() == if agents.agents().contains_key(id) {
        agents.agents()[id]
    } else {
        agents.agents()[GENERAL_PURPOSE_ID@]
    }
    &&& n.route() == o.route()
    &&& n.message() == o.message()
    &&& n.context() == o.context()
    &&& n.reply() == o.reply()
    &&& n.pending() == o.pending()
    &&& r.len() == 3
    &&& emits(r[0], |e: ChatEvent| is_delegation_event(e, n.target(), o.message(), "running"@))
    &&& emits(r[1], |e: ChatEvent| is_tag_event(e, n.target().agent_id, n.target().name))
    &&& route_of(n.target()) == ChatRoute::GeneralPurpose ==> {
        &&& n.phase() == ChatPhase::AwaitSearchIntent
        &&& asks(r[2], SEARCH_INTENT_PROMPT@, o.message())
    }
    &&& route_of(n.target()) != ChatRoute::GeneralPurpose ==> n.phase() == ChatPhase::AwaitHistory
        && r[2] is PrepareHistory
}

/// The conditions under which `on_intent_reply` may run.
pub open spec fn intent_reply_ready(t: ChatTurn, agents: AgentsService, reply: Option<Seq<char>>) -> bool {
    &&& t.phase() == ChatPhase::AwaitIntent
    &&& readable_reply(reply)
    &&& agents.agents().contains_key(routed_id(reply)) || agents.agents().contains_key(GENERAL_PURPOSE_ID@)
}

impl ChatTurn {
    /// The path of the turn.
    pub closed spec fn route(&self) -> ChatRoute {
        self.route
    }

    /// What the turn waits for.
    pub closed spec fn phase(&self) -> ChatPhase {
        self.phase
    }

    /// The user's message.
    pub closed spec fn message(&self) -> Seq<char> {
        self.message@
    }

    /// The agent that answers.
    pub closed spec fn target(&self) -> AgentView {
        self.target@
    }

    /// The search context, once the searches are done.
    pub closed spec fn context(&self) -> Option<Seq<char>> {
        match self.search_context {
            Some(c) => Some(c@),
            None => None,
        }
    }

    /// The text of the reply streamed so far.
    pub closed spec fn reply(&self) -> Seq<char> {
        self.full_response@
    }

    /// The part of the stream not yet read (an incomplete line).
    pub closed spec fn pending(&self) -> Seq<char> {
        self.buffer@
    }

    /// What the turn waits for.
    pub fn current_phase(&self) -> (p: ChatPhase)
        ensures
            p == self.phase(),
    {
        self.phase
    }

    /// Starts a turn for `message` addressed to `agent`: its tag is sent;
    /// an orchestrated turn first asks the model which agent should answer, a
    /// general-purpose one whether to search, any other one goes to its
    /// history.
    pub fn start(agents: &AgentsService, agent: &AgentDefinition, message: &str) -> (r: (ChatTurn, Vec<ChatAction>))
        ensures
            r.0.route() == route_of(agent@),
            r.0.message() == message@,
            r.0.context() is None,
            r.0.reply().len() == 0 && r.0.pending().len() == 0,
            r.1@.len() == 2,
            route_of(agent@) == ChatRoute::Orchestrated ==> {
                &&& emits(r.1@[0], |e: ChatEvent| is_tag_event(e, "builtin-orchestrator"@, "Orchestrator"@))
                &&& r.0.phase() == ChatPhase::AwaitIntent
                &&& exists|s: Seq<AgentDefinition>| {
                    &&& unique_keys(s)
                    &&& agent_map(s) == without_orchestrators(agents.agents())
                    &&& #[trigger] asks(r.1@[1], intent_prompt(agent_views(s)), message@)
                }
            },
            route_of(agent@) != ChatRoute::Orchestrated ==> {
                &&& emits(r.1@[0], |e: ChatEvent| is_tag_event(e, agent@.agent_id, agent@.name))
                &&& r.0.target() == agent@
            },
            route_of(agent@) == ChatRoute::GeneralPurpose ==> {
                &&& r.0.phase() == ChatPhase::AwaitSearchIntent
                &&& asks(r.1@[1], SEARCH_INTENT_PROMPT@, message@)
            },
            route_of(agent@) == ChatRoute::Direct ==> r.0.phase() == ChatPhase::AwaitHistory && r.1@[1] is PrepareHistory,
    {
        let route = chat_route(agent);
        let mut actions: Vec<ChatAction> = Vec::new();
        let phase = match route {
            ChatRoute::Orchestrated => {
                actions.push(ChatAction::Emit(agent_tag_event("builtin-orchestrator", "Orchestrator")));
                let list = agents.list_non_orchestrator_agents();
                let prompt = OrchestratorService::intent_prompt_for(&list);
                let m = prompt_messages(prompt.as_str(), message);
                assert(is_question(m@, intent_prompt(agent_views(list@)), message@));
                let a = ChatAction::AskModel(m);
                assert(asks(a, intent_prompt(agent_views(list@)), message@));
                actions.push(a);
                ChatPhase::AwaitIntent
            },
            ChatRoute::GeneralPurpose => {
                actions.push(ChatAction::Emit(agent_tag_event(agent.agent_id.as_str(), agent.name.as_str())));
                let prompt = WebSearchService::build_search_intent_prompt();
                actions.push(ChatAction::AskModel(prompt_messages(prompt.as_str(), message)));
                ChatPhase::AwaitSearchIntent
            },
            ChatRoute::Direct => {
                actions.push(ChatAction::Emit(agent_tag_event(agent.agent_id.as_str(), agent.name.as_str())));
                actions.push(ChatAction::PrepareHistory);
                ChatPhase::AwaitHistory
            },
        };
        let turn = ChatTurn {
            route,
            phase,
            message: message.to_owned(),
            target: agent.duplicate(),
            search_context: None,
            full_response: String::new(),
            buffer: String::new(),
        };
        (turn, actions)
    }

    fn after_target(&mut self) -> (r: Vec<ChatAction>)
        ensures
            final(self).route() == old(self).route(),
            final(self).message() == old(self).message(),
            final(self).target() == old(self).target(),
            final(self).context() == old(self).context(),
            final(self).reply() == old(self).reply(),
            final(self).pending() == old(self).pending(),
            r@.len() == 1,
            route_of(old(self).target()) == ChatRoute::GeneralPurpose ==> {
                &&& final(self).phase() == ChatPhase::AwaitSearchIntent
                &&& asks(r@[0], SEARCH_INTENT_PROMPT@, old(self).message())
            },
            route_of(old(self).target()) != ChatRoute::GeneralPurpose ==> final(self).phase() == ChatPhase::AwaitHistory
                && r@[0] is PrepareHistory,
    {
        let mut actions: Vec<ChatAction> = Vec::new();
        if chat_route(&self.target) == ChatRoute::GeneralPurpose {
            let prompt = WebSearchService::build_search_intent_prompt();
            actions.push(ChatAction::AskModel(prompt_messages(prompt.as_str(), self.message.as_str())));
            self.phase = ChatPhase::AwaitSearchIntent;
        } else {
            actions.push(ChatAction::PrepareHistory);
            self.phase = ChatPhase::AwaitHistory;
        }
        actions
    }

    /// The intent reply came (`None` when the call failed): the routed agent,
    /// or the general-purpose one, takes the task; the delegation and its tag
    /// are sent; then the search question or the history follows.
    pub fn on_intent_reply(&mut self, agents: &AgentsService, reply: Option<&str>) -> (r: Vec<ChatAction>)
        requires
            old(self).phase() == ChatPhase::AwaitIntent,
            readable_reply(match reply { Some(t) => Some(t@), None => None }),
            agents.agents().contains_key(routed_id(match reply { Some(t) => Some(t@), None => None }))
                || agents.agents().contains_key(GENERAL_PURPOSE_ID@),
        ensures
            intent_reply_done(*old(self), *final(self), *agents, match reply { Some(t) => Some(t@), None => None }, r@),
    {
        let id = routed_agent_id(reply);
        let target = resolve_target(agents, id.as_str());
        let mut actions: Vec<ChatAction> = Vec::new();
        actions.push(ChatAction::Emit(delegation_event(&target, self.message.as_str(), "running")));
        actions.push(ChatAction::Emit(agent_tag_event(target.agent_id.as_str(), target.name.as_str())));
        self.target = target;
        let mut rest = self.after_target();
        actions.append(&mut rest);
        actions
    }

    /// `on_intent_reply` where its conditions hold (see `intent_reply_ready`),
    /// tested first; otherwise `None`, and the turn is left as it was.
    pub fn try_intent_reply(&mut self, agents: &AgentsService, reply: Option<&str>) -> (r: Option<Vec<ChatAction>>)
        ensures
            intent_reply_ready(*old(self), *agents, match reply { Some(t) => Some(t@), None => None }) <==> r is Some,
            r is None ==> *final(self) == *old(self),
            r is Some ==> intent_reply_done(*old(self), *final(self), *agents,
                match reply { Some(t) => Some(t@), None => None }, r->0@),
    {
        let ghost rv = match reply { Some(t) => Some(t@), None => None };
        if self.current_phase() != ChatPhase::AwaitIntent {
            return None;
        }
        let readable = match reply {
            Some(t) => reply_braces_in_order(t),
            None => true,
        };
        if !readable {
            return None;
        }
        let id = routed_agent_id(reply);
        let known = agents.get_agent_by_id(id.as_str()).is_some() || agents.get_agent_by_id(GENERAL_PURPOSE_ID).is_some();
        if !known {
            return None;
        }
        Some(self.on_intent_reply(agents, reply))
    }

    /// The search-intent reply came (read into an intent, or `None`): a
    /// search that is needed and has queries begins; otherwise the history
    /// follows.
    pub fn on_search_intent(&mut self, intent: &Option<SearchIntent>) -> (r: Vec<ChatAction>)
        requires
            old(self).phase() == ChatPhase::AwaitSearchIntent,
        ensures
            final(self).route() == old(self).route(),
            final(self).message() == old(self).message(),
            final(self).target() == old(self).target(),
            final(self).context() == old(self).context(),
            final(self).reply() == old(self).reply(),
            final(self).pending() == old(self).pending(),
            match intent {
                Some(i) => if i.needs_search && i.queries@.len() > 0 {
                    &&& final(self).phase() == ChatPhase::AwaitSearch
                    &&& r@.len() == 2
                    &&& emits(r@[0], |e: ChatEvent| is_search_start_event(e, i.queries@.map_values(|q: String| q@)))
                    &&& searches(r@[1], i.queries@)
                } else {
                    final(self).phase() == ChatPhase::AwaitHistory && r@.len() == 1 && r@[0] is PrepareHistory
                },
                None => final(self).phase() == ChatPhase::AwaitHistory && r@.len() == 1 && r@[0] is PrepareHistory,
            },
    {
        let mut actions: Vec<ChatAction> = Vec::new();
        match search_queries(intent) {
            Some(qs) => {
                actions.push(ChatAction::Emit(search_start_event(&qs)));
                actions.push(ChatAction::Search(qs));
                self.phase = ChatPhase::AwaitSearch;
            },
            None => {
                actions.push(ChatAction::PrepareHistory);
                self.phase = ChatPhase::AwaitHistory;
            },
        }
        actions
    }

    /// The searches are done: their context is kept for the system prompt,
    /// the number of hits is sent, and the history follows.
    pub fn on_search_results(&mut self, results: &[WebSearchResponse]) -> (r: Vec<ChatAction>)
        requires
            old(self).phase() == ChatPhase::AwaitSearch,
        ensures
            final(self).route() == old(self).route(),
            final(self).message() == old(self).message(),
            final(self).target() == old(self).target(),
            final(self).context() == Some(search_context(results@)),
            final(self).reply() == old(self).reply(),
            final(self).pending() == old(self).pending(),
            final(self).phase() == ChatPhase::AwaitHistory,
            r@.len() == 2,
            emits(r@[0], |e: ChatEvent| is_search_end_event(e, hit_count(results@))),
            r@[1] is PrepareHistory,
    {
        let context = WebSearchService::format_search_results_as_context(results);
        let n = count_hits(results);
        let mut actions: Vec<ChatAction> = Vec::new();
        actions.push(ChatAction::Emit(search_end_event(n)));
        actions.push(ChatAction::PrepareHistory);
        self.search_context = Some(context);
        self.phase = ChatPhase::AwaitHistory;
        actions
    }

    /// The history is ready: the reply stream opens with the answering
    /// agent's system prompt (with the search context, if any) and the history.
    pub fn on_history(&mut self, history: &[ContextEntry]) -> (r: Vec<ChatAction>)
        requires
            old(self).phase() == ChatPhase::AwaitHistory,
        ensures
            final(self).route() == old(self).route(),
            final(self).message() == old(self).message(),
            final(self).target() == old(self).target(),
            final(self).context() == old(self).context(),
            final(self).reply() == old(self).reply(),
            final(self).pending() == old(self).pending(),
            final(self).phase() == ChatPhase::AwaitStream,
            r@.len() == 1,
            opens(r@[0], answer_prompt(old(self).target().system_prompt, old(self).context()), history@),
    {
        let prompt = match &self.search_context {
            Some(c) => answer_system_prompt(self.target.system_prompt.as_str(), Some(c.as_str())),
            None => answer_system_prompt(self.target.system_prompt.as_str(), None),
        };
        let m = answer_messages(prompt.as_str(), history);
        let mut actions: Vec<ChatAction> = Vec::new();
        actions.push(ChatAction::OpenStream(m));
        self.phase = ChatPhase::AwaitStream;
        actions
    }

    /// The stream opened (`Ok`), or not: then the error is sent and the turn
    /// is over.
    pub fn on_stream_opened(&mut self, outcome: Result<(), String>) -> (r: Vec<ChatAction>)
        requires
            old(self).phase() == ChatPhase::AwaitStream,
        ensures
            final(self).route() == old(self).route(),
            final(self).message() == old(self).message(),
            final(self).target() == old(self).target(),
            final(self).context() == old(self).context(),
            final(self).reply() == old(self).reply(),
            final(self).pending() == old(self).pending(),
            match outcome {
                Ok(()) => final(self).phase() == ChatPhase::Streaming && r@.len() == 0,
                Err(detail) => {
                    &&& final(self).phase() == ChatPhase::Finished
                    &&& r@.len() == 2
                    &&& emits(r@[0], |e: ChatEvent| is_error_event(e, open_failure_prefix(old(self).route()) + detail@))
                    &&& r@[1] is Finish
                },
            },
    {
        let mut actions: Vec<ChatAction> = Vec::new();
        match outcome {
            Ok(()) => {
                self.phase = ChatPhase::Streaming;
            },
            Err(detail) => {
                let prefix: &str = if self.route == ChatRoute::Orchestrated {
                    "Failed to start delegation stream: "
                } else {
                    "Failed to start stream: "
                };
                actions.push(ChatAction::Emit(error_event(prefix, detail.as_str())));
                actions.push(ChatAction::Finish);
                self.phase = ChatPhase::Finished;
            },
        }
        actions
    }

    /// A piece of the stream came: the complete lines are read (see
    /// `drain`), each text piece is sent and added to the reply.
    pub fn on_chunk(&mut self, text: &str) -> (r: Vec<ChatAction>)
        requires
            old(self).phase() == ChatPhase::Streaming,
        ensures
            final(self).route() == old(self).route(),
            final(self).message() == old(self).message(),
            final(self).target() == old(self).target(),
            final(self).context() == old(self).context(),
            final(self).phase() == ChatPhase::Streaming,
            ({
                let (contents, rest) = drain(old(self).pending() + text@);
                &&& final(self).pending() == rest
                &&& final(self).reply() == old(self).reply() + concat(contents)
                &&& r@.len() == contents.len()
                &&& forall|i: int| 0 <= i < contents.len() ==> emits(#[trigger] r@[i], |e: ChatEvent| is_text_event(e, contents[i]))
            }),
    {
        let mut b = chars_of(self.buffer.as_str());
        push_str(&mut b, text);
        let joined = string_of(&b);
        let (contents, rest) = drain_lines(joined.as_str());
        let ghost cs = contents@.map_values(|s: String| s@);
        let mut actions: Vec<ChatAction> = Vec::new();
        let mut full = chars_of(self.full_response.as_str());
        let ghost start = full@;
        let mut i: usize = 0;
        while i < contents.len()
            invariant
                i <= contents.len(),
                cs == contents@.map_values(|s: String| s@),
                actions@.len() == i,
                forall|j: int| 0 <= j < i ==> emits(#[trigger] actions@[j], |e: ChatEvent| is_text_event(e, cs[j])),
                full@ == start + concat(cs.take(i as int)),
            decreases contents.len() - i,
        {
            actions.push(ChatAction::Emit(text_event(contents[i].as_str())));
            push_str(&mut full, contents[i].as_str());
            assert(cs.take(i + 1).drop_last() =~= cs.take(i as int));
            i += 1;
        }
        assert(cs.take(cs.len() as int) =~= cs);
        self.full_response = string_of(&full);
        self.buffer = rest;
        actions
    }

    fn end_actions(&mut self) -> (r: Vec<ChatAction>)
        ensures
            final(self).route() == old(self).route(),
            final(self).message() == old(self).message(),
            final(self).target() == old(self).target(),
            final(self).context() == old(self).context(),
            final(self).reply() == old(self).reply(),
            final(self).pending() == old(self).pending(),
            final(self).phase() == ChatPhase::Finished,
            ending(r@, old(self).route(), old(self).target(), old(self).message(), old(self).reply()),
    {
        let mut actions: Vec<ChatAction> = Vec::new();
        if !self.full_response.as_str().is_empty() {
            actions.push(ChatAction::SaveReply(self.full_response.clone()));
        }
        if self.route == ChatRoute::Orchestrated {
            actions.push(ChatAction::Emit(delegation_event(&self.target, self.message.as_str(), "completed")));
        }
        actions.push(ChatAction::Emit(done_event()));
        actions.push(ChatAction::Finish);
        self.phase = ChatPhase::Finished;
        actions
    }

    /// The stream failed: the error is sent, then the stream ends as it
    /// would have (see `ending`).
    pub fn on_chunk_error(&mut self, detail: &str) -> (r: Vec<ChatAction>)
        requires
            old(self).phase() == ChatPhase::Streaming,
        ensures
            final(self).phase() == ChatPhase::Finished,
            final(self).reply() == old(self).reply(),
            r@.len() >= 1,
            emits(r@[0], |e: ChatEvent| is_error_event(e, "Stream error: "@ + detail@)),
            ending(r@.skip(1), old(self).route(), old(self).target(), old(self).message(), old(self).reply()),
    {
        let mut actions: Vec<ChatAction> = Vec::new();
        actions.push(ChatAction::Emit(error_event("Stream error: ", detail)));
        let mut rest = self.end_actions();
        let ghost tail = rest@;
        actions.append(&mut rest);
        assert(actions@.skip(1) =~= tail);
        actions
    }

    /// The stream ended (see `ending`).
    pub fn on_stream_end(&mut self) -> (r: Vec<ChatAction>)
        requires
            old(self).phase() == ChatPhase::Streaming,
        ensures
            final(self).phase() == ChatPhase::Finished,
            final(self).reply() == old(self).reply(),
            ending(r@, old(self).route(), old(self).target(), old(self).message(), old(self).reply()),
    {
        self.end_actions()
    }
}

} // verus!
