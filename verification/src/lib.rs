//! Conversation-history management for an agent chat service: token
//! accounting, history snipping, three-tier compaction, stream parsing and
//! the agent registry behind the web API.

pub mod text;
pub mod ids;
pub mod context;
pub mod window;
pub mod compact;
pub mod history_snip;
pub mod json;
pub mod sse;
pub mod api;
pub mod registry;
pub mod models;
pub mod builtin_texts;
pub mod agents;
pub mod orchestrator;
pub mod web_search;
pub mod chat;
pub mod turn;
pub mod tools;
pub mod endpoints;
pub mod laws;
pub mod ws;
