//! Conversation orchestration engine: persists multi-turn chats, assembles
//! their history into the context sent to a text or image generation
//! service, classifies the service's answer and stores the result.
//!
//! - `model`: chats, messages, images and the requests on them.
//! - `ordering`: history order of messages.
//! - `chat_history`, `context`: the context sent upstream, a sliding window
//!   over the stored history.
//! - `dispatch`: upstream request payloads and classification of answers.
//! - `ingest`: extraction of the generated content from an answer.
//! - `session`: the per-request coordinator, a state machine from events to
//!   actions.
//! - `store`: the persistence gateway over an in-memory store.
//! - `gateway`: mapping of database results for a SQL-backed gateway.
//! - `engine`: whole requests run against a store, and the laws they obey.
use vstd::prelude::*;

pub mod chat_history;
pub mod clock;
pub mod context;
pub mod dispatch;
pub mod engine;
pub mod gateway;
pub mod ingest;
pub mod model;
pub mod ordering;
pub mod session;
pub mod store;

verus! {

} // verus!
