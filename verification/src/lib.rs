//! The attention scheduler of an agent host: what reaches an agent, when, in
//! what order and coalesced how.
//!
//! Producers append items to a conversation's inbox, and a dispatcher that
//! holds the conversation's lease drains them into turns ([`attention`]).
//! Adapters carry messages of chat platforms in and out ([`adapter`]). Requests
//! for human input are followed through a conversation's log and reminded of
//! ([`input_requests`], [`nudges`]), and scheduled work of conversations that
//! wait for an answer starts first ([`task_order`]). A wakeup sends a turn under
//! a lease of its own ([`wakeup`]). What every harness and every sandbox has to
//! keep is written down as scripts that can be run against them ([`contract`]).
//!
//! What holds of an operation over all its inputs, and of several together, is
//! stated and proved in the modules whose names end in `_laws`, in terms of the
//! items, messages, records and replies themselves.
//!
//! Nothing here reads a clock, a file or a socket. Work that needs them is a
//! machine: it says which operation is next, and is told what came of it.

pub mod adapter;
pub mod attention;
pub mod clock;
pub mod contract;
pub mod filters;
pub mod ids;
pub mod input_request_laws;
pub mod input_requests;
pub mod json;
pub mod nudge_laws;
pub mod nudge_run;
pub mod nudges;
pub mod pairs;
pub mod payload;
pub mod payload_laws;
pub mod task_laws;
pub mod task_order;
pub mod text;
pub mod wakeup;
pub mod wakeup_laws;
