//! Adapters: the workers that carry messages between a conversation and an
//! external platform.

pub mod conversation;
pub mod conversation_laws;
pub mod inbound;
pub mod inbound_laws;
pub mod machine_laws;
pub mod message_laws;
pub mod message_run;
pub mod outbound;
pub mod outbound_laws;
pub mod reboot;
pub mod runner_laws;
pub mod secrets;
pub mod supervisor;
pub mod types;
pub mod worker_events;
pub mod worker_laws;
