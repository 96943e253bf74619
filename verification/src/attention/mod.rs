//! The attention scheduler: what reaches the agent, when, in what order, and
//! coalesced how.

pub mod append_run;
pub mod backend;
pub mod backend_laws;
pub mod decision_laws;
pub mod dispatch;
pub mod dispatch_laws;
pub mod dispatcher;
pub mod file_backend;
pub mod item_laws;
pub mod lease_laws;
pub mod lease_run;
pub mod lifecycle;
pub mod machine_laws;
pub mod mark_run;
pub mod ordering;
pub mod pass_laws;
pub mod producer_laws;
pub mod producers;
pub mod store_laws;
pub mod types;
