//! Contracts that every harness and every sandbox has to meet, as scripts of
//! calls and of what has to come back from them.

pub mod conversations;
pub mod leases;
pub mod operations;
pub mod process;
pub mod reply_laws;
pub mod request;
pub mod run;
pub mod sandbox_laws;
pub mod script;
pub mod script_laws;
pub mod survival;
