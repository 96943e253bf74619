//! What is asked of a harness: the calls of a script, with the ids and epochs
//! that came back filled in.

use vstd::prelude::*;

use super::script::{Call, EpochArg, IdArg, Kept};
use crate::ids::Uuid7;

verus! {

/// A call as it is made.
pub type Request = Call<Uuid7, u64>;

/// The id an argument stands for. One that never came back is an unknown one.
pub open spec fn id_for(kept: Seq<Kept>, unknown: Uuid7, arg: IdArg) -> Uuid7 {
    let found = match arg {
        IdArg::Of(step) => if step < kept.len() {
            kept[step as int].id
        } else {
            None
        },
        IdArg::CursorOf(step) => if step < kept.len() {
            kept[step as int].cursor
        } else {
            None
        },
        IdArg::Unknown => None,
    };
    match found {
        Some(id) => id,
        None => unknown,
    }
}

/// The id an optional argument stands for.
pub open spec fn opt_id_for(kept: Seq<Kept>, unknown: Uuid7, arg: Option<IdArg>) -> Option<Uuid7> {
    match arg {
        Some(arg) => Some(id_for(kept, unknown, arg)),
        None => None,
    }
}

/// The epoch an argument stands for. One that never came back is 0.
pub open spec fn epoch_for(kept: Seq<Kept>, arg: EpochArg) -> u64 {
    match arg {
        EpochArg::Exactly(epoch) => epoch,
        EpochArg::Of(step) => if step < kept.len() {
            kept[step as int].epoch
        } else {
            0
        },
    }
}

/// The epoch an optional argument stands for.
pub open spec fn opt_epoch_for(kept: Seq<Kept>, arg: Option<EpochArg>) -> Option<u64> {
    match arg {
        Some(arg) => Some(epoch_for(kept, arg)),
        None => None,
    }
}

/// A call with what came back so far filled in.
pub open spec fn request_for(
    kept: Seq<Kept>,
    unknown: Uuid7,
    call: Call<IdArg, EpochArg>,
) -> Request {
    match call {
        Call::NewAgent { slug_prefix, name } => Call::NewAgent { slug_prefix, name },
        Call::NewAgentUnderSlugOf { agent, name } => Call::NewAgentUnderSlugOf { agent, name },
        Call::NewThread { agent, slug_prefix, name } => Call::NewThread {
            agent,
            slug_prefix,
            name,
        },
        Call::NewConversation { agent, slug_prefix, name } => Call::NewConversation {
            agent,
            slug_prefix,
            name,
        },
        Call::NewPlainConversation { agent } => Call::NewPlainConversation { agent },
        Call::GetConversation { agent, id } => Call::GetConversation {
            agent,
            id: id_for(kept, unknown, id),
        },
        Call::GetThread { agent, id } => Call::GetThread {
            agent,
            id: id_for(kept, unknown, id),
        },
        Call::ListAgents => Call::ListAgents,
        Call::ListConversations { agent, cursor, limit } => Call::ListConversations {
            agent,
            cursor: opt_id_for(kept, unknown, cursor),
            limit,
        },
        Call::ListThreads { agent } => Call::ListThreads { agent },
        Call::DeleteThread { agent, id } => Call::DeleteThread {
            agent,
            id: id_for(kept, unknown, id),
        },
        Call::DeleteConversation { agent, id } => Call::DeleteConversation {
            agent,
            id: id_for(kept, unknown, id),
        },
        Call::DeleteAgent { id } => Call::DeleteAgent {
            id: id_for(kept, unknown, id),
        },
        Call::GetEvents { conversation, turn, kind, ascending } => Call::GetEvents {
            conversation,
            turn: opt_id_for(kept, unknown, turn),
            kind,
            ascending,
        },
        Call::AddCustomEvent { conversation, event_type } => Call::AddCustomEvent {
            conversation,
            event_type,
        },
        Call::AddOperationCompleted {
            conversation,
            operation,
            outcome,
        } => Call::AddOperationCompleted {
            conversation,
            operation: id_for(kept, unknown, operation),
            outcome,
        },
        Call::AddLeaseReleased { conversation, lease, epoch } => Call::AddLeaseReleased {
            conversation,
            lease: id_for(kept, unknown, lease),
            epoch: epoch_for(kept, epoch),
        },
        Call::BeginTurn { conversation, input, lease_epoch } => Call::BeginTurn {
            conversation,
            input,
            lease_epoch: opt_epoch_for(kept, lease_epoch),
        },
        Call::AddTurnMessage { turn, text } => Call::AddTurnMessage { turn, text },
        Call::WriteArtifact { turn, path, contents } => Call::WriteArtifact {
            turn,
            path,
            contents,
        },
        Call::FinishTurn { turn } => Call::FinishTurn { turn },
        Call::OpenOperations { conversation } => Call::OpenOperations { conversation },
        Call::BeginOperation {
            conversation,
            effect_kind,
            idempotency_key,
            recovery_policy,
            max_attempts,
            lease_epoch,
        } => Call::BeginOperation {
            conversation,
            effect_kind,
            idempotency_key,
            recovery_policy,
            max_attempts,
            lease_epoch: opt_epoch_for(kept, lease_epoch),
        },
        Call::CompleteOperation {
            conversation,
            operation,
            outcome,
            detail,
            lease_epoch,
        } => Call::CompleteOperation {
            conversation,
            operation: id_for(kept, unknown, operation),
            outcome,
            detail,
            lease_epoch: opt_epoch_for(kept, lease_epoch),
        },
        Call::AcquireLease { conversation, holder, ttl_ms } => Call::AcquireLease {
            conversation,
            holder,
            ttl_ms,
        },
        Call::CurrentLease { conversation } => Call::CurrentLease { conversation },
        Call::RenewLease { conversation, lease, epoch, ttl_ms } => Call::RenewLease {
            conversation,
            lease: id_for(kept, unknown, lease),
            epoch: epoch_for(kept, epoch),
            ttl_ms,
        },
        Call::ReleaseLease { conversation, lease, epoch } => Call::ReleaseLease {
            conversation,
            lease: id_for(kept, unknown, lease),
            epoch: epoch_for(kept, epoch),
        },
        Call::PutAgentBinding { agent, name } => Call::PutAgentBinding { agent, name },
        Call::PutConversationBinding { conversation, name } => Call::PutConversationBinding {
            conversation,
            name,
        },
        Call::ListBindings { conversation } => Call::ListBindings { conversation },
        Call::Fork { conversation, slug_prefix, name } => Call::Fork {
            conversation,
            slug_prefix,
            name,
        },
        Call::Sleep { millis } => Call::Sleep { millis },
    }
}

/// The id an argument stands for.
fn resolve_id(kept: &Vec<Kept>, unknown: Uuid7, arg: IdArg) -> (id: Uuid7)
    ensures
        id == id_for(kept@, unknown, arg),
{
    let found: Option<Uuid7> = match arg {
        IdArg::Of(step) => if step < kept.len() {
            kept[step].id
        } else {
            None
        },
        IdArg::CursorOf(step) => if step < kept.len() {
            kept[step].cursor
        } else {
            None
        },
        IdArg::Unknown => None,
    };
    match found {
        Some(id) => id,
        None => unknown,
    }
}

/// The id an optional argument stands for.
fn resolve_opt_id(kept: &Vec<Kept>, unknown: Uuid7, arg: Option<IdArg>) -> (id: Option<Uuid7>)
    ensures
        id == opt_id_for(kept@, unknown, arg),
{
    match arg {
        Some(arg) => Some(resolve_id(kept, unknown, arg)),
        None => None,
    }
}

/// The epoch an argument stands for.
fn resolve_epoch(kept: &Vec<Kept>, arg: EpochArg) -> (epoch: u64)
    ensures
        epoch == epoch_for(kept@, arg),
{
    match arg {
        EpochArg::Exactly(epoch) => epoch,
        EpochArg::Of(step) => if step < kept.len() {
            kept[step].epoch
        } else {
            0
        },
    }
}

/// The epoch an optional argument stands for.
fn resolve_opt_epoch(kept: &Vec<Kept>, arg: Option<EpochArg>) -> (epoch: Option<u64>)
    ensures
        epoch == opt_epoch_for(kept@, arg),
{
    match arg {
        Some(arg) => Some(resolve_epoch(kept, arg)),
        None => None,
    }
}

/// A call with what came back so far filled in.
pub fn resolve(kept: &Vec<Kept>, unknown: Uuid7, call: Call<IdArg, EpochArg>) -> (request: Request)
    ensures
        request == request_for(kept@, unknown, call),
{
    match call {
        Call::NewAgent { slug_prefix, name } => Call::NewAgent { slug_prefix, name },
        Call::NewAgentUnderSlugOf { agent, name } => Call::NewAgentUnderSlugOf { agent, name },
        Call::NewThread { agent, slug_prefix, name } => Call::NewThread {
            agent,
            slug_prefix,
            name,
        },
        Call::NewConversation { agent, slug_prefix, name } => Call::NewConversation {
            agent,
            slug_prefix,
            name,
        },
        Call::NewPlainConversation { agent } => Call::NewPlainConversation { agent },
        Call::GetConversation { agent, id } => Call::GetConversation {
            agent,
            id: resolve_id(kept, unknown, id),
        },
        Call::GetThread { agent, id } => Call::GetThread {
            agent,
            id: resolve_id(kept, unknown, id),
        },
        Call::ListAgents => Call::ListAgents,
        Call::ListConversations { agent, cursor, limit } => Call::ListConversations {
            agent,
            cursor: resolve_opt_id(kept, unknown, cursor),
            limit,
        },
        Call::ListThreads { agent } => Call::ListThreads { agent },
        Call::DeleteThread { agent, id } => Call::DeleteThread {
            agent,
            id: resolve_id(kept, unknown, id),
        },
        Call::DeleteConversation { agent, id } => Call::DeleteConversation {
            agent,
            id: resolve_id(kept, unknown, id),
        },
        Call::DeleteAgent { id } => Call::DeleteAgent {
            id: resolve_id(kept, unknown, id),
        },
        Call::GetEvents { conversation, turn, kind, ascending } => Call::GetEvents {
            conversation,
            turn: resolve_opt_id(kept, unknown, turn),
            kind,
            ascending,
        },
        Call::AddCustomEvent { conversation, event_type } => Call::AddCustomEvent {
            conversation,
            event_type,
        },
        Call::AddOperationCompleted {
            conversation,
            operation,
            outcome,
        } => Call::AddOperationCompleted {
            conversation,
            operation: resolve_id(kept, unknown, operation),
            outcome,
        },
        Call::AddLeaseReleased { conversation, lease, epoch } => Call::AddLeaseReleased {
            conversation,
            lease: resolve_id(kept, unknown, lease),
            epoch: resolve_epoch(kept, epoch),
        },
        Call::BeginTurn { conversation, input, lease_epoch } => Call::BeginTurn {
            conversation,
            input,
            lease_epoch: resolve_opt_epoch(kept, lease_epoch),
        },
        Call::AddTurnMessage { turn, text } => Call::AddTurnMessage { turn, text },
        Call::WriteArtifact { turn, path, contents } => Call::WriteArtifact {
            turn,
            path,
            contents,
        },
        Call::FinishTurn { turn } => Call::FinishTurn { turn },
        Call::OpenOperations { conversation } => Call::OpenOperations { conversation },
        Call::BeginOperation {
            conversation,
            effect_kind,
            idempotency_key,
            recovery_policy,
            max_attempts,
            lease_epoch,
        } => Call::BeginOperation {
            conversation,
            effect_kind,
            idempotency_key,
            recovery_policy,
            max_attempts,
            lease_epoch: resolve_opt_epoch(kept, lease_epoch),
        },
        Call::CompleteOperation {
            conversation,
            operation,
            outcome,
            detail,
            lease_epoch,
        } => Call::CompleteOperation {
            conversation,
            operation: resolve_id(kept, unknown, operation),
            outcome,
            detail,
            lease_epoch: resolve_opt_epoch(kept, lease_epoch),
        },
        Call::AcquireLease { conversation, holder, ttl_ms } => Call::AcquireLease {
            conversation,
            holder,
            ttl_ms,
        },
        Call::CurrentLease { conversation } => Call::CurrentLease { conversation },
        Call::RenewLease { conversation, lease, epoch, ttl_ms } => Call::RenewLease {
            conversation,
            lease: resolve_id(kept, unknown, lease),
            epoch: resolve_epoch(kept, epoch),
            ttl_ms,
        },
        Call::ReleaseLease { conversation, lease, epoch } => Call::ReleaseLease {
            conversation,
            lease: resolve_id(kept, unknown, lease),
            epoch: resolve_epoch(kept, epoch),
        },
        Call::PutAgentBinding { agent, name } => Call::PutAgentBinding { agent, name },
        Call::PutConversationBinding { conversation, name } => Call::PutConversationBinding {
            conversation,
            name,
        },
        Call::ListBindings { conversation } => Call::ListBindings { conversation },
        Call::Fork { conversation, slug_prefix, name } => Call::Fork {
            conversation,
            slug_prefix,
            name,
        },
        Call::Sleep { millis } => Call::Sleep { millis },
    }
}

} // verus!
