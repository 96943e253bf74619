//! What the journal of operations has to keep.

use vstd::prelude::*;

use super::script::{step, Call, EventName, Expect, IdArg, OperationOutcome, OperationState, RecoveryPolicy, Step};

verus! {

/// The steps of [`operation_records_cover_the_crash_table`].
pub open spec fn operation_steps() -> Seq<Step> {
    seq![
        step("agent", Call::NewAgent { slug_prefix: "agent", name: "Agent" }, Expect::Succeeds),
        step("conversation", Call::NewPlainConversation { agent: 0 }, Expect::Succeeds),
        step(
            "open operations before the intent",
            Call::OpenOperations { conversation: 1 },
            Expect::OperationCount { count: 0 },
        ),
        step(
            "intent",
            Call::BeginOperation {
                conversation: 1,
                effect_kind: "adapter.send",
                idempotency_key: "send-1",
                recovery_policy: RecoveryPolicy::Reconcile,
                max_attempts: Some(3),
                lease_epoch: None,
            },
            Expect::OperationBegun {
                created: true,
                state: Some(OperationState::Open),
                max_attempts: Some(3),
                same_as: None,
            },
        ),
        step(
            "open operations after the intent",
            Call::OpenOperations { conversation: 1 },
            Expect::OnlyOperation { operation: 3 },
        ),
        step(
            "resumed begin",
            Call::BeginOperation {
                conversation: 1,
                effect_kind: "adapter.send",
                idempotency_key: "send-1",
                recovery_policy: RecoveryPolicy::Reconcile,
                max_attempts: Some(3),
                lease_epoch: None,
            },
            Expect::OperationBegun {
                created: false,
                state: None,
                max_attempts: None,
                same_as: Some(3),
            },
        ),
        step(
            "uncertain completion",
            Call::CompleteOperation {
                conversation: 1,
                operation: IdArg::Of(3),
                outcome: OperationOutcome::Uncertain,
                detail: Some("timed out mid-send"),
                lease_epoch: None,
            },
            Expect::CompletedAs { state: OperationState::Uncertain },
        ),
        step(
            "open operations while uncertain",
            Call::OpenOperations { conversation: 1 },
            Expect::OperationCount { count: 1 },
        ),
        step(
            "replayed uncertain completion",
            Call::CompleteOperation {
                conversation: 1,
                operation: IdArg::Of(3),
                outcome: OperationOutcome::Uncertain,
                detail: Some("timed out mid-send"),
                lease_epoch: None,
            },
            Expect::CompletedAs { state: OperationState::Uncertain },
        ),
        step(
            "settled completion",
            Call::CompleteOperation {
                conversation: 1,
                operation: IdArg::Of(3),
                outcome: OperationOutcome::Succeeded,
                detail: None,
                lease_epoch: None,
            },
            Expect::CompletedAs { state: OperationState::Succeeded },
        ),
        step(
            "open operations when settled",
            Call::OpenOperations { conversation: 1 },
            Expect::OperationCount { count: 0 },
        ),
        step(
            "deduped begin",
            Call::BeginOperation {
                conversation: 1,
                effect_kind: "adapter.send",
                idempotency_key: "send-1",
                recovery_policy: RecoveryPolicy::Reconcile,
                max_attempts: Some(3),
                lease_epoch: None,
            },
            Expect::OperationBegun {
                created: false,
                state: Some(OperationState::Succeeded),
                max_attempts: None,
                same_as: None,
            },
        ),
        step(
            "replayed terminal completion",
            Call::CompleteOperation {
                conversation: 1,
                operation: IdArg::Of(3),
                outcome: OperationOutcome::Succeeded,
                detail: None,
                lease_epoch: None,
            },
            Expect::CompletedAs { state: OperationState::Succeeded },
        ),
        step(
            "uncertain after terminal",
            Call::CompleteOperation {
                conversation: 1,
                operation: IdArg::Of(3),
                outcome: OperationOutcome::Uncertain,
                detail: None,
                lease_epoch: None,
            },
            Expect::CompletedAs { state: OperationState::Succeeded },
        ),
        step(
            "conflicting completion",
            Call::CompleteOperation {
                conversation: 1,
                operation: IdArg::Of(3),
                outcome: OperationOutcome::Failed,
                detail: None,
                lease_epoch: None,
            },
            Expect::Fails,
        ),
        step(
            "completion of an unknown operation",
            Call::CompleteOperation {
                conversation: 1,
                operation: IdArg::Unknown,
                outcome: OperationOutcome::Succeeded,
                detail: None,
                lease_epoch: None,
            },
            Expect::Fails,
        ),
        step(
            "a key of another effect",
            Call::BeginOperation {
                conversation: 1,
                effect_kind: "adapter.react",
                idempotency_key: "send-1",
                recovery_policy: RecoveryPolicy::Retry,
                max_attempts: None,
                lease_epoch: None,
            },
            Expect::Fails,
        ),
        step(
            "second intent",
            Call::BeginOperation {
                conversation: 1,
                effect_kind: "adapter.send",
                idempotency_key: "send-2",
                recovery_policy: RecoveryPolicy::Reconcile,
                max_attempts: Some(3),
                lease_epoch: None,
            },
            Expect::Succeeds,
        ),
        step(
            "failed completion",
            Call::CompleteOperation {
                conversation: 1,
                operation: IdArg::Of(17),
                outcome: OperationOutcome::Failed,
                detail: Some("destination rejected the payload"),
                lease_epoch: None,
            },
            Expect::Succeeds,
        ),
        step(
            "open operations after the failure",
            Call::OpenOperations { conversation: 1 },
            Expect::OperationCount { count: 0 },
        ),
        step(
            "superseding begin",
            Call::BeginOperation {
                conversation: 1,
                effect_kind: "adapter.send",
                idempotency_key: "send-2",
                recovery_policy: RecoveryPolicy::Reconcile,
                max_attempts: Some(3),
                lease_epoch: None,
            },
            Expect::OperationSupersedes { operation: 17 },
        ),
        step(
            "operation events are not appended directly",
            Call::AddOperationCompleted {
                conversation: 1,
                operation: IdArg::Of(3),
                outcome: OperationOutcome::Failed,
            },
            Expect::Fails,
        ),
        step(
            "intent events",
            Call::GetEvents {
                conversation: 1,
                turn: None,
                kind: Some(EventName::OperationIntent),
                ascending: false,
            },
            Expect::EventCount { count: 3 },
        ),
        step(
            "completion events",
            Call::GetEvents {
                conversation: 1,
                turn: None,
                kind: Some(EventName::OperationCompleted),
                ascending: false,
            },
            Expect::EventCount { count: 3 },
        ),
    ]
}

/// Wherever an activation dies around an effect, the journal of operations says what is left to do.
pub fn operation_records_cover_the_crash_table() -> (script: Vec<Step>)
    ensures
        script@ == operation_steps(),
{
    let mut script: Vec<Step> = Vec::new();
    script.push(
        step("agent", Call::NewAgent { slug_prefix: "agent", name: "Agent" }, Expect::Succeeds),
    );
    script.push(step("conversation", Call::NewPlainConversation { agent: 0 }, Expect::Succeeds));
    script.push(
        step(
            "open operations before the intent",
            Call::OpenOperations { conversation: 1 },
            Expect::OperationCount { count: 0 },
        ),
    );
    script.push(
        step(
            "intent",
            Call::BeginOperation {
                conversation: 1,
                effect_kind: "adapter.send",
                idempotency_key: "send-1",
                recovery_policy: RecoveryPolicy::Reconcile,
                max_attempts: Some(3),
                lease_epoch: None,
            },
            Expect::OperationBegun {
                created: true,
                state: Some(OperationState::Open),
                max_attempts: Some(3),
                same_as: None,
            },
        ),
    );
    script.push(
        step(
            "open operations after the intent",
            Call::OpenOperations { conversation: 1 },
            Expect::OnlyOperation { operation: 3 },
        ),
    );
    script.push(
        step(
            "resumed begin",
            Call::BeginOperation {
                conversation: 1,
                effect_kind: "adapter.send",
                idempotency_key: "send-1",
                recovery_policy: RecoveryPolicy::Reconcile,
                max_attempts: Some(3),
                lease_epoch: None,
            },
            Expect::OperationBegun {
                created: false,
                state: None,
                max_attempts: None,
                same_as: Some(3),
            },
        ),
    );
    script.push(
        step(
            "uncertain completion",
            Call::CompleteOperation {
                conversation: 1,
                operation: IdArg::Of(3),
                outcome: OperationOutcome::Uncertain,
                detail: Some("timed out mid-send"),
                lease_epoch: None,
            },
            Expect::CompletedAs { state: OperationState::Uncertain },
        ),
    );
    script.push(
        step(
            "open operations while uncertain",
            Call::OpenOperations { conversation: 1 },
            Expect::OperationCount { count: 1 },
        ),
    );
    script.push(
        step(
            "replayed uncertain completion",
            Call::CompleteOperation {
                conversation: 1,
                operation: IdArg::Of(3),
                outcome: OperationOutcome::Uncertain,
                detail: Some("timed out mid-send"),
                lease_epoch: None,
            },
            Expect::CompletedAs { state: OperationState::Uncertain },
        ),
    );
    script.push(
        step(
            "settled completion",
            Call::CompleteOperation {
                conversation: 1,
                operation: IdArg::Of(3),
                outcome: OperationOutcome::Succeeded,
                detail: None,
                lease_epoch: None,
            },
            Expect::CompletedAs { state: OperationState::Succeeded },
        ),
    );
    script.push(
        step(
            "open operations when settled",
            Call::OpenOperations { conversation: 1 },
            Expect::OperationCount { count: 0 },
        ),
    );
    script.push(
        step(
            "deduped begin",
            Call::BeginOperation {
                conversation: 1,
                effect_kind: "adapter.send",
                idempotency_key: "send-1",
                recovery_policy: RecoveryPolicy::Reconcile,
                max_attempts: Some(3),
                lease_epoch: None,
            },
            Expect::OperationBegun {
                created: false,
                state: Some(OperationState::Succeeded),
                max_attempts: None,
                same_as: None,
            },
        ),
    );
    script.push(
        step(
            "replayed terminal completion",
            Call::CompleteOperation {
                conversation: 1,
                operation: IdArg::Of(3),
                outcome: OperationOutcome::Succeeded,
                detail: None,
                lease_epoch: None,
            },
            Expect::CompletedAs { state: OperationState::Succeeded },
        ),
    );
    script.push(
        step(
            "uncertain after terminal",
            Call::CompleteOperation {
                conversation: 1,
                operation: IdArg::Of(3),
                outcome: OperationOutcome::Uncertain,
                detail: None,
                lease_epoch: None,
            },
            Expect::CompletedAs { state: OperationState::Succeeded },
        ),
    );
    script.push(
        step(
            "conflicting completion",
            Call::CompleteOperation {
                conversation: 1,
                operation: IdArg::Of(3),
                outcome: OperationOutcome::Failed,
                detail: None,
                lease_epoch: None,
            },
            Expect::Fails,
        ),
    );
    script.push(
        step(
            "completion of an unknown operation",
            Call::CompleteOperation {
                conversation: 1,
                operation: IdArg::Unknown,
                outcome: OperationOutcome::Succeeded,
                detail: None,
                lease_epoch: None,
            },
            Expect::Fails,
        ),
    );
    script.push(
        step(
            "a key of another effect",
            Call::BeginOperation {
                conversation: 1,
                effect_kind: "adapter.react",
                idempotency_key: "send-1",
                recovery_policy: RecoveryPolicy::Retry,
                max_attempts: None,
                lease_epoch: None,
            },
            Expect::Fails,
        ),
    );
    script.push(
        step(
            "second intent",
            Call::BeginOperation {
                conversation: 1,
                effect_kind: "adapter.send",
                idempotency_key: "send-2",
                recovery_policy: RecoveryPolicy::Reconcile,
                max_attempts: Some(3),
                lease_epoch: None,
            },
            Expect::Succeeds,
        ),
    );
    script.push(
        step(
            "failed completion",
            Call::CompleteOperation {
                conversation: 1,
                operation: IdArg::Of(17),
                outcome: OperationOutcome::Failed,
                detail: Some("destination rejected the payload"),
                lease_epoch: None,
            },
            Expect::Succeeds,
        ),
    );
    script.push(
        step(
            "open operations after the failure",
            Call::OpenOperations { conversation: 1 },
            Expect::OperationCount { count: 0 },
        ),
    );
    script.push(
        step(
            "superseding begin",
            Call::BeginOperation {
                conversation: 1,
                effect_kind: "adapter.send",
                idempotency_key: "send-2",
                recovery_policy: RecoveryPolicy::Reconcile,
                max_attempts: Some(3),
                lease_epoch: None,
            },
            Expect::OperationSupersedes { operation: 17 },
        ),
    );
    script.push(
        step(
            "operation events are not appended directly",
            Call::AddOperationCompleted {
                conversation: 1,
                operation: IdArg::Of(3),
                outcome: OperationOutcome::Failed,
            },
            Expect::Fails,
        ),
    );
    script.push(
        step(
            "intent events",
            Call::GetEvents {
                conversation: 1,
                turn: None,
                kind: Some(EventName::OperationIntent),
                ascending: false,
            },
            Expect::EventCount { count: 3 },
        ),
    );
    script.push(
        step(
            "completion events",
            Call::GetEvents {
                conversation: 1,
                turn: None,
                kind: Some(EventName::OperationCompleted),
                ascending: false,
            },
            Expect::EventCount { count: 3 },
        ),
    );
    script
}

} // verus!
