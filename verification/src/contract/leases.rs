//! What a conversation's lease has to keep.

use vstd::prelude::*;

use super::script::{step, Call, EpochArg, Expect, IdArg, OperationOutcome, RecoveryPolicy, Step};

verus! {

/// The steps of [`turn_leases_enforce_single_writer_with_epoch_fencing`].
pub open spec fn lease_steps() -> Seq<Step> {
    seq![
        step("agent", Call::NewAgent { slug_prefix: "agent", name: "Agent" }, Expect::Succeeds),
        step("conversation", Call::NewPlainConversation { agent: 0 }, Expect::Succeeds),
        step(
            "first acquire",
            Call::AcquireLease { conversation: 1, holder: "activation-a", ttl_ms: 60_000 },
            Expect::LeaseGranted { epoch: Some(1), same_as: None },
        ),
        step(
            "idempotent acquire",
            Call::AcquireLease { conversation: 1, holder: "activation-a", ttl_ms: 60_000 },
            Expect::LeaseGranted { epoch: Some(1), same_as: Some(2) },
        ),
        step(
            "competing acquire",
            Call::AcquireLease { conversation: 1, holder: "activation-b", ttl_ms: 60_000 },
            Expect::LeaseHeldBy { holder: "activation-a" },
        ),
        step(
            "current lease",
            Call::CurrentLease { conversation: 1 },
            Expect::LeaseIsLive { live: true },
        ),
        step(
            "renew",
            Call::RenewLease {
                conversation: 1,
                lease: IdArg::Of(2),
                epoch: EpochArg::Exactly(1),
                ttl_ms: 60_000,
            },
            Expect::RenewedNotBefore { lease: 2 },
        ),
        step(
            "renew under a stale epoch",
            Call::RenewLease {
                conversation: 1,
                lease: IdArg::Of(2),
                epoch: EpochArg::Exactly(2),
                ttl_ms: 60_000,
            },
            Expect::Fails,
        ),
        step(
            "begin without the epoch",
            Call::BeginOperation {
                conversation: 1,
                effect_kind: "adapter.send",
                idempotency_key: "op-1",
                recovery_policy: RecoveryPolicy::Reconcile,
                max_attempts: None,
                lease_epoch: None,
            },
            Expect::Fails,
        ),
        step(
            "begin under a stale epoch",
            Call::BeginOperation {
                conversation: 1,
                effect_kind: "adapter.send",
                idempotency_key: "op-1",
                recovery_policy: RecoveryPolicy::Reconcile,
                max_attempts: None,
                lease_epoch: Some(EpochArg::Exactly(2)),
            },
            Expect::Fails,
        ),
        step(
            "fenced begin",
            Call::BeginOperation {
                conversation: 1,
                effect_kind: "adapter.send",
                idempotency_key: "op-1",
                recovery_policy: RecoveryPolicy::Reconcile,
                max_attempts: None,
                lease_epoch: Some(EpochArg::Exactly(1)),
            },
            Expect::OperationBegun {
                created: true,
                state: None,
                max_attempts: None,
                same_as: None,
            },
        ),
        step(
            "fenced completion",
            Call::CompleteOperation {
                conversation: 1,
                operation: IdArg::Of(10),
                outcome: OperationOutcome::Succeeded,
                detail: None,
                lease_epoch: Some(EpochArg::Exactly(1)),
            },
            Expect::CompletedUnder { epoch: 1 },
        ),
        step(
            "turn without the epoch",
            Call::BeginTurn { conversation: 1, input: "fenced?", lease_epoch: None },
            Expect::Fails,
        ),
        step(
            "fenced turn",
            Call::BeginTurn {
                conversation: 1,
                input: "fenced",
                lease_epoch: Some(EpochArg::Exactly(1)),
            },
            Expect::Succeeds,
        ),
        step(
            "fenced turn commit",
            Call::AddTurnMessage { turn: 13, text: "ack" },
            Expect::Succeeds,
        ),
        step("fenced turn finish", Call::FinishTurn { turn: 13 }, Expect::Succeeds),
        step(
            "release under a stale epoch",
            Call::ReleaseLease {
                conversation: 1,
                lease: IdArg::Of(2),
                epoch: EpochArg::Exactly(2),
            },
            Expect::Fails,
        ),
        step(
            "release",
            Call::ReleaseLease {
                conversation: 1,
                lease: IdArg::Of(2),
                epoch: EpochArg::Exactly(1),
            },
            Expect::LeaseReleased,
        ),
        step(
            "release replay",
            Call::ReleaseLease {
                conversation: 1,
                lease: IdArg::Of(2),
                epoch: EpochArg::Exactly(1),
            },
            Expect::LeaseReleased,
        ),
        step(
            "current lease after release",
            Call::CurrentLease { conversation: 1 },
            Expect::LeaseIsLive { live: false },
        ),
        step(
            "unfenced begin after release",
            Call::BeginOperation {
                conversation: 1,
                effect_kind: "adapter.send",
                idempotency_key: "op-2",
                recovery_policy: RecoveryPolicy::Reconcile,
                max_attempts: None,
                lease_epoch: None,
            },
            Expect::OperationBegun {
                created: true,
                state: None,
                max_attempts: None,
                same_as: None,
            },
        ),
        step(
            "second acquire",
            Call::AcquireLease { conversation: 1, holder: "activation-b", ttl_ms: 60_000 },
            Expect::LeaseGranted { epoch: Some(2), same_as: None },
        ),
        step(
            "turn under epoch 2",
            Call::BeginTurn {
                conversation: 1,
                input: "zombie",
                lease_epoch: Some(EpochArg::Exactly(2)),
            },
            Expect::Succeeds,
        ),
        step(
            "operation under epoch 2",
            Call::BeginOperation {
                conversation: 1,
                effect_kind: "adapter.send",
                idempotency_key: "op-3",
                recovery_policy: RecoveryPolicy::Reconcile,
                max_attempts: None,
                lease_epoch: Some(EpochArg::Exactly(2)),
            },
            Expect::Succeeds,
        ),
        step(
            "release epoch 2",
            Call::ReleaseLease {
                conversation: 1,
                lease: IdArg::Of(21),
                epoch: EpochArg::Exactly(2),
            },
            Expect::Succeeds,
        ),
        step(
            "third acquire",
            Call::AcquireLease { conversation: 1, holder: "activation-c", ttl_ms: 60_000 },
            Expect::LeaseEpoch { epoch: 3 },
        ),
        step(
            "commit of a superseded turn",
            Call::AddTurnMessage { turn: 22, text: "too late" },
            Expect::Fails,
        ),
        step(
            "superseded activation's completion is still recorded",
            Call::CompleteOperation {
                conversation: 1,
                operation: IdArg::Of(23),
                outcome: OperationOutcome::Uncertain,
                detail: Some("superseded mid-send"),
                lease_epoch: Some(EpochArg::Exactly(2)),
            },
            Expect::CompletedUnder { epoch: 2 },
        ),
        step("preemption conversation", Call::NewPlainConversation { agent: 0 }, Expect::Succeeds),
        step(
            "pre-lease turn",
            Call::BeginTurn { conversation: 28, input: "unfenced", lease_epoch: None },
            Expect::Succeeds,
        ),
        step(
            "pre-lease commit",
            Call::AddTurnMessage { turn: 29, text: "still unleased" },
            Expect::Succeeds,
        ),
        step(
            "preempting acquire",
            Call::AcquireLease { conversation: 28, holder: "activation-p", ttl_ms: 60_000 },
            Expect::LeaseGranted { epoch: None, same_as: None },
        ),
        step(
            "a new lease preempts the pre-lease turn at its next commit",
            Call::AddTurnMessage { turn: 29, text: "preempted" },
            Expect::Fails,
        ),
        step(
            "release preemptor",
            Call::ReleaseLease { conversation: 28, lease: IdArg::Of(31), epoch: EpochArg::Of(31) },
            Expect::Succeeds,
        ),
        step(
            "brief acquire",
            Call::AcquireLease { conversation: 28, holder: "activation-q", ttl_ms: 80 },
            Expect::LeaseGranted { epoch: None, same_as: None },
        ),
        step("wait out the brief lease", Call::Sleep { millis: 160 }, Expect::Succeeds),
        step(
            "an expired lease is not live",
            Call::CurrentLease { conversation: 28 },
            Expect::LeaseIsLive { live: false },
        ),
        step(
            "an expired lease cannot be renewed back to life",
            Call::RenewLease {
                conversation: 28,
                lease: IdArg::Of(34),
                epoch: EpochArg::Of(34),
                ttl_ms: 60_000,
            },
            Expect::Fails,
        ),
        step(
            "takeover acquire",
            Call::AcquireLease { conversation: 28, holder: "activation-r", ttl_ms: 60_000 },
            Expect::LeaseFollows { lease: 34 },
        ),
        step(
            "lease events are not appended directly",
            Call::AddLeaseReleased {
                conversation: 28,
                lease: IdArg::Of(38),
                epoch: EpochArg::Of(38),
            },
            Expect::Fails,
        ),
    ]
}

/// One writer at a time holds a conversation, under an epoch that is never used again, and what others start is refused.
pub fn turn_leases_enforce_single_writer_with_epoch_fencing() -> (script: Vec<Step>)
    ensures
        script@ == lease_steps(),
{
    let mut script: Vec<Step> = Vec::new();
    script.push(
        step("agent", Call::NewAgent { slug_prefix: "agent", name: "Agent" }, Expect::Succeeds),
    );
    script.push(step("conversation", Call::NewPlainConversation { agent: 0 }, Expect::Succeeds));
    script.push(
        step(
            "first acquire",
            Call::AcquireLease { conversation: 1, holder: "activation-a", ttl_ms: 60_000 },
            Expect::LeaseGranted { epoch: Some(1), same_as: None },
        ),
    );
    script.push(
        step(
            "idempotent acquire",
            Call::AcquireLease { conversation: 1, holder: "activation-a", ttl_ms: 60_000 },
            Expect::LeaseGranted { epoch: Some(1), same_as: Some(2) },
        ),
    );
    script.push(
        step(
            "competing acquire",
            Call::AcquireLease { conversation: 1, holder: "activation-b", ttl_ms: 60_000 },
            Expect::LeaseHeldBy { holder: "activation-a" },
        ),
    );
    script.push(
        step(
            "current lease",
            Call::CurrentLease { conversation: 1 },
            Expect::LeaseIsLive { live: true },
        ),
    );
    script.push(
        step(
            "renew",
            Call::RenewLease {
                conversation: 1,
                lease: IdArg::Of(2),
                epoch: EpochArg::Exactly(1),
                ttl_ms: 60_000,
            },
            Expect::RenewedNotBefore { lease: 2 },
        ),
    );
    script.push(
        step(
            "renew under a stale epoch",
            Call::RenewLease {
                conversation: 1,
                lease: IdArg::Of(2),
                epoch: EpochArg::Exactly(2),
                ttl_ms: 60_000,
            },
            Expect::Fails,
        ),
    );
    script.push(
        step(
            "begin without the epoch",
            Call::BeginOperation {
                conversation: 1,
                effect_kind: "adapter.send",
                idempotency_key: "op-1",
                recovery_policy: RecoveryPolicy::Reconcile,
                max_attempts: None,
                lease_epoch: None,
            },
            Expect::Fails,
        ),
    );
    script.push(
        step(
            "begin under a stale epoch",
            Call::BeginOperation {
                conversation: 1,
                effect_kind: "adapter.send",
                idempotency_key: "op-1",
                recovery_policy: RecoveryPolicy::Reconcile,
                max_attempts: None,
                lease_epoch: Some(EpochArg::Exactly(2)),
            },
            Expect::Fails,
        ),
    );
    script.push(
        step(
            "fenced begin",
            Call::BeginOperation {
                conversation: 1,
                effect_kind: "adapter.send",
                idempotency_key: "op-1",
                recovery_policy: RecoveryPolicy::Reconcile,
                max_attempts: None,
                lease_epoch: Some(EpochArg::Exactly(1)),
            },
            Expect::OperationBegun {
                created: true,
                state: None,
                max_attempts: None,
                same_as: None,
            },
        ),
    );
    script.push(
        step(
            "fenced completion",
            Call::CompleteOperation {
                conversation: 1,
                operation: IdArg::Of(10),
                outcome: OperationOutcome::Succeeded,
                detail: None,
                lease_epoch: Some(EpochArg::Exactly(1)),
            },
            Expect::CompletedUnder { epoch: 1 },
        ),
    );
    script.push(
        step(
            "turn without the epoch",
            Call::BeginTurn { conversation: 1, input: "fenced?", lease_epoch: None },
            Expect::Fails,
        ),
    );
    script.push(
        step(
            "fenced turn",
            Call::BeginTurn {
                conversation: 1,
                input: "fenced",
                lease_epoch: Some(EpochArg::Exactly(1)),
            },
            Expect::Succeeds,
        ),
    );
    script.push(
        step(
            "fenced turn commit",
            Call::AddTurnMessage { turn: 13, text: "ack" },
            Expect::Succeeds,
        ),
    );
    script.push(step("fenced turn finish", Call::FinishTurn { turn: 13 }, Expect::Succeeds));
    script.push(
        step(
            "release under a stale epoch",
            Call::ReleaseLease {
                conversation: 1,
                lease: IdArg::Of(2),
                epoch: EpochArg::Exactly(2),
            },
            Expect::Fails,
        ),
    );
    script.push(
        step(
            "release",
            Call::ReleaseLease {
                conversation: 1,
                lease: IdArg::Of(2),
                epoch: EpochArg::Exactly(1),
            },
            Expect::LeaseReleased,
        ),
    );
    script.push(
        step(
            "release replay",
            Call::ReleaseLease {
                conversation: 1,
                lease: IdArg::Of(2),
                epoch: EpochArg::Exactly(1),
            },
            Expect::LeaseReleased,
        ),
    );
    script.push(
        step(
            "current lease after release",
            Call::CurrentLease { conversation: 1 },
            Expect::LeaseIsLive { live: false },
        ),
    );
    script.push(
        step(
            "unfenced begin after release",
            Call::BeginOperation {
                conversation: 1,
                effect_kind: "adapter.send",
                idempotency_key: "op-2",
                recovery_policy: RecoveryPolicy::Reconcile,
                max_attempts: None,
                lease_epoch: None,
            },
            Expect::OperationBegun {
                created: true,
                state: None,
                max_attempts: None,
                same_as: None,
            },
        ),
    );
    script.push(
        step(
            "second acquire",
            Call::AcquireLease { conversation: 1, holder: "activation-b", ttl_ms: 60_000 },
            Expect::LeaseGranted { epoch: Some(2), same_as: None },
        ),
    );
    script.push(
        step(
            "turn under epoch 2",
            Call::BeginTurn {
                conversation: 1,
                input: "zombie",
                lease_epoch: Some(EpochArg::Exactly(2)),
            },
            Expect::Succeeds,
        ),
    );
    script.push(
        step(
            "operation under epoch 2",
            Call::BeginOperation {
                conversation: 1,
                effect_kind: "adapter.send",
                idempotency_key: "op-3",
                recovery_policy: RecoveryPolicy::Reconcile,
                max_attempts: None,
                lease_epoch: Some(EpochArg::Exactly(2)),
            },
            Expect::Succeeds,
        ),
    );
    script.push(
        step(
            "release epoch 2",
            Call::ReleaseLease {
                conversation: 1,
                lease: IdArg::Of(21),
                epoch: EpochArg::Exactly(2),
            },
            Expect::Succeeds,
        ),
    );
    script.push(
        step(
            "third acquire",
            Call::AcquireLease { conversation: 1, holder: "activation-c", ttl_ms: 60_000 },
            Expect::LeaseEpoch { epoch: 3 },
        ),
    );
    script.push(
        step(
            "commit of a superseded turn",
            Call::AddTurnMessage { turn: 22, text: "too late" },
            Expect::Fails,
        ),
    );
    script.push(
        step(
            "superseded activation's completion is still recorded",
            Call::CompleteOperation {
                conversation: 1,
                operation: IdArg::Of(23),
                outcome: OperationOutcome::Uncertain,
                detail: Some("superseded mid-send"),
                lease_epoch: Some(EpochArg::Exactly(2)),
            },
            Expect::CompletedUnder { epoch: 2 },
        ),
    );
    script.push(
        step("preemption conversation", Call::NewPlainConversation { agent: 0 }, Expect::Succeeds),
    );
    script.push(
        step(
            "pre-lease turn",
            Call::BeginTurn { conversation: 28, input: "unfenced", lease_epoch: None },
            Expect::Succeeds,
        ),
    );
    script.push(
        step(
            "pre-lease commit",
            Call::AddTurnMessage { turn: 29, text: "still unleased" },
            Expect::Succeeds,
        ),
    );
    script.push(
        step(
            "preempting acquire",
            Call::AcquireLease { conversation: 28, holder: "activation-p", ttl_ms: 60_000 },
            Expect::LeaseGranted { epoch: None, same_as: None },
        ),
    );
    script.push(
        step(
            "a new lease preempts the pre-lease turn at its next commit",
            Call::AddTurnMessage { turn: 29, text: "preempted" },
            Expect::Fails,
        ),
    );
    script.push(
        step(
            "release preemptor",
            Call::ReleaseLease { conversation: 28, lease: IdArg::Of(31), epoch: EpochArg::Of(31) },
            Expect::Succeeds,
        ),
    );
    script.push(
        step(
            "brief acquire",
            Call::AcquireLease { conversation: 28, holder: "activation-q", ttl_ms: 80 },
            Expect::LeaseGranted { epoch: None, same_as: None },
        ),
    );
    script.push(step("wait out the brief lease", Call::Sleep { millis: 160 }, Expect::Succeeds));
    script.push(
        step(
            "an expired lease is not live",
            Call::CurrentLease { conversation: 28 },
            Expect::LeaseIsLive { live: false },
        ),
    );
    script.push(
        step(
            "an expired lease cannot be renewed back to life",
            Call::RenewLease {
                conversation: 28,
                lease: IdArg::Of(34),
                epoch: EpochArg::Of(34),
                ttl_ms: 60_000,
            },
            Expect::Fails,
        ),
    );
    script.push(
        step(
            "takeover acquire",
            Call::AcquireLease { conversation: 28, holder: "activation-r", ttl_ms: 60_000 },
            Expect::LeaseFollows { lease: 34 },
        ),
    );
    script.push(
        step(
            "lease events are not appended directly",
            Call::AddLeaseReleased {
                conversation: 28,
                lease: IdArg::Of(38),
                epoch: EpochArg::Of(38),
            },
            Expect::Fails,
        ),
    );
    script
}

} // verus!
