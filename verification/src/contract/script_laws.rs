//! What a harness has shown that passed a script, told by its replies.

use vstd::prelude::*;

use super::conversations;
use super::leases;
use super::operations;
use super::run;
use super::script::{self, EventName, Kept, OperationState, Reply, Step};

verus! {

/// Whether a harness passed a script with these replies: every step was
/// answered as it has to be.
pub open spec fn passed(script: Seq<Step>, replies: Seq<Reply>) -> bool {
    replies.len() == script.len() && run::all_met(script, replies)
}

/// Every step of a script that was passed is met, and what was kept before it
/// is what came back.
proof fn a_step_was_met(script: Seq<Step>, replies: Seq<Reply>, i: int) -> (kept: Seq<Kept>)
    requires
        passed(script, replies),
        0 <= i < script.len(),
    ensures
        script::is_met(script[i].expect, kept, replies[i]),
        kept.len() == i,
        forall|j: int| 0 <= j < i ==> #[trigger] kept[j] == script::kept_of(replies[j]),
{
    let kept = run::kept_before(replies, i);
    assert(script::is_met(script[i].expect, kept, replies[i]));
    kept
}

/// Whether a reply grants a lease at an epoch.
pub open spec fn grants(reply: Reply, epoch: int) -> bool {
    reply matches Reply::Lease { acquired: true, lease } && lease.epoch == epoch
}

/// Whether a reply says that an operation was begun anew.
pub open spec fn begins_anew(reply: Reply) -> bool {
    reply matches Reply::Begun { created: true, .. }
}

/// Whether a reply says that an operation is in a state.
pub open spec fn completes_as(reply: Reply, state: OperationState) -> bool {
    reply matches Reply::Completed { operation } && operation.state == state
}

/// Whether a reply lists so many operations.
pub open spec fn lists_operations(reply: Reply, count: int) -> bool {
    reply matches Reply::Operations { operations } && operations.len() == count
}

/// One writer holds a conversation: the first to ask is granted epoch 1, and the
/// same lease when it asks again; another is refused and told who holds it. The
/// lease is live, and a renewal does not shorten it.
pub proof fn a_passing_harness_leases_to_one(replies: Seq<Reply>)
    requires
        passed(leases::lease_steps(), replies),
    ensures
        replies.len() == 40,
        grants(replies[2], 1),
        grants(replies[3], 1),
        replies[3]->Lease_lease.lease_id == replies[2]->Lease_lease.lease_id,
        replies[4] matches Reply::Lease { acquired: false, lease } && lease.holder@
            == "activation-a"@,
        replies[5] == (Reply::CurrentLease { held: true }),
        replies[6] matches Reply::Renewed { expires_at } && crate::clock::is_not_before(
            expires_at,
            replies[2]->Lease_lease.expires_at,
        ),
{
    let steps = leases::lease_steps();
    a_step_was_met(steps, replies, 2);
    let k3 = a_step_was_met(steps, replies, 3);
    a_step_was_met(steps, replies, 4);
    a_step_was_met(steps, replies, 5);
    let k6 = a_step_was_met(steps, replies, 6);
    assert(k3[2] == script::kept_of(replies[2]));
    assert(k6[2] == script::kept_of(replies[2]));
}

/// What others start is refused: a renewal, a beginning or a release under
/// another epoch, and a beginning or a turn without one, while work under the
/// epoch goes on and is recorded under it.
pub proof fn a_passing_harness_fences(replies: Seq<Reply>)
    requires
        passed(leases::lease_steps(), replies),
    ensures
        replies[7] is Failed,
        replies[8] is Failed,
        replies[9] is Failed,
        begins_anew(replies[10]),
        replies[11] matches Reply::Completed { operation } && operation.completion_epoch == Some(
            1u64,
        ),
        replies[12] is Failed,
        !(replies[13] is Failed),
        !(replies[14] is Failed),
        !(replies[15] is Failed),
        replies[16] is Failed,
{
    let steps = leases::lease_steps();
    a_step_was_met(steps, replies, 7);
    a_step_was_met(steps, replies, 8);
    a_step_was_met(steps, replies, 9);
    a_step_was_met(steps, replies, 10);
    a_step_was_met(steps, replies, 11);
    a_step_was_met(steps, replies, 12);
    a_step_was_met(steps, replies, 13);
    a_step_was_met(steps, replies, 14);
    a_step_was_met(steps, replies, 15);
    a_step_was_met(steps, replies, 16);
}

/// Epochs are never used again: a lease is released once and for all, the next
/// is at epoch 2 and the one after at epoch 3, and what a superseded holder had
/// begun can be recorded and no longer gone on with.
pub proof fn a_passing_harness_never_reuses_an_epoch(replies: Seq<Reply>)
    requires
        passed(leases::lease_steps(), replies),
    ensures
        replies[17] == (Reply::Released { released: true }),
        replies[18] == (Reply::Released { released: true }),
        replies[19] == (Reply::CurrentLease { held: false }),
        begins_anew(replies[20]),
        grants(replies[21], 2),
        !(replies[22] is Failed),
        !(replies[23] is Failed),
        !(replies[24] is Failed),
        replies[25] matches Reply::Lease { lease, .. } && lease.epoch == 3,
        replies[26] is Failed,
        replies[27] matches Reply::Completed { operation } && operation.completion_epoch == Some(
            2u64,
        ),
{
    let steps = leases::lease_steps();
    a_step_was_met(steps, replies, 17);
    a_step_was_met(steps, replies, 18);
    a_step_was_met(steps, replies, 19);
    a_step_was_met(steps, replies, 20);
    a_step_was_met(steps, replies, 21);
    a_step_was_met(steps, replies, 22);
    a_step_was_met(steps, replies, 23);
    a_step_was_met(steps, replies, 24);
    a_step_was_met(steps, replies, 25);
    a_step_was_met(steps, replies, 26);
    a_step_was_met(steps, replies, 27);
}

/// A new lease stops what went on without one, and a lease that ran out is gone:
/// it is not live, cannot be renewed, and the next one follows it by one epoch.
pub proof fn a_passing_harness_lets_leases_run_out(replies: Seq<Reply>)
    requires
        passed(leases::lease_steps(), replies),
    ensures
        !(replies[29] is Failed),
        !(replies[30] is Failed),
        replies[31] matches Reply::Lease { acquired: true, .. },
        replies[32] is Failed,
        !(replies[33] is Failed),
        replies[34] matches Reply::Lease { acquired: true, .. },
        replies[36] == (Reply::CurrentLease { held: false }),
        replies[37] is Failed,
        grants(replies[38], replies[34]->Lease_lease.epoch + 1),
        replies[39] is Failed,
{
    let steps = leases::lease_steps();
    a_step_was_met(steps, replies, 29);
    a_step_was_met(steps, replies, 30);
    a_step_was_met(steps, replies, 31);
    a_step_was_met(steps, replies, 32);
    a_step_was_met(steps, replies, 33);
    a_step_was_met(steps, replies, 34);
    a_step_was_met(steps, replies, 36);
    a_step_was_met(steps, replies, 37);
    let k38 = a_step_was_met(steps, replies, 38);
    a_step_was_met(steps, replies, 39);
    assert(k38[34] == script::kept_of(replies[34]));
}

/// The journal of operations keeps an intent open until it is settled: one that
/// is begun again under its key is the same one, an uncertain completion leaves
/// it open, and a completion that settles it closes it.
pub proof fn a_passing_harness_keeps_intents_open(replies: Seq<Reply>)
    requires
        passed(operations::operation_steps(), replies),
    ensures
        replies.len() == 24,
        lists_operations(replies[2], 0),
        begins_anew(replies[3]),
        replies[3]->Begun_operation.state == OperationState::Open,
        replies[3]->Begun_operation.max_attempts == Some(3u32),
        replies[4] matches Reply::Operations { operations } && operations.len() == 1
            && operations@[0].operation_id == replies[3]->Begun_operation.operation_id,
        replies[5] matches Reply::Begun { created: false, operation } && operation.operation_id
            == replies[3]->Begun_operation.operation_id,
        completes_as(replies[6], OperationState::Uncertain),
        lists_operations(replies[7], 1),
        completes_as(replies[8], OperationState::Uncertain),
        completes_as(replies[9], OperationState::Succeeded),
        lists_operations(replies[10], 0),
{
    let steps = operations::operation_steps();
    a_step_was_met(steps, replies, 2);
    a_step_was_met(steps, replies, 3);
    let k4 = a_step_was_met(steps, replies, 4);
    let k5 = a_step_was_met(steps, replies, 5);
    a_step_was_met(steps, replies, 6);
    a_step_was_met(steps, replies, 7);
    a_step_was_met(steps, replies, 8);
    a_step_was_met(steps, replies, 9);
    a_step_was_met(steps, replies, 10);
    assert(k4[3] == script::kept_of(replies[3]));
    assert(k5[3] == script::kept_of(replies[3]));
}

/// What is settled stays settled: a begin under its key names the settled one, a
/// completion that was made before or is uncertain changes nothing, and one that
/// conflicts is refused. A failed one is superseded by a new one of its own.
pub proof fn a_passing_harness_keeps_operations_settled(replies: Seq<Reply>)
    requires
        passed(operations::operation_steps(), replies),
    ensures
        replies[11] matches Reply::Begun { created: false, operation } && operation.state
            == OperationState::Succeeded,
        completes_as(replies[12], OperationState::Succeeded),
        completes_as(replies[13], OperationState::Succeeded),
        replies[14] is Failed,
        replies[15] is Failed,
        replies[16] is Failed,
        !(replies[17] is Failed),
        !(replies[18] is Failed),
        lists_operations(replies[19], 0),
        replies[20] matches Reply::Begun { created: true, operation } && (script::kept_of(
            replies[17],
        ).id matches Some(old_one) && operation.supersedes == Some(old_one)
            && operation.operation_id != old_one),
        replies[21] is Failed,
        replies[22] matches Reply::Events { events } && events.len() == 3,
        replies[23] matches Reply::Events { events } && events.len() == 3,
{
    let steps = operations::operation_steps();
    a_step_was_met(steps, replies, 11);
    a_step_was_met(steps, replies, 12);
    a_step_was_met(steps, replies, 13);
    a_step_was_met(steps, replies, 14);
    a_step_was_met(steps, replies, 15);
    a_step_was_met(steps, replies, 16);
    a_step_was_met(steps, replies, 17);
    a_step_was_met(steps, replies, 18);
    a_step_was_met(steps, replies, 19);
    let k20 = a_step_was_met(steps, replies, 20);
    a_step_was_met(steps, replies, 21);
    a_step_was_met(steps, replies, 22);
    a_step_was_met(steps, replies, 23);
    assert(k20[17] == script::kept_of(replies[17]));
}

/// Whether a reply lists what an earlier one made.
pub open spec fn lists_made(reply: Reply, made: Reply) -> bool {
    reply matches Reply::Listed { ids, .. } && (script::kept_of(made).id matches Some(id)
        && ids@.contains(id))
}

/// Threads and conversations are one thing: what is made by one name is found,
/// listed and deleted by the other, and its first event says that it was made.
pub proof fn a_passing_harness_has_one_kind_of_thread(replies: Seq<Reply>)
    requires
        passed(conversations::thread_steps(), replies),
    ensures
        replies.len() == 12,
        !(replies[1] is Failed),
        replies[2] matches Reply::Events { events } && script::has_event(
            events@,
            EventName::ThreadCreated,
        ),
        replies[3] matches Reply::Events { events } && script::has_event(
            events@,
            EventName::ThreadCreated,
        ),
        replies[4] matches Reply::Events { events } && script::has_event(
            events@,
            EventName::ThreadCreated,
        ),
        replies[5] == (Reply::Found { found: true }),
        lists_made(replies[6], replies[1]),
        !(replies[7] is Failed),
        replies[8] == (Reply::Found { found: true }),
        lists_made(replies[9], replies[7]),
        replies[10] == (Reply::Deleted { deleted: true }),
        replies[11] == (Reply::Deleted { deleted: true }),
{
    let steps = conversations::thread_steps();
    a_step_was_met(steps, replies, 1);
    let k2 = a_step_was_met(steps, replies, 2);
    a_step_was_met(steps, replies, 3);
    a_step_was_met(steps, replies, 4);
    a_step_was_met(steps, replies, 5);
    let k6 = a_step_was_met(steps, replies, 6);
    a_step_was_met(steps, replies, 7);
    a_step_was_met(steps, replies, 8);
    let k9 = a_step_was_met(steps, replies, 9);
    a_step_was_met(steps, replies, 10);
    a_step_was_met(steps, replies, 11);
    assert(k6[1] == script::kept_of(replies[1]));
    assert(k9[7] == script::kept_of(replies[7]));
    if let Reply::Events { events } = replies[2] {
        let i = choose|i: int| #[trigger]
            script::is_first_event(events@, EventName::ThreadCreated, i) && script::is_id_of(
                k2,
                1,
                events@[i].thread_id,
            ) && events@[i].kind == EventName::ThreadCreated;
        assert(events@[i].data == EventName::ThreadCreated);
    }
}

/// Agents and conversations are made, listed and deleted, and a deleted agent's
/// slug can be used again.
pub proof fn a_passing_harness_makes_lists_and_deletes(replies: Seq<Reply>)
    requires
        passed(conversations::crud_steps(), replies),
    ensures
        replies.len() == 9,
        replies[2] matches Reply::Events { events } && script::has_event(
            events@,
            EventName::ThreadCreated,
        ),
        lists_made(replies[3], replies[0]),
        lists_made(replies[4], replies[1]),
        replies[5] == (Reply::Deleted { deleted: true }),
        replies[6] == (Reply::Deleted { deleted: true }),
        !(replies[7] is Failed),
        replies[8] == (Reply::Deleted { deleted: true }),
{
    let steps = conversations::crud_steps();
    a_step_was_met(steps, replies, 2);
    let k3 = a_step_was_met(steps, replies, 3);
    let k4 = a_step_was_met(steps, replies, 4);
    a_step_was_met(steps, replies, 5);
    a_step_was_met(steps, replies, 6);
    a_step_was_met(steps, replies, 7);
    a_step_was_met(steps, replies, 8);
    assert(k3[0] == script::kept_of(replies[0]));
    assert(k4[1] == script::kept_of(replies[1]));
}

/// Conversations are listed with the latest touched first: of three, the one
/// that was touched last and the one that was made last are on the first page,
/// in that order, with a cursor; the other is alone on the last one.
pub proof fn a_passing_harness_lists_recent_first(replies: Seq<Reply>)
    requires
        passed(conversations::listing_steps(), replies),
    ensures
        replies.len() == 10,
        !(replies[7] is Failed),
        replies[8] matches Reply::Listed { ids, next_cursor } && ids.len() == 2 && next_cursor
            is Some && script::kept_of(replies[1]).id == Some(ids@[0]) && script::kept_of(
            replies[5],
        ).id == Some(ids@[1]) && next_cursor == script::kept_of(replies[5]).cursor,
        replies[9] matches Reply::Listed { ids, next_cursor } && ids.len() == 1 && next_cursor
            is None && script::kept_of(replies[3]).id == Some(ids@[0]),
{
    let steps = conversations::listing_steps();
    a_step_was_met(steps, replies, 7);
    let k8 = a_step_was_met(steps, replies, 8);
    let k9 = a_step_was_met(steps, replies, 9);
    assert(k8[1] == script::kept_of(replies[1]));
    assert(k8[5] == script::kept_of(replies[5]));
    assert(k9[3] == script::kept_of(replies[3]));
}

/// A turn records its session, its start, its messages and its end, which is its
/// last event.
pub proof fn a_passing_harness_records_whole_turns(replies: Seq<Reply>)
    requires
        passed(conversations::turn_steps(), replies),
    ensures
        replies.len() == 6,
        !(replies[2] is Failed),
        !(replies[3] is Failed),
        !(replies[4] is Failed),
        replies[5] matches Reply::Events { events } && script::has_event(
            events@,
            EventName::SessionStarted,
        ) && script::has_event(events@, EventName::TurnStarted) && script::count_events(
            events@,
            EventName::Messages,
        ) >= 2 && script::has_event(events@, EventName::TurnEnded) && script::kept_of(
            replies[4],
        ).id == Some(events@.last().id),
{
    let steps = conversations::turn_steps();
    a_step_was_met(steps, replies, 2);
    a_step_was_met(steps, replies, 3);
    a_step_was_met(steps, replies, 4);
    let k5 = a_step_was_met(steps, replies, 5);
    assert(k5[4] == script::kept_of(replies[4]));
}

/// An artifact that is written in a turn belongs to the turn and its session,
/// and the turn goes on after it.
pub proof fn a_passing_harness_keeps_artifacts_in_turns(replies: Seq<Reply>)
    requires
        passed(conversations::artifact_steps(), replies),
    ensures
        replies.len() == 7,
        !(replies[3] is Failed),
        !(replies[4] is Failed),
        !(replies[5] is Failed),
        replies[6] matches Reply::Events { events } && events.len() > 0 && events@[0].turn_id
            is Some && events@[0].turn_id == script::kept_of(replies[2]).id
            && events@[0].session_id is Some && events@[0].session_id == script::kept_of(
            replies[2],
        ).session_id,
{
    let steps = conversations::artifact_steps();
    a_step_was_met(steps, replies, 3);
    a_step_was_met(steps, replies, 4);
    a_step_was_met(steps, replies, 5);
    let k6 = a_step_was_met(steps, replies, 6);
    assert(k6[2] == script::kept_of(replies[2]));
}

/// A conversation's binding goes before its agent's, and a fork has the bindings
/// of what it was forked from and says that it is a fork.
pub proof fn a_passing_harness_scopes_bindings(replies: Seq<Reply>)
    requires
        passed(conversations::binding_steps(), replies),
    ensures
        replies.len() == 8,
        replies[4] matches Reply::Bindings { bindings } && exists|i: int| #[trigger]
            script::is_first_binding(bindings@, "OPENAI_API_KEY"@, i) && script::kept_of(
                replies[3],
            ).id == Some(bindings@[i].id),
        !(replies[5] is Failed),
        replies[6] matches Reply::Bindings { bindings } && script::has_binding(
            bindings@,
            "OPENAI_API_KEY"@,
        ),
        replies[7] matches Reply::Events { events } && script::has_event(
            events@,
            EventName::ThreadForked,
        ),
{
    let steps = conversations::binding_steps();
    let k4 = a_step_was_met(steps, replies, 4);
    a_step_was_met(steps, replies, 5);
    a_step_was_met(steps, replies, 6);
    a_step_was_met(steps, replies, 7);
    assert(k4[3] == script::kept_of(replies[3]));
    if let Reply::Bindings { bindings } = replies[4] {
        let i = choose|i: int| #[trigger]
            script::is_first_binding(bindings@, "OPENAI_API_KEY"@, i) && script::is_id_of(
                k4,
                3,
                bindings@[i].id,
            );
        assert(script::is_first_binding(bindings@, "OPENAI_API_KEY"@, i));
    }
}

} // verus!
