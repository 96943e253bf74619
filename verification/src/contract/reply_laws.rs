//! What a contract asks and which replies it takes, told by the replies
//! themselves.

use vstd::prelude::*;

use super::request::{self, Request};
use super::run;
use super::script::{
    self, Call, EpochArg, EventInfo, EventName, Expect, IdArg, Kept, Reply,
};
use crate::ids::Uuid7;

verus! {

/// Whether an id came back at a step.
pub open spec fn came_back(kept: Seq<Kept>, step: usize, id: Uuid7) -> bool {
    step < kept.len() && kept[step as int].id == Some(id)
}

/// A failure is taken where one has to come and nowhere else, and where nothing
/// else is asked for every other reply is.
pub proof fn failures_are_taken_where_expected(expect: Expect, kept: Seq<Kept>, reply: Reply)
    ensures
        script::is_met(expect, kept, Reply::Failed) <==> expect is Fails,
        script::is_met(Expect::Fails, kept, reply) <==> reply is Failed,
        script::is_met(Expect::Succeeds, kept, reply) <==> !(reply is Failed),
{
}

/// Which leases are taken: one that was granted, at the epoch asked for and the
/// same one where that is asked; one that was granted at the very next epoch; a
/// refusal that names the holder; one at an epoch.
pub proof fn leases_are_judged(
    kept: Seq<Kept>,
    reply: Reply,
    epoch: u64,
    step: usize,
    holder: &'static str,
)
    ensures
        script::is_met(Expect::LeaseGranted { epoch: None, same_as: None }, kept, reply) <==> (
        reply matches Reply::Lease { acquired: true, .. }),
        script::is_met(Expect::LeaseGranted { epoch: Some(epoch), same_as: None }, kept, reply)
            <==> (reply matches Reply::Lease { acquired: true, lease } && lease.epoch == epoch),
        script::is_met(Expect::LeaseGranted { epoch: None, same_as: Some(step) }, kept, reply)
            <==> (reply matches Reply::Lease { acquired: true, lease } && came_back(
            kept,
            step,
            lease.lease_id,
        )),
        script::is_met(
            Expect::LeaseGranted { epoch: Some(epoch), same_as: Some(step) },
            kept,
            reply,
        ) <==> (reply matches Reply::Lease { acquired: true, lease } && lease.epoch == epoch
            && came_back(kept, step, lease.lease_id)),
        script::is_met(Expect::LeaseFollows { lease: step }, kept, reply) <==> (
        reply matches Reply::Lease { acquired: true, lease } && step < kept.len() && lease.epoch
            == kept[step as int].epoch + 1),
        script::is_met(Expect::LeaseHeldBy { holder }, kept, reply) <==> (
        reply matches Reply::Lease { acquired: false, lease } && lease.holder@ == holder@),
        script::is_met(Expect::LeaseEpoch { epoch }, kept, reply) <==> (
        reply matches Reply::Lease { lease, .. } && lease.epoch == epoch),
{
}

/// Which lookups, renewals and releases of leases are taken: a renewal only with
/// a deadline that is not before the one the lease had.
pub proof fn lease_upkeep_is_judged(kept: Seq<Kept>, reply: Reply, live: bool, step: usize)
    ensures
        script::is_met(Expect::LeaseIsLive { live }, kept, reply) <==> reply == (
        Reply::CurrentLease { held: live }),
        script::is_met(Expect::LeaseReleased, kept, reply) <==> reply == (Reply::Released {
            released: true,
        }),
        script::is_met(Expect::RenewedNotBefore { lease: step }, kept, reply) <==> (
        reply matches Reply::Renewed { expires_at } && step < kept.len() && (
        kept[step as int].expires_at matches Some(before) && (expires_at.secs() > before.secs() || (
        expires_at.secs() == before.secs() && expires_at.nanos() >= before.nanos())))),
{
}

/// Which operations are taken.
pub proof fn operations_are_judged(
    kept: Seq<Kept>,
    reply: Reply,
    created: bool,
    state: script::OperationState,
    budget: u32,
    step: usize,
    epoch: u64,
    count: usize,
)
    ensures
        script::is_met(
            Expect::OperationBegun { created, state: None, max_attempts: None, same_as: None },
            kept,
            reply,
        ) <==> (reply matches Reply::Begun { created: made, .. } && made == created),
        script::is_met(
            Expect::OperationBegun {
                created,
                state: Some(state),
                max_attempts: None,
                same_as: None,
            },
            kept,
            reply,
        ) <==> (reply matches Reply::Begun { created: made, operation } && made == created
            && operation.state == state),
        script::is_met(
            Expect::OperationBegun {
                created,
                state: None,
                max_attempts: Some(budget),
                same_as: None,
            },
            kept,
            reply,
        ) <==> (reply matches Reply::Begun { created: made, operation } && made == created
            && operation.max_attempts == Some(budget)),
        script::is_met(
            Expect::OperationBegun {
                created,
                state: None,
                max_attempts: None,
                same_as: Some(step),
            },
            kept,
            reply,
        ) <==> (reply matches Reply::Begun { created: made, operation } && made == created
            && came_back(kept, step, operation.operation_id)),
        script::is_met(Expect::OperationSupersedes { operation: step }, kept, reply) <==> (
        reply matches Reply::Begun { created: true, operation } && !came_back(
            kept,
            step,
            operation.operation_id,
        ) && (operation.supersedes matches Some(old_one) && came_back(kept, step, old_one))),
        script::is_met(Expect::CompletedUnder { epoch }, kept, reply) <==> (
        reply matches Reply::Completed { operation } && operation.completion_epoch == Some(epoch)),
        script::is_met(Expect::CompletedAs { state }, kept, reply) <==> (
        reply matches Reply::Completed { operation } && operation.state == state),
        script::is_met(Expect::OperationCount { count }, kept, reply) <==> (
        reply matches Reply::Operations { operations } && operations.len() == count),
        script::is_met(Expect::OnlyOperation { operation: step }, kept, reply) <==> (
        reply matches Reply::Operations { operations } && operations.len() == 1 && came_back(
            kept,
            step,
            operations@[0].operation_id,
        )),
{
}

/// What is asked of an operation that was begun is asked together.
pub proof fn demands_on_an_operation_add_up(
    kept: Seq<Kept>,
    reply: Reply,
    created: bool,
    state: Option<script::OperationState>,
    budget: Option<u32>,
    step: Option<usize>,
)
    ensures
        script::is_met(
            Expect::OperationBegun { created, state, max_attempts: budget, same_as: step },
            kept,
            reply,
        ) <==> script::is_met(
            Expect::OperationBegun { created, state, max_attempts: None, same_as: None },
            kept,
            reply,
        ) && script::is_met(
            Expect::OperationBegun { created, state: None, max_attempts: budget, same_as: None },
            kept,
            reply,
        ) && script::is_met(
            Expect::OperationBegun { created, state: None, max_attempts: None, same_as: step },
            kept,
            reply,
        ),
{
}

/// Whether some id came back at a step and is among others.
pub open spec fn is_listed(kept: Seq<Kept>, step: usize, ids: Seq<Uuid7>) -> bool {
    exists|i: int| 0 <= i < ids.len() && came_back(kept, step, #[trigger] ids[i])
}

/// Which lookups and lists are taken: a page of two has the two in order and
/// the cursor behind the second, and the last page has one and no cursor.
pub proof fn listings_are_judged(kept: Seq<Kept>, reply: Reply, first: usize, second: usize)
    ensures
        script::is_met(Expect::IsFound, kept, reply) <==> reply == (Reply::Found { found: true }),
        script::is_met(Expect::IsDeleted, kept, reply) <==> reply == (Reply::Deleted {
            deleted: true,
        }),
        script::is_met(Expect::ListHolds { id: first }, kept, reply) <==> (
        reply matches Reply::Listed { ids, .. } && is_listed(kept, first, ids@)),
        script::is_met(Expect::PageOfTwo { first, second }, kept, reply) <==> (
        reply matches Reply::Listed { ids, next_cursor } && ids.len() == 2 && came_back(
            kept,
            first,
            ids@[0],
        ) && came_back(kept, second, ids@[1]) && next_cursor is Some && next_cursor
            == kept[second as int].cursor),
        script::is_met(Expect::LastPage { only: first }, kept, reply) <==> (
        reply matches Reply::Listed { ids, next_cursor } && ids.len() == 1 && came_back(
            kept,
            first,
            ids@[0],
        ) && next_cursor is None),
{
    if let Reply::Listed { ids, .. } = reply {
        if is_listed(kept, first, ids@) {
            let i = choose|i: int| 0 <= i < ids@.len() && came_back(kept, first, #[trigger] ids@[i]);
            assert(ids@.contains(ids@[i]));
        }
        if script::is_met(Expect::ListHolds { id: first }, kept, reply) {
            let id = script::id_at(kept, first)->0;
            let i = choose|i: int| 0 <= i < ids@.len() && ids@[i] == id;
            assert(came_back(kept, first, ids@[i]));
        }
    }
}

/// Whether some event holds this.
pub open spec fn holds(events: Seq<EventInfo>, data: EventName) -> bool {
    exists|i: int| 0 <= i < events.len() && (#[trigger] events[i]).data == data
}

/// Whether two different events hold this.
pub open spec fn holds_twice(events: Seq<EventInfo>, data: EventName) -> bool {
    exists|i: int, j: int|
        0 <= i < j < events.len() && (#[trigger] events[i]).data == data && (
        #[trigger] events[j]).data == data
}

/// An event that is counted once at least is there, and one that is counted
/// twice is there twice.
proof fn counted_events_are_there(events: Seq<EventInfo>, data: EventName)
    ensures
        script::count_events(events, data) >= 2 <==> holds_twice(events, data),
{
    let keep = |event: EventInfo| event.data == data;
    let from = crate::filters::kept_positions(events, keep);
    let kept = events.filter(keep);
    assert(kept.len() == from.len());
    if from.len() >= 2 {
        assert(from[0] < from[1]);
        assert((|i: int| keep(events[i]))(from[0]) && (|i: int| keep(events[i]))(from[1]));
        assert(events[from[0]].data == data && events[from[1]].data == data);
    }
    if holds_twice(events, data) {
        let (i, j) = choose|i: int, j: int|
            0 <= i < j < events.len() && (#[trigger] events[i]).data == data && (
            #[trigger] events[j]).data == data;
        assert((|i: int| keep(events[i]))(i) && (|i: int| keep(events[i]))(j));
        assert(from.contains(i) && from.contains(j));
        let a = choose|a: int| 0 <= a < from.len() && from[a] == i;
        let b = choose|b: int| 0 <= b < from.len() && from[b] == j;
        assert(a != b);
    }
}

/// Which events are taken: the events of a whole turn have its start and its
/// session's, two messages and its end, and end with the event that finished
/// it; a first event of a turn names the turn and its session.
pub proof fn events_are_judged(
    kept: Seq<Kept>,
    reply: Reply,
    data: EventName,
    count: usize,
    step: usize,
)
    ensures
        script::is_met(Expect::HasEvent { data }, kept, reply) <==> (reply matches Reply::Events {
            events,
        } && holds(events@, data)),
        script::is_met(Expect::EventCount { count }, kept, reply) <==> (
        reply matches Reply::Events { events } && events.len() == count),
        script::is_met(Expect::WholeTurn { finish: step }, kept, reply) <==> (
        reply matches Reply::Events { events } && holds(events@, EventName::SessionStarted)
            && holds(events@, EventName::TurnStarted) && holds_twice(events@, EventName::Messages)
            && holds(events@, EventName::TurnEnded) && came_back(kept, step, events@.last().id)),
        script::is_met(Expect::FirstEventOfTurn { turn: step }, kept, reply) <==> (
        reply matches Reply::Events { events } && events.len() > 0 && step < kept.len() && (
        events@[0].turn_id matches Some(turn) && came_back(kept, step, turn)) && (
        events@[0].session_id matches Some(session) && kept[step as int].session_id == Some(
            session,
        ))),
        script::is_met(Expect::CreationEventOf { thread: step }, kept, reply) <==> (
        reply matches Reply::Events { events } && exists|i: int| #[trigger]
            is_first(events@, EventName::ThreadCreated, i) && came_back(
                kept,
                step,
                events@[i].thread_id,
            ) && events@[i].kind == EventName::ThreadCreated),
{
    if let Reply::Events { events } = reply {
        counted_events_are_there(events@, EventName::Messages);
        if script::is_met(Expect::CreationEventOf { thread: step }, kept, reply) {
            let i = choose|i: int| #[trigger]
                script::is_first_event(events@, EventName::ThreadCreated, i) && script::is_id_of(
                    kept,
                    step,
                    events@[i].thread_id,
                ) && events@[i].kind == EventName::ThreadCreated;
            assert(is_first(events@, EventName::ThreadCreated, i));
        }
        if exists|i: int| #[trigger]
            is_first(events@, EventName::ThreadCreated, i) && came_back(
                kept,
                step,
                events@[i].thread_id,
            ) && events@[i].kind == EventName::ThreadCreated {
            let i = choose|i: int| #[trigger]
                is_first(events@, EventName::ThreadCreated, i) && came_back(
                    kept,
                    step,
                    events@[i].thread_id,
                ) && events@[i].kind == EventName::ThreadCreated;
            assert(script::is_first_event(events@, EventName::ThreadCreated, i));
        }
    }
}

/// Whether an event is the first to hold this.
pub open spec fn is_first(events: Seq<EventInfo>, data: EventName, i: int) -> bool {
    &&& 0 <= i < events.len()
    &&& events[i].data == data
    &&& forall|j: int| 0 <= j < i ==> (#[trigger] events[j]).data != data
}

/// Which bindings are taken: a name that is there, and one whose first binding
/// is that of a step.
pub proof fn bindings_are_judged(
    kept: Seq<Kept>,
    bindings: Vec<script::BindingInfo>,
    name: &'static str,
    step: usize,
    i: int,
)
    requires
        0 <= i < bindings.len(),
        bindings@[i].name@ == name@,
        forall|j: int| 0 <= j < i ==> (#[trigger] bindings@[j]).name@ != name@,
    ensures
        script::is_met(Expect::HasBinding { name }, kept, Reply::Bindings { bindings }),
        script::is_met(Expect::BindingIs { name, binding: step }, kept, Reply::Bindings { bindings })
            <==> came_back(kept, step, bindings@[i].id),
{
    assert(script::is_first_binding(bindings@, name@, i));
    if script::first_binding_is(bindings@, name@, kept, step) {
        let k = choose|k: int| #[trigger]
            script::is_first_binding(bindings@, name@, k) && script::is_id_of(
                kept,
                step,
                bindings@[k].id,
            );
        if k < i {
            assert(bindings@[k].name@ != name@);
        }
        assert(k == i);
    }
}

/// A name that no binding has is no binding's.
pub proof fn missing_bindings_are_refused(
    kept: Seq<Kept>,
    reply: Reply,
    name: &'static str,
    step: usize,
)
    requires
        reply matches Reply::Bindings { bindings } ==> forall|i: int|
            0 <= i < bindings.len() ==> (#[trigger] bindings@[i]).name@ != name@,
    ensures
        !script::is_met(Expect::HasBinding { name }, kept, reply),
        !script::is_met(Expect::BindingIs { name, binding: step }, kept, reply),
{
}

/// What later steps can refer to of a reply: the id that was made, begun,
/// granted or bound; the epoch and the deadline of a lease; the session of a
/// turn; and of a page its cursor, of a conversation its latest event, or itself
/// where it has none.
pub proof fn replies_are_kept(reply: Reply)
    ensures
        ({
            let kept = script::kept_of(reply);
            match reply {
                Reply::Made { id, latest_event_id } => kept.id == Some(id) && (
                match latest_event_id {
                    Some(event) => kept.cursor == Some(event),
                    None => kept.cursor == Some(id),
                }),
                Reply::Listed { next_cursor, .. } => kept.id is None && kept.cursor
                    == next_cursor,
                Reply::Turn { id, session_id } => kept.id == Some(id) && kept.session_id == Some(
                    session_id,
                ),
                Reply::TurnFinished { event_id } => kept.id == Some(event_id),
                Reply::Begun { operation, .. } => kept.id == Some(operation.operation_id),
                Reply::Lease { lease, .. } => kept.id == Some(lease.lease_id) && kept.epoch
                    == lease.epoch && kept.expires_at == Some(lease.expires_at),
                Reply::Bound { id } => kept.id == Some(id),
                _ => kept.id is None && kept.cursor is None && kept.session_id is None
                    && kept.expires_at is None,
            }
        }),
{
}

/// What is kept before a step is what came back at each step before it, in
/// order.
pub proof fn replies_are_kept_in_order(replies: Seq<Reply>, step: int)
    requires
        0 <= step <= replies.len(),
    ensures
        run::kept_before(replies, step).len() == step,
        forall|i: int|
            0 <= i < step ==> #[trigger] run::kept_before(replies, step)[i] == script::kept_of(
                replies[i],
            ),
{
}

/// Whether an id stands for an argument: the id or the cursor that came back at
/// the step it names, or the unknown one where none did.
pub open spec fn stands_for(kept: Seq<Kept>, unknown: Uuid7, arg: IdArg, id: Uuid7) -> bool {
    match arg {
        IdArg::Of(step) => if step < kept.len() && kept[step as int].id is Some {
            kept[step as int].id == Some(id)
        } else {
            id == unknown
        },
        IdArg::CursorOf(step) => if step < kept.len() && kept[step as int].cursor is Some {
            kept[step as int].cursor == Some(id)
        } else {
            id == unknown
        },
        IdArg::Unknown => id == unknown,
    }
}

/// Whether an epoch stands for an argument.
pub open spec fn is_epoch_for(kept: Seq<Kept>, arg: EpochArg, epoch: u64) -> bool {
    match arg {
        EpochArg::Exactly(wanted) => epoch == wanted,
        EpochArg::Of(step) => if step < kept.len() {
            epoch == kept[step as int].epoch
        } else {
            epoch == 0
        },
    }
}

/// Whether an optional epoch stands for an optional argument.
pub open spec fn is_opt_epoch_for(
    kept: Seq<Kept>,
    arg: Option<EpochArg>,
    epoch: Option<u64>,
) -> bool {
    match (arg, epoch) {
        (Some(wanted), Some(given)) => is_epoch_for(kept, wanted, given),
        (None, None) => true,
        _ => false,
    }
}

/// Whether an optional id stands for an optional argument.
pub open spec fn stands_for_opt(
    kept: Seq<Kept>,
    unknown: Uuid7,
    arg: Option<IdArg>,
    id: Option<Uuid7>,
) -> bool {
    match (arg, id) {
        (Some(wanted), Some(given)) => stands_for(kept, unknown, wanted, given),
        (None, None) => true,
        _ => false,
    }
}

/// Calls about agents, threads and conversations are made with the ids that came
/// back, and with everything else as it is written.
pub proof fn lookups_are_asked_for_by_id(
    kept: Seq<Kept>,
    unknown: Uuid7,
    agent: usize,
    id: IdArg,
    cursor: Option<IdArg>,
    limit: Option<u32>,
)
    ensures
        request::request_for(kept, unknown, Call::GetConversation { agent, id })
            matches Call::GetConversation { agent: a, id: i } && a == agent && stands_for(
            kept,
            unknown,
            id,
            i,
        ),
        request::request_for(kept, unknown, Call::GetThread { agent, id })
            matches Call::GetThread { agent: a, id: i } && a == agent && stands_for(
            kept,
            unknown,
            id,
            i,
        ),
        request::request_for(kept, unknown, Call::DeleteThread { agent, id })
            matches Call::DeleteThread { agent: a, id: i } && a == agent && stands_for(
            kept,
            unknown,
            id,
            i,
        ),
        request::request_for(kept, unknown, Call::DeleteConversation { agent, id })
            matches Call::DeleteConversation { agent: a, id: i } && a == agent && stands_for(
            kept,
            unknown,
            id,
            i,
        ),
        request::request_for(kept, unknown, Call::DeleteAgent { id }) matches Call::DeleteAgent {
            id: i,
        } && stands_for(kept, unknown, id, i),
        request::request_for(kept, unknown, Call::ListConversations { agent, cursor, limit })
            matches Call::ListConversations { agent: a, cursor: c, limit: l } && a == agent && l
            == limit && stands_for_opt(kept, unknown, cursor, c),
{
}

/// Calls about events, turns and operations are made with the ids and epochs
/// that came back, and with everything else as it is written.
pub proof fn journal_calls_are_filled_in(
    kept: Seq<Kept>,
    unknown: Uuid7,
    conversation: usize,
    turn: Option<IdArg>,
    kind: Option<EventName>,
    ascending: bool,
    operation: IdArg,
    outcome: script::OperationOutcome,
    input: &'static str,
    key: &'static str,
    policy: script::RecoveryPolicy,
    budget: Option<u32>,
    detail: Option<&'static str>,
    lease_epoch: Option<EpochArg>,
)
    ensures
        request::request_for(
            kept,
            unknown,
            Call::GetEvents { conversation, turn, kind, ascending },
        ) matches Call::GetEvents { conversation: c, turn: t, kind: k, ascending: a } && c
            == conversation && k == kind && a == ascending && stands_for_opt(kept, unknown, turn, t),
        request::request_for(
            kept,
            unknown,
            Call::AddOperationCompleted { conversation, operation, outcome },
        ) matches Call::AddOperationCompleted { conversation: c, operation: o, outcome: u } && c
            == conversation && u == outcome && stands_for(kept, unknown, operation, o),
        request::request_for(kept, unknown, Call::BeginTurn { conversation, input, lease_epoch })
            matches Call::BeginTurn { conversation: c, input: i, lease_epoch: e } && c
            == conversation && i == input && is_opt_epoch_for(kept, lease_epoch, e),
        request::request_for(
            kept,
            unknown,
            Call::BeginOperation {
                conversation,
                effect_kind: input,
                idempotency_key: key,
                recovery_policy: policy,
                max_attempts: budget,
                lease_epoch,
            },
        ) matches Call::BeginOperation {
            conversation: c,
            effect_kind: f,
            idempotency_key: k,
            recovery_policy: p,
            max_attempts: m,
            lease_epoch: e,
        } && c == conversation && f == input && k == key && p == policy && m == budget
            && is_opt_epoch_for(kept, lease_epoch, e),
        request::request_for(
            kept,
            unknown,
            Call::CompleteOperation { conversation, operation, outcome, detail, lease_epoch },
        ) matches Call::CompleteOperation {
            conversation: c,
            operation: o,
            outcome: u,
            detail: d,
            lease_epoch: e,
        } && c == conversation && u == outcome && d == detail && stands_for(
            kept,
            unknown,
            operation,
            o,
        ) && is_opt_epoch_for(kept, lease_epoch, e),
{
}

/// Calls about leases are made with the lease and the epoch that came back, and
/// with everything else as it is written.
pub proof fn lease_calls_are_filled_in(
    kept: Seq<Kept>,
    unknown: Uuid7,
    conversation: usize,
    lease: IdArg,
    epoch: EpochArg,
    ttl_ms: u64,
)
    ensures
        request::request_for(kept, unknown, Call::RenewLease { conversation, lease, epoch, ttl_ms })
            matches Call::RenewLease { conversation: c, lease: l, epoch: e, ttl_ms: t } && c
            == conversation && t == ttl_ms && stands_for(kept, unknown, lease, l) && is_epoch_for(
            kept,
            epoch,
            e,
        ),
        request::request_for(kept, unknown, Call::ReleaseLease { conversation, lease, epoch })
            matches Call::ReleaseLease { conversation: c, lease: l, epoch: e } && c == conversation
            && stands_for(kept, unknown, lease, l) && is_epoch_for(kept, epoch, e),
        request::request_for(kept, unknown, Call::AddLeaseReleased { conversation, lease, epoch })
            matches Call::AddLeaseReleased { conversation: c, lease: l, epoch: e } && c
            == conversation && stands_for(kept, unknown, lease, l) && is_epoch_for(kept, epoch, e),
{
}

/// Whether a call has no id and no epoch to fill in, and the request is that
/// call.
pub open spec fn is_as_written(call: Call<IdArg, EpochArg>, request: Request) -> bool {
    match (call, request) {
        (
            Call::NewAgent { slug_prefix: s, name: n },
            Call::NewAgent { slug_prefix: t, name: m },
        ) => s == t && n == m,
        (
            Call::NewAgentUnderSlugOf { agent: a, name: n },
            Call::NewAgentUnderSlugOf { agent: b, name: m },
        ) => a == b && n == m,
        (
            Call::NewThread { agent: a, slug_prefix: s, name: n },
            Call::NewThread { agent: b, slug_prefix: t, name: m },
        ) => a == b && s == t && n == m,
        (
            Call::NewConversation { agent: a, slug_prefix: s, name: n },
            Call::NewConversation { agent: b, slug_prefix: t, name: m },
        ) => a == b && s == t && n == m,
        (
            Call::NewPlainConversation { agent: a },
            Call::NewPlainConversation { agent: b },
        ) => a == b,
        (Call::ListAgents, Call::ListAgents) => true,
        (Call::ListThreads { agent: a }, Call::ListThreads { agent: b }) => a == b,
        (
            Call::AddCustomEvent { conversation: a, event_type: s },
            Call::AddCustomEvent { conversation: b, event_type: t },
        ) => a == b && s == t,
        (
            Call::AddTurnMessage { turn: a, text: s },
            Call::AddTurnMessage { turn: b, text: t },
        ) => a == b && s == t,
        (
            Call::WriteArtifact { turn: a, path: s, contents: n },
            Call::WriteArtifact { turn: b, path: t, contents: m },
        ) => a == b && s == t && n == m,
        (Call::FinishTurn { turn: a }, Call::FinishTurn { turn: b }) => a == b,
        (
            Call::OpenOperations { conversation: a },
            Call::OpenOperations { conversation: b },
        ) => a == b,
        (
            Call::AcquireLease { conversation: a, holder: s, ttl_ms: x },
            Call::AcquireLease { conversation: b, holder: t, ttl_ms: y },
        ) => a == b && s == t && x == y,
        (
            Call::CurrentLease { conversation: a },
            Call::CurrentLease { conversation: b },
        ) => a == b,
        (
            Call::PutAgentBinding { agent: a, name: s },
            Call::PutAgentBinding { agent: b, name: t },
        ) => a == b && s == t,
        (
            Call::PutConversationBinding { conversation: a, name: s },
            Call::PutConversationBinding { conversation: b, name: t },
        ) => a == b && s == t,
        (
            Call::ListBindings { conversation: a },
            Call::ListBindings { conversation: b },
        ) => a == b,
        (
            Call::Fork { conversation: a, slug_prefix: s, name: n },
            Call::Fork { conversation: b, slug_prefix: t, name: m },
        ) => a == b && s == t && n == m,
        (Call::Sleep { millis: a }, Call::Sleep { millis: b }) => a == b,
        _ => false,
    }
}

/// Whether a call takes an id or an epoch that came back.
pub open spec fn takes_what_came_back(call: Call<IdArg, EpochArg>) -> bool {
    ||| call is GetConversation
    ||| call is GetThread
    ||| call is ListConversations
    ||| call is DeleteThread
    ||| call is DeleteConversation
    ||| call is DeleteAgent
    ||| call is GetEvents
    ||| call is AddOperationCompleted
    ||| call is AddLeaseReleased
    ||| call is BeginTurn
    ||| call is BeginOperation
    ||| call is CompleteOperation
    ||| call is RenewLease
    ||| call is ReleaseLease
}

/// A call that takes nothing of what came back is made as it is written.
pub proof fn other_calls_are_made_as_written(
    kept: Seq<Kept>,
    unknown: Uuid7,
    call: Call<IdArg, EpochArg>,
)
    requires
        !takes_what_came_back(call),
    ensures
        is_as_written(call, request::request_for(kept, unknown, call)),
{
}

} // verus!
