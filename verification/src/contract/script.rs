//! Scripts: calls to make of a harness one after the other, each with what has
//! to come back, and the run that holds the replies to it.

use vstd::prelude::*;

use crate::clock::{self, DateTimeUtc};
use crate::ids::Uuid7;
use crate::text;

verus! {

/// What an event of a conversation is.
#[derive(Debug, Clone, Copy, PartialEq, Eq, Structural)]
pub enum EventName {
    ThreadCreated,
    ConversationCreated,
    ThreadForked,
    SessionStarted,
    TurnStarted,
    Messages,
    TurnEnded,
    ArtifactWritten,
    OperationIntent,
    OperationCompleted,
    Other,
}

/// How an operation's attempt ended.
#[derive(Debug, Clone, Copy, PartialEq, Eq, Structural)]
pub enum OperationOutcome {
    Succeeded,
    Failed,
    Uncertain,
}

/// Where an operation stands in the journal.
#[derive(Debug, Clone, Copy, PartialEq, Eq, Structural)]
pub enum OperationState {
    Open,
    Uncertain,
    Succeeded,
    Failed,
}

/// What recovery does with an operation that did not close.
#[derive(Debug, Clone, Copy, PartialEq, Eq, Structural)]
pub enum RecoveryPolicy {
    Retry,
    Reconcile,
}

/// An id that a call takes.
#[derive(Debug, Clone, Copy, PartialEq, Eq, Structural)]
pub enum IdArg {
    /// The id that came back at a step.
    Of(usize),
    /// The cursor that came back at a step.
    CursorOf(usize),
    /// An id that was minted for this and names nothing.
    Unknown,
}

/// An epoch that a call takes.
#[derive(Debug, Clone, Copy, PartialEq, Eq, Structural)]
pub enum EpochArg {
    Exactly(u64),
    /// The epoch that came back at a step.
    Of(usize),
}

/// A call to make of a harness. Agents, conversations and turns are named by
/// the step that made them; ids are of type `I` and epochs of type `E`.
#[derive(Debug, Clone, Copy)]
#[allow(inconsistent_fields)]
pub enum Call<I, E> {
    NewAgent { slug_prefix: &'static str, name: &'static str },
    /// An agent under the slug of an earlier one.
    NewAgentUnderSlugOf { agent: usize, name: &'static str },
    NewThread { agent: usize, slug_prefix: &'static str, name: &'static str },
    NewConversation { agent: usize, slug_prefix: &'static str, name: &'static str },
    /// A conversation with neither slug nor name.
    NewPlainConversation { agent: usize },
    GetConversation { agent: usize, id: I },
    GetThread { agent: usize, id: I },
    ListAgents,
    ListConversations { agent: usize, cursor: Option<I>, limit: Option<u32> },
    ListThreads { agent: usize },
    DeleteThread { agent: usize, id: I },
    DeleteConversation { agent: usize, id: I },
    DeleteAgent { id: I },
    /// A conversation's events, of a turn and of a kind where given, in
    /// ascending order where asked.
    GetEvents {
        conversation: usize,
        turn: Option<I>,
        kind: Option<EventName>,
        ascending: bool,
    },
    AddCustomEvent { conversation: usize, event_type: &'static str },
    AddOperationCompleted { conversation: usize, operation: I, outcome: OperationOutcome },
    AddLeaseReleased { conversation: usize, lease: I, epoch: E },
    BeginTurn { conversation: usize, input: &'static str, lease_epoch: Option<E> },
    AddTurnMessage { turn: usize, text: &'static str },
    WriteArtifact { turn: usize, path: &'static str, contents: &'static str },
    FinishTurn { turn: usize },
    OpenOperations { conversation: usize },
    BeginOperation {
        conversation: usize,
        effect_kind: &'static str,
        idempotency_key: &'static str,
        recovery_policy: RecoveryPolicy,
        max_attempts: Option<u32>,
        lease_epoch: Option<E>,
    },
    CompleteOperation {
        conversation: usize,
        operation: I,
        outcome: OperationOutcome,
        detail: Option<&'static str>,
        lease_epoch: Option<E>,
    },
    AcquireLease { conversation: usize, holder: &'static str, ttl_ms: u64 },
    CurrentLease { conversation: usize },
    RenewLease { conversation: usize, lease: I, epoch: E, ttl_ms: u64 },
    ReleaseLease { conversation: usize, lease: I, epoch: E },
    /// Bind an environment variable for the whole agent.
    PutAgentBinding { agent: usize, name: &'static str },
    /// Bind an environment variable for a conversation.
    PutConversationBinding { conversation: usize, name: &'static str },
    ListBindings { conversation: usize },
    Fork { conversation: usize, slug_prefix: &'static str, name: &'static str },
    Sleep { millis: u64 },
}

/// An event, as far as a contract looks at it.
#[derive(Debug, Clone, Copy, PartialEq, Eq, Structural)]
pub struct EventInfo {
    pub id: Uuid7,
    /// What the event holds.
    pub data: EventName,
    /// What kind it says it is.
    pub kind: EventName,
    pub thread_id: Uuid7,
    pub session_id: Option<Uuid7>,
    pub turn_id: Option<Uuid7>,
}

/// An operation, as far as a contract looks at it.
#[derive(Debug, Clone, Copy, PartialEq, Eq, Structural)]
pub struct OperationInfo {
    pub operation_id: Uuid7,
    pub state: OperationState,
    pub max_attempts: Option<u32>,
    pub supersedes: Option<Uuid7>,
    pub completion_epoch: Option<u64>,
}

/// A lease, as far as a contract looks at it.
#[derive(Debug)]
pub struct LeaseInfo {
    pub lease_id: Uuid7,
    pub epoch: u64,
    pub holder: String,
    pub expires_at: DateTimeUtc,
}

/// A binding, as far as a contract looks at it.
#[derive(Debug)]
pub struct BindingInfo {
    pub id: Uuid7,
    pub name: String,
}

/// What a harness answers.
#[derive(Debug)]
pub enum Reply {
    /// The call failed.
    Failed,
    /// The call succeeded, with nothing to look at.
    Done,
    /// An agent, a thread or a conversation was made.
    Made { id: Uuid7, latest_event_id: Option<Uuid7> },
    Found { found: bool },
    Deleted { deleted: bool },
    Listed { ids: Vec<Uuid7>, next_cursor: Option<Uuid7> },
    Events { events: Vec<EventInfo> },
    /// A turn was begun.
    Turn { id: Uuid7, session_id: Uuid7 },
    /// A turn was finished with this event.
    TurnFinished { event_id: Uuid7 },
    Begun { created: bool, operation: OperationInfo },
    Completed { operation: OperationInfo },
    Operations { operations: Vec<OperationInfo> },
    Lease { acquired: bool, lease: LeaseInfo },
    CurrentLease { held: bool },
    Renewed { expires_at: DateTimeUtc },
    Released { released: bool },
    Bound { id: Uuid7 },
    Bindings { bindings: Vec<BindingInfo> },
}

/// What has to come back from a call.
#[derive(Debug, Clone, Copy)]
#[allow(inconsistent_fields)]
pub enum Expect {
    /// Anything but a failure.
    Succeeds,
    /// A failure.
    Fails,
    /// The lease, at this epoch where given, and the same lease as at a step
    /// where given.
    LeaseGranted { epoch: Option<u64>, same_as: Option<usize> },
    /// The lease, at the epoch after that of the lease of a step.
    LeaseFollows { lease: usize },
    /// A refusal that names the holder.
    LeaseHeldBy { holder: &'static str },
    /// A lease at this epoch.
    LeaseEpoch { epoch: u64 },
    /// Whether the conversation has a live lease.
    LeaseIsLive { live: bool },
    /// A deadline no earlier than the lease of a step had.
    RenewedNotBefore { lease: usize },
    LeaseReleased,
    /// An operation: newly created or not, in this state and with this budget
    /// where given, and the same as at a step where given.
    OperationBegun {
        created: bool,
        state: Option<OperationState>,
        max_attempts: Option<u32>,
        same_as: Option<usize>,
    },
    /// A newly created operation of its own that supersedes that of a step.
    OperationSupersedes { operation: usize },
    /// A completion recorded under this epoch.
    CompletedUnder { epoch: u64 },
    /// A completion that leaves the operation in this state.
    CompletedAs { state: OperationState },
    OperationCount { count: usize },
    /// That operation of a step, and no other.
    OnlyOperation { operation: usize },
    IsFound,
    IsDeleted,
    /// A list that holds the id of a step.
    ListHolds { id: usize },
    /// The ids of two steps, and the cursor that stands behind the second.
    PageOfTwo { first: usize, second: usize },
    /// The id of one step, and no cursor.
    LastPage { only: usize },
    /// A creation event, the first of which is of the thread of a step and
    /// calls itself one.
    CreationEventOf { thread: usize },
    HasEvent { data: EventName },
    EventCount { count: usize },
    /// The events of a whole turn, ending with the event a step finished it
    /// with.
    WholeTurn { finish: usize },
    /// A first event that belongs to the turn of a step.
    FirstEventOfTurn { turn: usize },
    /// A binding of that name, the first of which is that of a step.
    BindingIs { name: &'static str, binding: usize },
    HasBinding { name: &'static str },
}

/// One step of a script.
#[derive(Debug, Clone, Copy)]
pub struct Step {
    /// What the step is about.
    pub label: &'static str,
    pub call: Call<IdArg, EpochArg>,
    pub expect: Expect,
}

/// A step of a script.
#[verifier::allow_in_spec]
pub fn step(label: &'static str, call: Call<IdArg, EpochArg>, expect: Expect) -> Step
    returns
        (Step { label, call, expect }),
{
    Step { label, call, expect }
}

/// What later steps may refer to of a reply.
#[derive(Debug, Clone, Copy, PartialEq, Eq, Structural)]
pub struct Kept {
    pub id: Option<Uuid7>,
    /// The cursor behind what came back: of a page its own, of a conversation
    /// its latest event.
    pub cursor: Option<Uuid7>,
    pub epoch: u64,
    pub session_id: Option<Uuid7>,
    pub expires_at: Option<DateTimeUtc>,
}

/// What later steps may refer to of a reply.
pub open spec fn kept_of(reply: Reply) -> Kept {
    let nothing = Kept { id: None, cursor: None, epoch: 0, session_id: None, expires_at: None };
    match reply {
        Reply::Made { id, latest_event_id } => Kept {
            id: Some(id),
            cursor: match latest_event_id {
                Some(event_id) => Some(event_id),
                None => Some(id),
            },
            ..nothing
        },
        Reply::Listed { next_cursor, .. } => Kept { cursor: next_cursor, ..nothing },
        Reply::Turn { id, session_id } => Kept {
            id: Some(id),
            session_id: Some(session_id),
            ..nothing
        },
        Reply::TurnFinished { event_id } => Kept { id: Some(event_id), ..nothing },
        Reply::Begun { operation, .. } => Kept { id: Some(operation.operation_id), ..nothing },
        Reply::Lease { lease, .. } => Kept {
            id: Some(lease.lease_id),
            epoch: lease.epoch,
            expires_at: Some(lease.expires_at),
            ..nothing
        },
        Reply::Bound { id } => Kept { id: Some(id), ..nothing },
        _ => nothing,
    }
}

/// What later steps may refer to of a reply.
pub fn keep(reply: &Reply) -> (kept: Kept)
    ensures
        kept == kept_of(*reply),
{
    let mut kept = Kept { id: None, cursor: None, epoch: 0, session_id: None, expires_at: None };
    match reply {
        Reply::Made { id, latest_event_id } => {
            kept.id = Some(*id);
            kept.cursor = match latest_event_id {
                Some(event_id) => Some(*event_id),
                None => Some(*id),
            };
        },
        Reply::Listed { next_cursor, .. } => {
            kept.cursor = *next_cursor;
        },
        Reply::Turn { id, session_id } => {
            kept.id = Some(*id);
            kept.session_id = Some(*session_id);
        },
        Reply::TurnFinished { event_id } => {
            kept.id = Some(*event_id);
        },
        Reply::Begun { operation, .. } => {
            kept.id = Some(operation.operation_id);
        },
        Reply::Lease { lease, .. } => {
            kept.id = Some(lease.lease_id);
            kept.epoch = lease.epoch;
            kept.expires_at = Some(lease.expires_at);
        },
        Reply::Bound { id } => {
            kept.id = Some(*id);
        },
        _ => {},
    }
    kept
}

/// The id that came back at a step.
pub open spec fn id_at(kept: Seq<Kept>, step: usize) -> Option<Uuid7> {
    if step < kept.len() {
        kept[step as int].id
    } else {
        None
    }
}

/// Whether an id is the one that came back at a step.
pub open spec fn is_id_of(kept: Seq<Kept>, step: usize, id: Uuid7) -> bool {
    id_at(kept, step) == Some(id)
}

/// How many of some events hold this.
pub open spec fn count_events(events: Seq<EventInfo>, data: EventName) -> nat {
    events.filter(|event: EventInfo| event.data == data).len()
}

/// Whether some event holds this.
pub open spec fn has_event(events: Seq<EventInfo>, data: EventName) -> bool {
    exists|i: int| 0 <= i < events.len() && (#[trigger] events[i]).data == data
}

/// Whether an event is the first of some to hold this.
pub open spec fn is_first_event(events: Seq<EventInfo>, data: EventName, i: int) -> bool {
    &&& 0 <= i < events.len()
    &&& events[i].data == data
    &&& forall|j: int| 0 <= j < i ==> (#[trigger] events[j]).data != data
}

/// Whether a binding is the first of some to have this name.
pub open spec fn is_first_binding(bindings: Seq<BindingInfo>, name: Seq<char>, i: int) -> bool {
    &&& 0 <= i < bindings.len()
    &&& bindings[i].name@ == name
    &&& forall|j: int| 0 <= j < i ==> (#[trigger] bindings[j]).name@ != name
}

/// Whether the first binding of this name is the one of a step.
pub open spec fn first_binding_is(
    bindings: Seq<BindingInfo>,
    name: Seq<char>,
    kept: Seq<Kept>,
    step: usize,
) -> bool {
    exists|i: int| #[trigger]
        is_first_binding(bindings, name, i) && is_id_of(kept, step, bindings[i].id)
}

/// Whether some binding has this name.
pub open spec fn has_binding(bindings: Seq<BindingInfo>, name: Seq<char>) -> bool {
    exists|i: int| 0 <= i < bindings.len() && (#[trigger] bindings[i]).name@ == name
}

/// Whether a reply is what has to come back, given what came back before.
pub open spec fn is_met(expect: Expect, kept: Seq<Kept>, reply: Reply) -> bool {
    match expect {
        Expect::Succeeds => !(reply is Failed),
        Expect::Fails => reply is Failed,
        Expect::LeaseGranted { epoch, same_as } => reply matches Reply::Lease { acquired, lease }
            && acquired && (epoch matches Some(wanted) ==> lease.epoch == wanted) && (
        same_as matches Some(step) ==> is_id_of(kept, step, lease.lease_id)),
        Expect::LeaseFollows { lease: step } => reply matches Reply::Lease { acquired, lease }
            && acquired && step < kept.len() && lease.epoch == kept[step as int].epoch + 1,
        Expect::LeaseHeldBy { holder } => reply matches Reply::Lease { acquired, lease }
            && !acquired && lease.holder@ == holder@,
        Expect::LeaseEpoch { epoch } => reply matches Reply::Lease { lease, .. } && lease.epoch
            == epoch,
        Expect::LeaseIsLive { live } => reply matches Reply::CurrentLease { held } && held == live,
        Expect::RenewedNotBefore { lease } => reply matches Reply::Renewed { expires_at } && lease
            < kept.len() && (kept[lease as int].expires_at matches Some(before)
            && clock::is_not_before(expires_at, before)),
        Expect::LeaseReleased => reply matches Reply::Released { released } && released,
        Expect::OperationBegun { created, state, max_attempts, same_as } =>
            reply matches Reply::Begun { created: made, operation } && made == created && (
            state matches Some(wanted) ==> operation.state == wanted) && (
            max_attempts is Some ==> operation.max_attempts == max_attempts) && (
            same_as matches Some(step) ==> is_id_of(kept, step, operation.operation_id)),
        Expect::OperationSupersedes { operation: step } => reply matches Reply::Begun {
            created,
            operation,
        } && created && !is_id_of(kept, step, operation.operation_id) && id_at(kept, step) is Some
            && operation.supersedes == id_at(kept, step),
        Expect::CompletedUnder { epoch } => reply matches Reply::Completed { operation }
            && operation.completion_epoch == Some(epoch),
        Expect::CompletedAs { state } => reply matches Reply::Completed { operation }
            && operation.state == state,
        Expect::OperationCount { count } => reply matches Reply::Operations { operations }
            && operations.len() == count,
        Expect::OnlyOperation { operation: step } => reply matches Reply::Operations {
            operations,
        } && operations.len() == 1 && is_id_of(kept, step, operations@[0].operation_id),
        Expect::IsFound => reply matches Reply::Found { found } && found,
        Expect::IsDeleted => reply matches Reply::Deleted { deleted } && deleted,
        Expect::ListHolds { id: step } => reply matches Reply::Listed { ids, .. }
            && id_at(kept, step) is Some && ids@.contains(id_at(kept, step)->0),
        Expect::PageOfTwo { first, second } => reply matches Reply::Listed { ids, next_cursor }
            && ids.len() == 2 && is_id_of(kept, first, ids@[0]) && is_id_of(
            kept,
            second,
            ids@[1],
        ) && second < kept.len() && next_cursor is Some && next_cursor
            == kept[second as int].cursor,
        Expect::LastPage { only } => reply matches Reply::Listed { ids, next_cursor } && ids.len()
            == 1 && is_id_of(kept, only, ids@[0]) && next_cursor is None,
        Expect::CreationEventOf { thread } => reply matches Reply::Events { events } && exists|
            i: int,
        | #[trigger]
            is_first_event(events@, EventName::ThreadCreated, i) && is_id_of(
                kept,
                thread,
                events@[i].thread_id,
            ) && events@[i].kind == EventName::ThreadCreated,
        Expect::HasEvent { data } => reply matches Reply::Events { events } && has_event(
            events@,
            data,
        ),
        Expect::EventCount { count } => reply matches Reply::Events { events } && events.len()
            == count,
        Expect::WholeTurn { finish } => reply matches Reply::Events { events } && has_event(
            events@,
            EventName::SessionStarted,
        ) && has_event(events@, EventName::TurnStarted) && count_events(
            events@,
            EventName::Messages,
        ) >= 2 && has_event(events@, EventName::TurnEnded) && is_id_of(
            kept,
            finish,
            events@.last().id,
        ),
        Expect::FirstEventOfTurn { turn } => reply matches Reply::Events { events } && events.len()
            > 0 && turn < kept.len() && kept[turn as int].id is Some && events@[0].turn_id
            == kept[turn as int].id && kept[turn as int].session_id is Some
            && events@[0].session_id == kept[turn as int].session_id,
        Expect::BindingIs { name, binding } => reply matches Reply::Bindings { bindings }
            && first_binding_is(bindings@, name@, kept, binding),
        Expect::HasBinding { name } => reply matches Reply::Bindings { bindings } && has_binding(
            bindings@,
            name@,
        ),
    }
}

/// Whether an id is the one that came back at a step.
fn matches_id(kept: &Vec<Kept>, step: usize, id: Uuid7) -> (same: bool)
    ensures
        same == is_id_of(kept@, step, id),
{
    match kept_id(kept, step) {
        Some(known) => known == id,
        None => false,
    }
}

/// The id that came back at a step.
fn kept_id(kept: &Vec<Kept>, step: usize) -> (id: Option<Uuid7>)
    ensures
        id == id_at(kept@, step),
{
    if step < kept.len() {
        kept[step].id
    } else {
        None
    }
}

/// Where the first event that holds this is.
fn first_event(events: &Vec<EventInfo>, data: EventName) -> (found: Option<usize>)
    ensures
        match found {
            Some(i) => is_first_event(events@, data, i as int),
            None => !has_event(events@, data),
        },
{
    let mut i: usize = 0;
    while i < events.len()
        invariant
            i <= events.len(),
            forall|j: int| 0 <= j < i ==> (#[trigger] events@[j]).data != data,
        decreases events.len() - i,
    {
        if events[i].data == data {
            return Some(i);
        }
        i += 1;
    }
    None
}

/// How many events hold this.
fn number_of_events(events: &Vec<EventInfo>, data: EventName) -> (count: usize)
    ensures
        count == count_events(events@, data),
{
    let ghost pred = |event: EventInfo| event.data == data;
    let mut count: usize = 0;
    let mut i: usize = 0;
    proof {
        reveal(Seq::filter);
        assert(events@.take(0) =~= Seq::empty());
    }
    while i < events.len()
        invariant
            i <= events.len(),
            count <= i,
            pred == (|event: EventInfo| event.data == data),
            count == events@.take(i as int).filter(pred).len(),
        decreases events.len() - i,
    {
        proof {
            assert(events@.take(i + 1).drop_last() =~= events@.take(i as int));
            assert(events@.take(i + 1).last() == events@[i as int]);
            reveal(Seq::filter);
        }
        if events[i].data == data {
            count += 1;
        }
        i += 1;
    }
    assert(events@.take(i as int) =~= events@);
    count
}

/// Where the first binding of a name is.
fn first_binding(bindings: &Vec<BindingInfo>, name: &str) -> (found: Option<usize>)
    ensures
        match found {
            Some(i) => is_first_binding(bindings@, name@, i as int),
            None => !has_binding(bindings@, name@),
        },
{
    let mut i: usize = 0;
    while i < bindings.len()
        invariant
            i <= bindings.len(),
            forall|j: int| 0 <= j < i ==> (#[trigger] bindings@[j]).name@ != name@,
        decreases bindings.len() - i,
    {
        if text::str_eq(bindings[i].name.as_str(), name) {
            return Some(i);
        }
        i += 1;
    }
    None
}

/// Whether a reply about a lease is what has to come back.
fn lease_is_met(expect: Expect, kept: &Vec<Kept>, acquired: bool, lease: &LeaseInfo) -> (met: bool)
    ensures
        met == is_met(expect, kept@, Reply::Lease { acquired, lease: *lease }),
{
    match expect {
        Expect::Succeeds => true,
        Expect::LeaseGranted { epoch, same_as } => {
            let epoch_fits = match epoch {
                Some(wanted) => lease.epoch == wanted,
                None => true,
            };
            let id_fits = match same_as {
                Some(step) => matches_id(kept, step, lease.lease_id),
                None => true,
            };
            acquired && epoch_fits && id_fits
        },
        Expect::LeaseFollows { lease: step } => acquired && step < kept.len() && lease.epoch > 0
            && lease.epoch - 1 == kept[step].epoch,
        Expect::LeaseHeldBy { holder } => !acquired && text::str_eq(
            lease.holder.as_str(),
            holder,
        ),
        Expect::LeaseEpoch { epoch } => lease.epoch == epoch,
        _ => false,
    }
}

/// Whether a reply about an operation that was begun is what has to come back.
fn begun_is_met(expect: Expect, kept: &Vec<Kept>, created: bool, operation: OperationInfo) -> (met: bool)
    ensures
        met == is_met(expect, kept@, Reply::Begun { created, operation }),
{
    match expect {
        Expect::Succeeds => true,
        Expect::OperationBegun { created: wanted, state, max_attempts, same_as } => {
            let state_fits = match state {
                Some(state) => operation.state == state,
                None => true,
            };
            let budget_fits = match max_attempts {
                Some(attempts) => match operation.max_attempts {
                    Some(given) => given == attempts,
                    None => false,
                },
                None => true,
            };
            let id_fits = match same_as {
                Some(step) => matches_id(kept, step, operation.operation_id),
                None => true,
            };
            created == wanted && state_fits && budget_fits && id_fits
        },
        Expect::OperationSupersedes { operation: step } => {
            let superseded = match (operation.supersedes, kept_id(kept, step)) {
                (Some(given), Some(known)) => given == known,
                _ => false,
            };
            created && !matches_id(kept, step, operation.operation_id) && superseded
        },
        _ => false,
    }
}

/// Whether a reply of ids is what has to come back.
fn listing_is_met(
    expect: Expect,
    kept: &Vec<Kept>,
    ids: &Vec<Uuid7>,
    next_cursor: Option<Uuid7>,
) -> (met: bool)
    ensures
        met == is_met(expect, kept@, Reply::Listed { ids: *ids, next_cursor }),
{
    match expect {
        Expect::Succeeds => true,
        Expect::ListHolds { id: step } => match kept_id(kept, step) {
            Some(known) => crate::attention::backend::holds_id(ids.as_slice(), known),
            None => false,
        },
        Expect::PageOfTwo { first, second } => {
            if ids.len() != 2 || second >= kept.len() {
                return false;
            }
            let cursor_fits = match (next_cursor, kept[second].cursor) {
                (Some(given), Some(known)) => given == known,
                _ => false,
            };
            matches_id(kept, first, ids[0]) && matches_id(kept, second, ids[1]) && cursor_fits
        },
        Expect::LastPage { only } => ids.len() == 1 && matches_id(kept, only, ids[0])
            && next_cursor.is_none(),
        _ => false,
    }
}

/// Whether a reply of events is what has to come back.
fn events_are_met(expect: Expect, kept: &Vec<Kept>, events: &Vec<EventInfo>) -> (met: bool)
    ensures
        met == is_met(expect, kept@, Reply::Events { events: *events }),
{
    match expect {
        Expect::Succeeds => true,
        Expect::CreationEventOf { thread } => match first_event(
            events,
            EventName::ThreadCreated,
        ) {
            Some(i) => {
                let ghost view = events@;
                proof {
                    assert forall|k: int| #[trigger]
                        is_first_event(view, EventName::ThreadCreated, k) implies k == i by {
                        if k < i {
                            assert(view[k].data != EventName::ThreadCreated);
                        } else if i < k {
                            assert(view[i as int].data != EventName::ThreadCreated);
                        }
                    }
                }
                matches_id(kept, thread, events[i].thread_id) && events[i].kind
                    == EventName::ThreadCreated
            },
            None => {
                proof {
                    assert forall|k: int|
                        !#[trigger] is_first_event(events@, EventName::ThreadCreated, k) by {}
                }
                false
            },
        },
        Expect::HasEvent { data } => first_event(events, data).is_some(),
        Expect::EventCount { count } => events.len() == count,
        Expect::WholeTurn { finish } => {
            if first_event(events, EventName::SessionStarted).is_none() || first_event(
                events,
                EventName::TurnStarted,
            ).is_none() || first_event(events, EventName::TurnEnded).is_none() {
                return false;
            }
            number_of_events(events, EventName::Messages) >= 2 && matches_id(
                kept,
                finish,
                events[events.len() - 1].id,
            )
        },
        Expect::FirstEventOfTurn { turn } => {
            if events.len() == 0 || turn >= kept.len() {
                return false;
            }
            let turn_fits = match (events[0].turn_id, kept[turn].id) {
                (Some(given), Some(known)) => given == known,
                _ => false,
            };
            let session_fits = match (events[0].session_id, kept[turn].session_id) {
                (Some(given), Some(known)) => given == known,
                _ => false,
            };
            turn_fits && session_fits
        },
        _ => false,
    }
}

/// Whether a reply of bindings is what has to come back.
fn bindings_are_met(expect: Expect, kept: &Vec<Kept>, bindings: &Vec<BindingInfo>) -> (met: bool)
    ensures
        met == is_met(expect, kept@, Reply::Bindings { bindings: *bindings }),
{
    match expect {
        Expect::Succeeds => true,
        Expect::BindingIs { name, binding } => match first_binding(bindings, name) {
            Some(i) => {
                let ghost view = bindings@;
                proof {
                    assert forall|k: int| #[trigger] is_first_binding(view, name@, k) implies k
                        == i by {
                        if k < i {
                            assert(view[k].name@ != name@);
                        } else if i < k {
                            assert(view[i as int].name@ != name@);
                        }
                    }
                }
                let met = matches_id(kept, binding, bindings[i].id);
                assert(met == first_binding_is(view, name@, kept@, binding));
                met
            },
            None => {
                proof {
                    assert forall|k: int| !#[trigger] is_first_binding(bindings@, name@, k) by {}
                }
                false
            },
        },
        Expect::HasBinding { name } => match first_binding(bindings, name) {
            Some(i) => {
                assert(bindings@[i as int].name@ == name@);
                true
            },
            None => false,
        },
        _ => false,
    }
}

/// Whether a reply is what has to come back, given what came back before.
pub fn meets(expect: Expect, kept: &Vec<Kept>, reply: &Reply) -> (met: bool)
    ensures
        met == is_met(expect, kept@, *reply),
{
    match reply {
        Reply::Failed => match expect {
            Expect::Fails => true,
            _ => false,
        },
        Reply::Lease { acquired, lease } => lease_is_met(expect, kept, *acquired, lease),
        Reply::Begun { created, operation } => begun_is_met(expect, kept, *created, *operation),
        Reply::Listed { ids, next_cursor } => listing_is_met(expect, kept, ids, *next_cursor),
        Reply::Events { events } => events_are_met(expect, kept, events),
        Reply::Bindings { bindings } => bindings_are_met(expect, kept, bindings),
        Reply::Found { found } => match expect {
            Expect::Succeeds => true,
            Expect::IsFound => *found,
            _ => false,
        },
        Reply::Deleted { deleted } => match expect {
            Expect::Succeeds => true,
            Expect::IsDeleted => *deleted,
            _ => false,
        },
        Reply::Completed { operation } => match expect {
            Expect::Succeeds => true,
            Expect::CompletedUnder { epoch } => match operation.completion_epoch {
                Some(given) => given == epoch,
                None => false,
            },
            Expect::CompletedAs { state } => operation.state == state,
            _ => false,
        },
        Reply::Operations { operations } => match expect {
            Expect::Succeeds => true,
            Expect::OperationCount { count } => operations.len() == count,
            Expect::OnlyOperation { operation: step } => operations.len() == 1 && matches_id(
                kept,
                step,
                operations[0].operation_id,
            ),
            _ => false,
        },
        Reply::CurrentLease { held } => match expect {
            Expect::Succeeds => true,
            Expect::LeaseIsLive { live } => *held == live,
            _ => false,
        },
        Reply::Renewed { expires_at } => match expect {
            Expect::Succeeds => true,
            Expect::RenewedNotBefore { lease } => lease < kept.len() && match kept[lease].expires_at {
                Some(before) => clock::not_before(*expires_at, before),
                None => false,
            },
            _ => false,
        },
        Reply::Released { released } => match expect {
            Expect::Succeeds => true,
            Expect::LeaseReleased => *released,
            _ => false,
        },
        Reply::Done
        | Reply::Made { .. }
        | Reply::Turn { .. }
        | Reply::TurnFinished { .. }
        | Reply::Bound { .. } => match expect {
            Expect::Succeeds => true,
            _ => false,
        },
    }
}

} // verus!
