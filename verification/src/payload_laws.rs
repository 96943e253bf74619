//! What the payloads of input requests mean, told by their JSON fields.

use vstd::prelude::*;

use crate::input_request_laws;
use crate::input_requests::{
    self, ConversationEvent, EventData, InputRequestKind, InputRequestedPayload, InputResolution,
    InputResolvedPayload, PendingInputRequest, PendingView, RequestedView,
};
use crate::json::{self, Json};
use crate::payload;
use crate::text;

verus! {

/// Whether a record holds a value in a field: by the field's name in an object,
/// or at its place in an array.
pub open spec fn holds(record: Json, name: Seq<char>, at: int, value: Json) -> bool {
    match record {
        Json::Object(fields) => fields.contains_key(name) && fields[name] == value,
        Json::Array(items) => 0 <= at < items.len() && items[at] == value,
        _ => false,
    }
}

/// Whether a record leaves a field out: it is missing or null.
pub open spec fn lacks(record: Json, name: Seq<char>, at: int) -> bool {
    match record {
        Json::Object(fields) => !fields.contains_key(name) || fields[name] == Json::Null,
        Json::Array(items) => at >= items.len() || (0 <= at && items[at] == Json::Null),
        _ => false,
    }
}

/// Whether an optional field of a record has this text, or none.
pub open spec fn has_text(
    record: Json,
    name: Seq<char>,
    at: int,
    text: Option<Seq<char>>,
) -> bool {
    match text {
        Some(held) => holds(record, name, at, Json::Text(held)),
        None => lacks(record, name, at),
    }
}

/// Whether a value can be a record of so many fields: an object, or an array
/// that is no longer.
pub open spec fn is_record(record: Json, fields: int) -> bool {
    record is Object || (record matches Json::Array(items) && items.len() <= fields)
}

/// Whether a field of a record names a variant: by a text, or by an object of
/// one null field.
pub open spec fn names(record: Json, name: Seq<char>, at: int, variant: Seq<char>) -> bool {
    holds(record, name, at, Json::Text(variant)) || holds(
        record,
        name,
        at,
        Json::Object(map![variant => Json::Null]),
    )
}

/// Whether a field of a record can be read as a variant: it is the variant's
/// name, or an object with a null field of that name.
pub open spec fn may_name(record: Json, name: Seq<char>, at: int, variant: Seq<char>) -> bool {
    holds(record, name, at, Json::Text(variant)) || exists|fields: Map<Seq<char>, Json>|
        fields.contains_key(variant) && fields[variant] == Json::Null && #[trigger] holds(
            record,
            name,
            at,
            Json::Object(fields),
        )
}

/// What a record holds in a field that it does not leave out.
spec fn held_in(record: Json, name: Seq<char>, at: int) -> Json {
    match record {
        Json::Object(fields) => fields[name],
        Json::Array(items) => items[at],
        _ => record,
    }
}

/// What names a variant can be read as it.
proof fn a_named_variant_may_be_read(
    record: Json,
    name: Seq<char>,
    at: int,
    variant: Seq<char>,
    held: Json,
)
    requires
        payload::part(record, name, at) == Some(held),
        payload::names_variant(held, variant),
    ensures
        may_name(record, name, at, variant),
{
    assert(held == held_in(record, name, at));
    if let Json::Object(fields) = held {
        assert(holds(record, name, at, Json::Object(fields)));
    }
}

/// How a kind of request is written.
pub open spec fn written_kind(kind: InputRequestKind) -> Seq<char> {
    match kind {
        InputRequestKind::Question => "question"@,
        InputRequestKind::ToolConfirmation => "tool_confirmation"@,
        InputRequestKind::Feedback => "feedback"@,
        InputRequestKind::Auth => "auth"@,
    }
}

/// How a resolution is written.
pub open spec fn written_resolution(resolution: InputResolution) -> Seq<char> {
    match resolution {
        InputResolution::Answered => "answered"@,
        InputResolution::Cancelled => "cancelled"@,
        InputResolution::Expired => "expired"@,
    }
}

/// Whether an event of a log is a custom one of a type, with this payload.
pub open spec fn is_custom(event: ConversationEvent, name: Seq<char>, record: Json) -> bool {
    event.data matches EventData::Custom { event_type, payload } && event_type@ == name
        && json::json(payload) == record
}

/// Different names are different.
proof fn names_differ()
    ensures
        "answered"@ != "cancelled"@,
        "answered"@ != "expired"@,
        "cancelled"@ != "expired"@,
        "question"@ != "tool_confirmation"@,
        "question"@ != "feedback"@,
        "question"@ != "auth"@,
        "tool_confirmation"@ != "feedback"@,
        "tool_confirmation"@ != "auth"@,
        "feedback"@ != "auth"@,
        "input_requested"@ != "input_resolved"@,
{
    reveal_strlit("answered");
    reveal_strlit("cancelled");
    reveal_strlit("expired");
    reveal_strlit("question");
    reveal_strlit("tool_confirmation");
    reveal_strlit("feedback");
    reveal_strlit("auth");
    reveal_strlit("input_requested");
    reveal_strlit("input_resolved");
    assert("question"@[0] != "feedback"@[0]);
    assert("answered"@.len() == 8 && "cancelled"@.len() == 9 && "expired"@.len() == 7);
    assert("question"@.len() == 8 && "tool_confirmation"@.len() == 17 && "auth"@.len() == 4);
    assert("input_requested"@.len() == 15 && "input_resolved"@.len() == 14);
}

/// Every well-formed resolution settles the request it names, whichever way the
/// request was settled: an `input_resolved` event whose `request_id` is a text,
/// whose `resolution` is `answered`, `cancelled` or `expired`, and whose
/// `resolved_by` is a text or left out. Wherever in a log it stands, no request
/// of that id waits.
pub proof fn every_resolution_settles_its_request(
    log: Seq<ConversationEvent>,
    at: int,
    record: Json,
    request_id: Seq<char>,
    resolution: InputResolution,
    resolved_by: Option<Seq<char>>,
)
    requires
        0 <= at < log.len(),
        is_custom(log[at], "input_resolved"@, record),
        is_record(record, 4),
        holds(record, "request_id"@, 0, Json::Text(request_id)),
        names(record, "resolution"@, 1, written_resolution(resolution)),
        has_text(record, "resolved_by"@, 3, resolved_by),
    ensures
        input_requests::settles(log[at], request_id),
        !input_requests::is_waiting(input_requests::pending_set(log), request_id),
        input_requests::resolved(record) matches Some(held) && held.resolution == resolution
            && held.request_id == request_id && held.resolved_by == resolved_by,
{
    names_differ();
    input_request_laws::a_settled_request_does_not_wait(log, at, request_id);
}

/// Nothing else settles a request: what does is an `input_resolved` event whose
/// payload names the request and one of the three resolutions.
pub proof fn only_resolutions_settle(event: ConversationEvent, request_id: Seq<char>)
    requires
        input_requests::settles(event, request_id),
    ensures
        event.data is Custom,
        ({
            let record = json::json(event.data->payload);
            &&& is_custom(event, "input_resolved"@, record)
            &&& is_record(record, 4)
            &&& holds(record, "request_id"@, 0, Json::Text(request_id))
            &&& input_requests::resolved(record) matches Some(held) && held.request_id
                == request_id && may_name(
                record,
                "resolution"@,
                1,
                written_resolution(held.resolution),
            ) && has_text(record, "resolved_by"@, 3, held.resolved_by)
        }),
{
    let record = json::json(event.data->payload);
    let held = input_requests::resolved(record)->0;
    a_named_variant_may_be_read(
        record,
        "resolution"@,
        1,
        written_resolution(held.resolution),
        payload::part(record, "resolution"@, 1)->0,
    );
}

/// A request is read with every field it has: an `input_requested` event whose
/// `request_id` and `prompt` are texts, whose `kind` is one of the four, and
/// whose other texts are texts or left out makes that request, as of the event.
pub proof fn every_request_is_read_as_it_was_made(
    event: ConversationEvent,
    record: Json,
    request_id: Seq<char>,
    kind: InputRequestKind,
    prompt: Seq<char>,
    answer_schema: Option<Json>,
    tool_call_id: Option<Seq<char>>,
    adapter_id: Option<Seq<char>>,
    target: Option<Seq<char>>,
)
    requires
        is_custom(event, "input_requested"@, record),
        is_record(record, 7),
        holds(record, "request_id"@, 0, Json::Text(request_id)),
        names(record, "kind"@, 1, written_kind(kind)),
        holds(record, "prompt"@, 2, Json::Text(prompt)),
        match answer_schema {
            Some(schema) => schema != Json::Null && holds(record, "answer_schema"@, 3, schema),
            None => lacks(record, "answer_schema"@, 3),
        },
        has_text(record, "tool_call_id"@, 4, tool_call_id),
        has_text(record, "adapter_id"@, 5, adapter_id),
        has_text(record, "target"@, 6, target),
    ensures
        input_requests::request_in(event) == Some(
            PendingView {
                event_id: event.id,
                requested_at: event.created_at,
                payload: RequestedView {
                    request_id,
                    kind,
                    prompt,
                    answer_schema,
                    tool_call_id,
                    adapter_id,
                    target,
                },
            },
        ),
        input_requests::asks(event, request_id),
        !input_requests::settles(event, request_id),
{
    names_differ();
}

/// What was read of a request is what its payload holds.
pub proof fn only_requests_ask(event: ConversationEvent, request: PendingView)
    requires
        input_requests::request_in(event) == Some(request),
    ensures
        event.data is Custom,
        request.event_id == event.id,
        request.requested_at == event.created_at,
        ({
            let record = json::json(event.data->payload);
            &&& is_custom(event, "input_requested"@, record)
            &&& is_record(record, 7)
            &&& holds(record, "request_id"@, 0, Json::Text(request.payload.request_id))
            &&& holds(record, "prompt"@, 2, Json::Text(request.payload.prompt))
            &&& has_text(record, "tool_call_id"@, 4, request.payload.tool_call_id)
            &&& has_text(record, "adapter_id"@, 5, request.payload.adapter_id)
            &&& has_text(record, "target"@, 6, request.payload.target)
            &&& may_name(record, "kind"@, 1, written_kind(request.payload.kind))
            &&& match request.payload.answer_schema {
                Some(schema) => holds(record, "answer_schema"@, 3, schema),
                None => lacks(record, "answer_schema"@, 3),
            }
        }),
{
    let record = json::json(event.data->payload);
    a_named_variant_may_be_read(
        record,
        "kind"@,
        1,
        written_kind(request.payload.kind),
        payload::part(record, "kind"@, 1)->0,
    );
}

/// Whether some pending requests are requests of a log: `from` gives the event
/// of each, in event order.
pub open spec fn stand_in(
    log: Seq<ConversationEvent>,
    pending: Seq<PendingView>,
    from: Seq<int>,
) -> bool {
    &&& from.len() == pending.len()
    &&& forall|k: int|
        0 <= k < from.len() ==> 0 <= (#[trigger] from[k]) < log.len()
            && input_requests::request_in(log[from[k]]) == Some(pending[k])
    &&& forall|j: int, k: int|
        0 <= j < k < from.len() ==> (#[trigger] from[j]) < (#[trigger] from[k])
}

/// Where the open requests stand.
proof fn open_positions(log: Seq<ConversationEvent>, n: nat) -> (from: Seq<int>)
    requires
        n <= log.len(),
    ensures
        stand_in(log, input_requests::open_requests(log, n), from),
        forall|k: int| 0 <= k < from.len() ==> (#[trigger] from[k]) < n,
    decreases n,
{
    let pending = input_requests::open_requests(log, n);
    if n == 0 {
        Seq::empty()
    } else {
        let m = (n - 1) as nat;
        let before = open_positions(log, m);
        let from = if input_requests::is_open(log, m as int) {
            before.push(m as int)
        } else {
            before
        };
        assert forall|k: int| 0 <= k < from.len() implies 0 <= (#[trigger] from[k]) < n
            && input_requests::request_in(log[from[k]]) == Some(pending[k]) by {
            if k < before.len() {
                assert(from[k] == before[k]);
            }
        }
        assert forall|j: int, k: int| 0 <= j < k < from.len() implies (#[trigger] from[j]) < (
        #[trigger] from[k]) by {
            assert(from[j] == before[j]);
            if k < before.len() {
                assert(from[k] == before[k]);
            }
        }
        from
    }
}

/// The pending set holds requests of the log, oldest first, each as the event
/// that made it says.
pub proof fn pending_requests_stand_in_the_log(log: Seq<ConversationEvent>)
    ensures
        exists|from: Seq<int>| #[trigger] stand_in(log, input_requests::pending_set(log), from),
{
    let from = open_positions(log, log.len());
    assert(stand_in(log, input_requests::pending_set(log), from));
}

/// A request that nothing settles is found among the open ones, if it is the
/// first of its id.
proof fn a_first_request_is_open(log: Seq<ConversationEvent>, n: nat, at: int)
    requires
        0 <= at < n <= log.len(),
        input_requests::is_open(log, at),
    ensures
        input_requests::open_requests(log, n).contains(input_requests::request_in(log[at])->0),
    decreases n,
{
    let request = input_requests::request_in(log[at])->0;
    let m = (n - 1) as nat;
    let before = input_requests::open_requests(log, m);
    if at < m {
        a_first_request_is_open(log, m, at);
        let k = choose|k: int| 0 <= k < before.len() && before[k] == request;
        assert(input_requests::open_requests(log, n)[k] == request);
    } else {
        assert(input_requests::open_requests(log, n)[before.len() as int] == request);
    }
}

/// The first request of an id waits until it is settled: it is in the pending
/// set, as its event says, if no event of the log settles its id.
pub proof fn an_unsettled_request_waits(
    log: Seq<ConversationEvent>,
    at: int,
    request: PendingView,
)
    requires
        0 <= at < log.len(),
        input_requests::request_in(log[at]) == Some(request),
        forall|k: int|
            0 <= k < at ==> (input_requests::request_in(#[trigger] log[k]) matches Some(earlier)
                ==> earlier.payload.request_id != request.payload.request_id),
        forall|k: int|
            0 <= k < log.len() ==> input_requests::resolution_in(#[trigger] log[k]) != Some(
                request.payload.request_id,
            ),
    ensures
        input_requests::pending_set(log).contains(request),
{
    assert(input_requests::is_open(log, at));
    a_first_request_is_open(log, log.len(), at);
}

/// What is settled does not wait, and nothing waits twice: no entry of the
/// pending set has the id of a resolution in the log, and no two have one id.
pub proof fn what_waits_is_unsettled_and_waits_once(log: Seq<ConversationEvent>)
    ensures
        ({
            let pending = input_requests::pending_set(log);
            &&& forall|k: int, j: int|
                0 <= k < pending.len() && 0 <= j < log.len() ==> input_requests::resolution_in(
                    #[trigger] log[j],
                ) != Some((#[trigger] pending[k]).payload.request_id)
            &&& forall|j: int, k: int|
                0 <= j < k < pending.len() ==> (#[trigger] pending[j]).payload.request_id != (
                #[trigger] pending[k]).payload.request_id
        }),
{
    open_requests_wait_once(log, log.len());
}

/// What [`what_waits_is_unsettled_and_waits_once`] says of the first events.
proof fn open_requests_wait_once(log: Seq<ConversationEvent>, n: nat)
    requires
        n <= log.len(),
    ensures
        ({
            let pending = input_requests::open_requests(log, n);
            &&& forall|k: int, j: int|
                0 <= k < pending.len() && 0 <= j < log.len() ==> input_requests::resolution_in(
                    #[trigger] log[j],
                ) != Some((#[trigger] pending[k]).payload.request_id)
            &&& forall|j: int, k: int|
                0 <= j < k < pending.len() ==> (#[trigger] pending[j]).payload.request_id != (
                #[trigger] pending[k]).payload.request_id
        }),
    decreases n,
{
    if n > 0 {
        let m = (n - 1) as nat;
        let before = input_requests::open_requests(log, m);
        open_requests_wait_once(log, m);
        if input_requests::is_open(log, m as int) {
            let request = input_requests::request_in(log[m as int])->0;
            let id = request.payload.request_id;
            let from = open_positions(log, m);
            assert forall|k: int| 0 <= k < before.len() implies (
            #[trigger] before[k]).payload.request_id != id by {
                assert(0 <= from[k] < m);
                assert(!input_requests::asks(log[from[k]], id));
            }
            assert forall|j: int| 0 <= j < log.len() implies input_requests::resolution_in(
                #[trigger] log[j],
            ) != Some(id) by {
                if input_requests::resolution_in(log[j]) == Some(id) {
                    assert(input_requests::settles(log[j], id));
                }
            }
        }
    }
}

/// A reply answers only what was relayed through its channel: a request that was
/// relayed nowhere is answered by none, one that was relayed through an adapter
/// by replies of that adapter alone, and one that was pinned to a target by
/// replies from that target alone.
pub proof fn a_reply_answers_what_was_relayed_to_it(
    request: RequestedView,
    adapter_id: Seq<char>,
    target: Seq<char>,
)
    ensures
        request.adapter_id is None ==> !input_requests::answers(request, adapter_id, target),
        request.adapter_id matches Some(relayed) ==> (match request.target {
            None => input_requests::answers(request, adapter_id, target) <==> relayed
                == adapter_id,
            Some(pinned) => input_requests::answers(request, adapter_id, target) <==> relayed
                == adapter_id && pinned == target,
        }),
{
}

/// An answer that is recorded settles the request it is of.
pub proof fn a_recorded_answer_settles_its_request(
    log: Seq<ConversationEvent>,
    event: ConversationEvent,
    record: Json,
    payload: InputResolvedPayload,
)
    requires
        is_custom(event, "input_resolved"@, record),
        is_record(record, 4),
        holds(record, "request_id"@, 0, Json::Text(payload.request_id@)),
        names(record, "resolution"@, 1, written_resolution(payload.resolution)),
        has_text(record, "resolved_by"@, 3, payload@.resolved_by),
    ensures
        !input_requests::is_waiting(
            input_requests::pending_set(log.push(event)),
            payload.request_id@,
        ),
{
    let longer = log.push(event);
    assert(longer[log.len() as int] == event);
    every_resolution_settles_its_request(
        longer,
        log.len() as int,
        record,
        payload.request_id@,
        payload.resolution,
        payload@.resolved_by,
    );
}

/// What an optional value holds.
pub open spec fn same_value(
    a: Option<serde_json::Value>,
    b: Option<serde_json::Value>,
) -> bool {
    match (a, b) {
        (Some(x), Some(y)) => json::json(x) == json::json(y),
        (None, None) => true,
        _ => false,
    }
}

/// Requests with the same contents are the same in every field, so a copy leaves
/// nothing out.
pub proof fn a_copied_request_keeps_every_field(a: PendingInputRequest, b: PendingInputRequest)
    requires
        a@ == b@,
    ensures
        a.event_id == b.event_id,
        a.requested_at == b.requested_at,
        a.payload.request_id@ == b.payload.request_id@,
        a.payload.kind == b.payload.kind,
        a.payload.prompt@ == b.payload.prompt@,
        same_value(a.payload.answer_schema, b.payload.answer_schema),
        text::same_opt(a.payload.tool_call_id, b.payload.tool_call_id),
        text::same_opt(a.payload.adapter_id, b.payload.adapter_id),
        text::same_opt(a.payload.target, b.payload.target),
{
}

/// What is read of a payload is in the fields it is read into.
pub proof fn a_read_request_shows_its_fields(a: InputRequestedPayload)
    ensures
        a@.request_id == a.request_id@,
        a@.kind == a.kind,
        a@.prompt == a.prompt@,
        a.adapter_id matches Some(held) ==> a@.adapter_id == Some(held@),
        a.adapter_id is None ==> a@.adapter_id is None,
        a.target matches Some(held) ==> a@.target == Some(held@),
        a.target is None ==> a@.target is None,
        a.tool_call_id matches Some(held) ==> a@.tool_call_id == Some(held@),
        a.tool_call_id is None ==> a@.tool_call_id is None,
        a.answer_schema matches Some(held) ==> a@.answer_schema == Some(json::json(held)),
        a.answer_schema is None ==> a@.answer_schema is None,
{
}

/// What is read of a resolution is in the fields it is read into.
pub proof fn a_read_resolution_shows_its_fields(a: InputResolvedPayload)
    ensures
        a@.request_id == a.request_id@,
        a@.resolution == a.resolution,
        a.answer matches Some(held) ==> a@.answer == Some(json::json(held)),
        a.answer is None ==> a@.answer is None,
        a.resolved_by matches Some(held) ==> a@.resolved_by == Some(held@),
        a.resolved_by is None ==> a@.resolved_by is None,
{
}

/// The answer of a resolution is the value its payload holds.
pub proof fn an_answer_is_read_as_it_was_given(record: Json, answer: Json)
    requires
        input_requests::resolved(record) is Some,
    ensures
        answer != Json::Null && holds(record, "answer"@, 2, answer) ==> input_requests::resolved(
            record,
        )->0.answer == Some(answer),
        lacks(record, "answer"@, 2) ==> input_requests::resolved(record)->0.answer is None,
{
}

/// Kinds and resolutions are written as they are read, each by a name of its
/// own.
pub proof fn names_are_written_as_they_are_read(
    a: InputRequestKind,
    b: InputRequestKind,
    c: InputResolution,
    d: InputResolution,
)
    ensures
        input_requests::kind_name(a) == written_kind(a),
        input_requests::resolution_name(c) == written_resolution(c),
        input_requests::kind_name(a) == input_requests::kind_name(b) <==> a == b,
        input_requests::resolution_name(c) == input_requests::resolution_name(d) <==> c == d,
        input_requests::kind_of(Json::Text(input_requests::kind_name(a))) == Some(a),
        input_requests::resolution_of(Json::Text(input_requests::resolution_name(c))) == Some(c),
{
    names_differ();
}

/// The contents of a run of requests are theirs, one for one and in order.
pub proof fn pending_contents_are_those_of_the_requests(pending: Seq<PendingInputRequest>)
    ensures
        input_requests::pending_views(pending).len() == pending.len(),
        forall|i: int|
            0 <= i < pending.len() ==> #[trigger] input_requests::pending_views(pending)[i]
                == pending[i]@,
{
}

} // verus!
