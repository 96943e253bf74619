//! What a worker's reports lead to, told report by report.

use vstd::prelude::*;

use super::outbound::{AdapterDeliveryStatus, AdapterEventType, AdapterOutboundMessageRecord};
use super::outbound::{self, DeliveredVia};
use super::types::AdapterConfig;
use super::worker_events::{self, WorkerEvent, WorkerStep, WorkerStepView};
use crate::filters;
use crate::json::{self, Json};
use crate::text;

verus! {

/// Whether a step records a change of state of an adapter's worker: as this type
/// of event, by its name, and with what was said unless that is nothing.
pub open spec fn records_change(
    step: WorkerStepView,
    config: AdapterConfig,
    event_type: AdapterEventType,
    name: Seq<char>,
    said: Json,
) -> bool {
    step matches WorkerStepView::RecordEvent { event_type: recorded, summary } && recorded
        == event_type && text::is_within(config.adapter_type@, summary) && text::is_within(
        name,
        summary,
    ) && (worker_events::payload_text(said) == "null"@ || worker_events::payload_text(said)
        == "{}"@ || text::is_within(worker_events::payload_text(said), summary))
}

/// A change of state is recorded with what was said.
proof fn a_change_is_recorded(config: AdapterConfig, name: Seq<char>, said: Json)
    ensures
        records_change(
            worker_events::lifecycle_step(config, name, said),
            config,
            worker_events::event_type_of(name),
            name,
            said,
        ),
{
    let kind = config.adapter_type@;
    let words = worker_events::payload_text(said);
    let head = kind + " worker "@ + name;
    let none = Seq::<char>::empty();
    let summary = worker_events::lifecycle_summary_of(kind, name, words);
    let tail = if words == "null"@ || words == "{}"@ {
        none
    } else {
        ": "@ + words
    };
    assert(summary =~= none + kind + (" worker "@ + name + tail));
    text::a_part_is_within(none, kind, " worker "@ + name + tail);
    assert(summary =~= (kind + " worker "@) + name + tail);
    text::a_part_is_within(kind + " worker "@, name, tail);
    if words != "null"@ && words != "{}"@ {
        assert(summary =~= (head + ": "@) + words + none);
        text::a_part_is_within(head + ": "@, words, none);
    }
}

/// Which changes of state are which events: a worker that says it connected,
/// disconnected or failed is recorded so, and every other change as such.
pub proof fn changes_are_told_apart_by_name(name: Seq<char>)
    ensures
        worker_events::event_type_of(name) is Connected <==> name == "connected"@,
        worker_events::event_type_of(name) is Disconnected <==> name == "disconnected"@,
        worker_events::event_type_of(name) is Error <==> name == "error"@,
        worker_events::event_type_of(name) is Lifecycle <==> name != "connected"@ && name
            != "disconnected"@ && name != "error"@,
{
    reveal_strlit("connected");
    reveal_strlit("disconnected");
    reveal_strlit("error");
    assert("connected"@.len() == 9 && "disconnected"@.len() == 12 && "error"@.len() == 5);
}

/// Nothing is said of a change of state that came with nothing.
pub proof fn an_empty_payload_is_not_shown(adapter_type: Seq<char>, name: Seq<char>)
    ensures
        worker_events::lifecycle_summary_of(adapter_type, name, "null"@)
            == worker_events::lifecycle_summary_of(adapter_type, name, "{}"@),
        worker_events::lifecycle_summary_of(adapter_type, name, "{}"@) == adapter_type
            + " worker "@ + name,
{
}

/// A connection marks the adapter as connected and then records who connected
/// and with what; a disconnection records its reason. A change of state is
/// recorded by its name.
pub proof fn connections_are_recorded(config: AdapterConfig, event: WorkerEvent)
    ensures
        ({
            let steps = worker_events::steps_for(config, event);
            match event {
                WorkerEvent::Connected { subject, metadata } => {
                    &&& steps.len() == 2
                    &&& steps[0] is MarkConnected
                    &&& records_change(
                        steps[1],
                        config,
                        AdapterEventType::Connected,
                        "connected"@,
                        Json::Object(
                            map![
                                "subject"@ => (match subject {
                                    Some(who) => Json::Text(who@),
                                    None => Json::Null,
                                }),
                                "metadata"@ => json::json(metadata),
                            ],
                        ),
                    )
                },
                WorkerEvent::Disconnected { reason } => {
                    &&& steps.len() == 1
                    &&& records_change(
                        steps[0],
                        config,
                        AdapterEventType::Disconnected,
                        "disconnected"@,
                        Json::Object(
                            map![
                                "reason"@ => (match reason {
                                    Some(why) => Json::Text(why@),
                                    None => Json::Null,
                                }),
                            ],
                        ),
                    )
                },
                WorkerEvent::Lifecycle { name, metadata } => {
                    &&& steps.len() == 1
                    &&& records_change(
                        steps[0],
                        config,
                        worker_events::event_type_of(name@),
                        name@,
                        json::json(metadata),
                    )
                },
                _ => true,
            }
        }),
{
    changes_are_told_apart_by_name("connected"@);
    changes_are_told_apart_by_name("disconnected"@);
    match event {
        WorkerEvent::Connected { subject, metadata } => {
            a_change_is_recorded(
                config,
                "connected"@,
                worker_events::connected_payload(text::opt_view(subject), json::json(metadata)),
            );
        },
        WorkerEvent::Disconnected { reason } => {
            a_change_is_recorded(
                config,
                "disconnected"@,
                worker_events::disconnected_payload(text::opt_view(reason)),
            );
        },
        WorkerEvent::Lifecycle { name, metadata } => {
            a_change_is_recorded(config, name@, json::json(metadata));
        },
        _ => {},
    }
}

/// A message is delivered as it came, an error is noted on the adapter and
/// recorded in the worker's words, and acknowledgements and refusals are handled
/// for the command they name; each of them does nothing else.
pub proof fn reports_are_acted_on(config: AdapterConfig, event: WorkerEvent)
    ensures
        ({
            let steps = worker_events::steps_for(config, event);
            match event {
                WorkerEvent::Message { message } => steps.len() == 1 && steps[0] == (
                WorkerStepView::Deliver { message }),
                WorkerEvent::Error { message } => steps.len() == 2 && steps[0] == (
                WorkerStepView::MarkError { words: message@ }) && steps[1] == (
                WorkerStepView::RecordEvent {
                    event_type: AdapterEventType::Error,
                    summary: message@,
                }),
                WorkerEvent::CommandAck { command_id } => steps.len() == 1 && steps[0] == (
                WorkerStepView::Acknowledge { command_id: command_id@ }),
                WorkerEvent::CommandNack { command_id, message } => steps.len() == 1 && steps[0]
                    == (WorkerStepView::Refuse { command_id: command_id@, reason: message@ }),
                _ => true,
            }
        }),
{
}

/// Whether two steps do the same.
pub open spec fn same_step(a: WorkerStep, b: WorkerStep) -> bool {
    match (a, b) {
        (WorkerStep::MarkConnected, WorkerStep::MarkConnected) => true,
        (WorkerStep::MarkError { words: x }, WorkerStep::MarkError { words: y }) => x@ == y@,
        (
            WorkerStep::RecordEvent { event_type: t, summary: x },
            WorkerStep::RecordEvent { event_type: u, summary: y },
        ) => t == u && x@ == y@,
        (WorkerStep::Deliver { message: x }, WorkerStep::Deliver { message: y }) => x == y,
        (
            WorkerStep::Acknowledge { command_id: x },
            WorkerStep::Acknowledge { command_id: y },
        ) => x@ == y@,
        (
            WorkerStep::Refuse { command_id: x, reason: r },
            WorkerStep::Refuse { command_id: y, reason: q },
        ) => x@ == y@ && r@ == q@,
        _ => false,
    }
}

/// A step's view shows everything it does.
pub proof fn a_step_shows_what_it_does(a: WorkerStep, b: WorkerStep)
    requires
        a@ == b@,
    ensures
        same_step(a, b),
{
}

/// Whether summaries are those of the delivered ones of some messages, in their
/// order: `from` says where each message stands.
pub open spec fn are_of_the_delivered(
    messages: Seq<AdapterOutboundMessageRecord>,
    summaries: Seq<Seq<char>>,
    from: Seq<int>,
) -> bool {
    &&& filters::picks(
        from,
        messages.len() as int,
        |i: int| messages[i].status == AdapterDeliveryStatus::Delivered,
    )
    &&& summaries.len() == from.len()
    &&& forall|k: int|
        0 <= k < from.len() ==> summaries[k] == outbound::delivered_summary(
            messages[#[trigger] from[k]].id@,
            messages[from[k]].attempt,
            DeliveredVia::SentMarker,
        )
}

/// Of requeued messages those that turn out to be delivered are recorded, every
/// one once and in order, and no other.
pub proof fn requeued_deliveries_are_recorded(messages: Seq<AdapterOutboundMessageRecord>)
    ensures
        exists|from: Seq<int>| #[trigger]
            are_of_the_delivered(messages, worker_events::requeued_deliveries_of(messages), from),
{
    let keep = |message: AdapterOutboundMessageRecord|
        message.status == AdapterDeliveryStatus::Delivered;
    let from = filters::kept_positions(messages, keep);
    let chosen = |i: int| messages[i].status == AdapterDeliveryStatus::Delivered;
    assert forall|i: int| 0 <= i < messages.len() && #[trigger] chosen(i) implies from.contains(
        i,
    ) by {
        assert((|i: int| keep(messages[i]))(i));
    }
    assert(are_of_the_delivered(
        messages,
        worker_events::requeued_deliveries_of(messages),
        from,
    ));
}

/// The contents of a run of steps are theirs, one for one and in order.
pub proof fn step_contents_are_those_of_the_steps(steps: Seq<WorkerStep>)
    ensures
        worker_events::step_views(steps).len() == steps.len(),
        forall|i: int|
            0 <= i < steps.len() ==> #[trigger] worker_events::step_views(steps)[i] == steps[i]@,
{
}

/// What a worker said is shown as its JSON text, and said to have none where it
/// has none.
pub proof fn payloads_are_shown_as_json(said: Json)
    ensures
        match worker_events::json_text(said) {
            Some(rendered) => worker_events::payload_text(said) == rendered,
            None => worker_events::payload_text(said) == "<unserializable>"@,
        },
{
}

} // verus!
