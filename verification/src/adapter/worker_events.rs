//! What to do about what a worker reports.

use serde_json::Value;
use vstd::prelude::*;

use super::message_run::InboundMessage;
use super::outbound::{self, AdapterDeliveryStatus, AdapterEventType, AdapterOutboundMessageRecord, DeliveredVia};
use super::types::AdapterConfig;
use crate::json::{self, Json};
use crate::text;

verus! {

/// The compact JSON text of what a value holds, as `serde_json::to_string`
/// gives it; `None` where it gives none.
pub uninterp spec fn json_text(held: Json) -> Option<Seq<char>>;

/// `serde_json::to_string`: the compact JSON text of a value, or `None` where
/// it fails. An object's fields come in the order of their names, so the text
/// is a matter of what the value holds.
#[verifier::external_body]
fn to_json_text(value: &Value) -> (rendered: Option<String>)
    ensures
        text::opt_view(rendered) == json_text(json::json(*value)),
{
    serde_json::to_string(value).ok()
}

/// What a worker reports.
#[derive(Debug)]
pub enum WorkerEvent {
    /// The worker is connected, as whom and with what it says of itself.
    Connected { subject: Option<String>, metadata: Value },
    Message { message: InboundMessage },
    Lifecycle { name: String, metadata: Value },
    Error { message: String },
    CommandAck { command_id: String },
    CommandNack { command_id: String, message: String },
    /// The worker is disconnected, with its reason.
    Disconnected { reason: Option<String> },
}

/// One thing to do about a report.
#[derive(Debug)]
pub enum WorkerStep {
    /// Note on the adapter that it is connected.
    MarkConnected,
    /// Note an error on the adapter.
    MarkError { words: String },
    /// Record an event of the adapter.
    RecordEvent { event_type: AdapterEventType, summary: String },
    /// Find the message's conversation and handle the message.
    Deliver { message: InboundMessage },
    /// Handle the acknowledgement of a command.
    Acknowledge { command_id: String },
    /// Handle the refusal of a command.
    Refuse { command_id: String, reason: String },
}

/// The contents of a [`WorkerStep`].
#[verifier::ext_equal]
pub enum WorkerStepView {
    MarkConnected,
    MarkError { words: Seq<char> },
    RecordEvent { event_type: AdapterEventType, summary: Seq<char> },
    Deliver { message: InboundMessage },
    Acknowledge { command_id: Seq<char> },
    Refuse { command_id: Seq<char>, reason: Seq<char> },
}

impl View for WorkerStep {
    type V = WorkerStepView;

    open spec fn view(&self) -> WorkerStepView {
        match *self {
            WorkerStep::MarkConnected => WorkerStepView::MarkConnected,
            WorkerStep::MarkError { words } => WorkerStepView::MarkError { words: words@ },
            WorkerStep::RecordEvent { event_type, summary } => WorkerStepView::RecordEvent {
                event_type,
                summary: summary@,
            },
            WorkerStep::Deliver { message } => WorkerStepView::Deliver { message },
            WorkerStep::Acknowledge { command_id } => WorkerStepView::Acknowledge {
                command_id: command_id@,
            },
            WorkerStep::Refuse { command_id, reason } => WorkerStepView::Refuse {
                command_id: command_id@,
                reason: reason@,
            },
        }
    }
}

/// The contents of each step.
pub open spec fn step_views(steps: Seq<WorkerStep>) -> Seq<WorkerStepView> {
    steps.map_values(|step: WorkerStep| step@)
}

/// What kind of event a worker's change of state is recorded as.
pub open spec fn event_type_of(name: Seq<char>) -> AdapterEventType {
    if name == "connected"@ {
        AdapterEventType::Connected
    } else if name == "disconnected"@ {
        AdapterEventType::Disconnected
    } else if name == "error"@ {
        AdapterEventType::Error
    } else {
        AdapterEventType::Lifecycle
    }
}

/// What kind of event a worker's change of state is recorded as.
pub fn lifecycle_event_type(name: &str) -> (event_type: AdapterEventType)
    ensures
        event_type == event_type_of(name@),
{
    if text::str_eq(name, "connected") {
        AdapterEventType::Connected
    } else if text::str_eq(name, "disconnected") {
        AdapterEventType::Disconnected
    } else if text::str_eq(name, "error") {
        AdapterEventType::Error
    } else {
        AdapterEventType::Lifecycle
    }
}

/// The record of a worker's change of state: with what it said, unless that is
/// nothing.
pub open spec fn lifecycle_summary_of(
    adapter_type: Seq<char>,
    name: Seq<char>,
    payload_json: Seq<char>,
) -> Seq<char> {
    let head = adapter_type + " worker "@ + name;
    if payload_json == "null"@ || payload_json == "{}"@ {
        head
    } else {
        head + ": "@ + payload_json
    }
}

/// The record of a worker's change of state, given the JSON text of what it
/// said.
pub fn lifecycle_summary(adapter_type: &str, name: &str, payload_json: &str) -> (summary: String)
    ensures
        summary@ == lifecycle_summary_of(adapter_type@, name@, payload_json@),
{
    let mut summary = adapter_type.to_string();
    summary.append(" worker ");
    summary.append(name);
    if !text::str_eq(payload_json, "null") && !text::str_eq(payload_json, "{}") {
        summary.append(": ");
        summary.append(payload_json);
    }
    summary
}

/// The JSON text of a payload, or what stands for one that has none.
pub open spec fn payload_text(payload: Json) -> Seq<char> {
    match json_text(payload) {
        Some(rendered) => rendered,
        None => "<unserializable>"@,
    }
}

/// The step that records a worker's change of state.
pub open spec fn lifecycle_step(
    config: AdapterConfig,
    name: Seq<char>,
    payload: Json,
) -> WorkerStepView {
    WorkerStepView::RecordEvent {
        event_type: event_type_of(name),
        summary: lifecycle_summary_of(config.adapter_type@, name, payload_text(payload)),
    }
}

/// The step that records a worker's change of state.
fn record_worker_lifecycle(config: &AdapterConfig, name: &str, payload: &Value) -> (step: WorkerStep)
    ensures
        step@ == lifecycle_step(*config, name@, json::json(*payload)),
{
    let payload_json = match to_json_text(payload) {
        Some(rendered) => rendered,
        None => "<unserializable>".to_string(),
    };
    WorkerStep::RecordEvent {
        event_type: lifecycle_event_type(name),
        summary: lifecycle_summary(
            config.adapter_type.as_str(),
            name,
            payload_json.as_str(),
        ),
    }
}

/// What is recorded of a connection: its subject and metadata.
pub open spec fn connected_payload(subject: Option<Seq<char>>, metadata: Json) -> Json {
    Json::Object(map!["subject"@ => json::opt_text(subject), "metadata"@ => metadata])
}

/// What is recorded of a connection: its subject and metadata.
fn describe_connection(subject: Option<String>, metadata: Value) -> (payload: Value)
    ensures
        json::json(payload) == connected_payload(text::opt_view(subject), json::json(metadata)),
{
    let ghost held = json::opt_text(text::opt_view(subject));
    let mut fields: Vec<(String, Value)> = Vec::new();
    fields.push(("subject".to_string(), json::opt_text_value(subject)));
    fields.push(("metadata".to_string(), metadata));
    proof {
        reveal_strlit("subject");
        reveal_strlit("metadata");
        assert("subject"@.len() != "metadata"@.len());
        reveal_with_fuel(json::fields_of, 3);
        assert(json::fields_of(fields@) =~= map![
            "subject"@ => held,
            "metadata"@ => json::json(metadata),
        ]);
    }
    json::object_of(fields)
}

/// What is recorded of a disconnection: its reason.
pub open spec fn disconnected_payload(reason: Option<Seq<char>>) -> Json {
    Json::Object(map!["reason"@ => json::opt_text(reason)])
}

/// What is recorded of a disconnection: its reason.
fn describe_disconnection(reason: Option<String>) -> (payload: Value)
    ensures
        json::json(payload) == disconnected_payload(text::opt_view(reason)),
{
    let ghost held = json::opt_text(text::opt_view(reason));
    let mut fields: Vec<(String, Value)> = Vec::new();
    fields.push(("reason".to_string(), json::opt_text_value(reason)));
    proof {
        reveal_with_fuel(json::fields_of, 2);
        assert(json::fields_of(fields@) =~= map!["reason"@ => held]);
    }
    json::object_of(fields)
}

/// What to do about a report, in order; a step that fails ends it.
pub open spec fn steps_for(config: AdapterConfig, event: WorkerEvent) -> Seq<WorkerStepView> {
    match event {
        WorkerEvent::Connected { subject, metadata } => seq![
            WorkerStepView::MarkConnected,
            lifecycle_step(
                config,
                "connected"@,
                connected_payload(text::opt_view(subject), json::json(metadata)),
            ),
        ],
        WorkerEvent::Message { message } => seq![WorkerStepView::Deliver { message }],
        WorkerEvent::Lifecycle { name, metadata } => seq![
            lifecycle_step(config, name@, json::json(metadata)),
        ],
        WorkerEvent::Error { message } => seq![
            WorkerStepView::MarkError { words: message@ },
            WorkerStepView::RecordEvent {
                event_type: AdapterEventType::Error,
                summary: message@,
            },
        ],
        WorkerEvent::CommandAck { command_id } => seq![
            WorkerStepView::Acknowledge { command_id: command_id@ },
        ],
        WorkerEvent::CommandNack { command_id, message } => seq![
            WorkerStepView::Refuse { command_id: command_id@, reason: message@ },
        ],
        WorkerEvent::Disconnected { reason } => seq![
            lifecycle_step(config, "disconnected"@, disconnected_payload(text::opt_view(reason))),
        ],
    }
}

/// What to do about what a worker reports, in order; a step that fails ends it.
pub fn handle_worker_event(config: &AdapterConfig, event: WorkerEvent) -> (steps: Vec<WorkerStep>)
    ensures
        step_views(steps@) == steps_for(*config, event),
{
    let mut steps: Vec<WorkerStep> = Vec::new();
    match event {
        WorkerEvent::Connected { subject, metadata } => {
            let payload = describe_connection(subject, metadata);
            steps.push(WorkerStep::MarkConnected);
            steps.push(record_worker_lifecycle(config, "connected", &payload));
        },
        WorkerEvent::Message { message } => {
            steps.push(WorkerStep::Deliver { message });
        },
        WorkerEvent::Lifecycle { name, metadata } => {
            steps.push(record_worker_lifecycle(config, name.as_str(), &metadata));
        },
        WorkerEvent::Error { message } => {
            steps.push(WorkerStep::MarkError { words: message.clone() });
            steps.push(
                WorkerStep::RecordEvent { event_type: AdapterEventType::Error, summary: message },
            );
        },
        WorkerEvent::CommandAck { command_id } => {
            steps.push(WorkerStep::Acknowledge { command_id });
        },
        WorkerEvent::CommandNack { command_id, message } => {
            steps.push(WorkerStep::Refuse { command_id, reason: message });
        },
        WorkerEvent::Disconnected { reason } => {
            let payload = describe_disconnection(reason);
            steps.push(record_worker_lifecycle(config, "disconnected", &payload));
        },
    }
    assert(step_views(steps@) =~= steps_for(*config, event));
    steps
}

/// The records of requeued messages that turn out to be delivered.
pub open spec fn requeued_deliveries_of(messages: Seq<AdapterOutboundMessageRecord>) -> Seq<
    Seq<char>,
> {
    messages.filter(
        |message: AdapterOutboundMessageRecord|
            message.status == AdapterDeliveryStatus::Delivered,
    ).map_values(
        |message: AdapterOutboundMessageRecord|
            outbound::delivered_summary(message.id@, message.attempt, DeliveredVia::SentMarker),
    )
}

/// What to record before a worker starts: a message whose last attempt died
/// after the worker had sent it comes back delivered rather than requeued, and
/// nothing else would say so.
pub fn requeued_deliveries(messages: &Vec<AdapterOutboundMessageRecord>) -> (summaries: Vec<String>)
    ensures
        text::views(summaries@) == requeued_deliveries_of(messages@),
{
    let mut summaries: Vec<String> = Vec::new();
    let mut i: usize = 0;
    proof {
        reveal(Seq::filter);
        assert(messages@.take(0) =~= Seq::empty());
        assert(text::views(summaries@) =~= requeued_deliveries_of(messages@.take(0)));
    }
    while i < messages.len()
        invariant
            i <= messages.len(),
            text::views(summaries@) == requeued_deliveries_of(messages@.take(i as int)),
        decreases messages.len() - i,
    {
        let message = &messages[i];
        let ghost before = summaries@;
        let ghost earlier = requeued_deliveries_of(messages@.take(i as int));
        let ghost now = requeued_deliveries_of(messages@.take(i + 1));
        proof {
            assert(messages@.take(i + 1).drop_last() =~= messages@.take(i as int));
            assert(messages@.take(i + 1).last() == *message);
            reveal(Seq::filter);
        }
        if message.status == AdapterDeliveryStatus::Delivered {
            summaries.push(outbound::delivered_event_summary(message, DeliveredVia::SentMarker));
            assert(now =~= earlier.push(
                outbound::delivered_summary(message.id@, message.attempt, DeliveredVia::SentMarker),
            ));
            assert(text::views(summaries@) =~= text::views(before).push(
                outbound::delivered_summary(message.id@, message.attempt, DeliveredVia::SentMarker),
            ));
        } else {
            assert(now =~= earlier);
        }
        i += 1;
    }
    assert(messages@.take(i as int) =~= messages@);
    summaries
}

} // verus!
