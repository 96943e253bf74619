use exo_attention::adapter::outbound::{
    audit_ack, check_outbound, delivered_event_summary, delivery_report, nack_plan,
    queued_event_summary, AckEffect, AckEvent, AckRun, AdapterDeliveryStatus, AdapterEventType,
    AdapterOutboundMessageRecord, ClaimEffect, ClaimEvent, ClaimRun, DeliveredVia, NackPlan,
    OutboundRefusal, WorkerCommand,
};
use exo_attention::adapter::types::{AdapterConfig, AdapterRecord};
use exo_attention::adapter::worker_events::requeued_deliveries;

const MAX_DELIVERY_ATTEMPTS: u64 = 5;

fn adapter(adapter_type: &str, enabled: bool) -> AdapterRecord {
    AdapterRecord {
        id: "adapter-1".to_string(),
        agent_id: "agent-1".to_string(),
        conversation_id: "conversation-1".to_string(),
        name: "dev".to_string(),
        enabled,
        config: AdapterConfig {
            adapter_type: adapter_type.to_string(),
            worker_command: vec!["true".to_string()],
            initialization: serde_json::Value::Null,
            state_dir: None,
            secret_env: Vec::new(),
        },
    }
}

fn record(id: &str, text: &str, attempt: u64, status: AdapterDeliveryStatus) -> AdapterOutboundMessageRecord {
    AdapterOutboundMessageRecord {
        id: id.to_string(),
        target: None,
        text: text.to_string(),
        attachments: Vec::new(),
        attempt,
        status,
    }
}

/// An outbox of one adapter, with the markers its worker left, the deliveries
/// that were counted and the events that were recorded.
#[derive(Default)]
struct Outbox {
    messages: Vec<(String, String, u64, Option<AdapterDeliveryStatus>)>,
    markers: Vec<String>,
    events: Vec<(AdapterEventType, String)>,
    delivered: usize,
    deduped: usize,
    events_are_broken: bool,
}

impl Outbox {
    fn enqueue(&mut self, id: &str, text: &str) {
        self.messages.push((
            id.to_string(),
            text.to_string(),
            0,
            Some(AdapterDeliveryStatus::Pending),
        ));
    }

    fn claim(&mut self) -> Vec<AdapterOutboundMessageRecord> {
        let mut claimed = Vec::new();
        for (id, text, attempt, status) in &mut self.messages {
            if *status == Some(AdapterDeliveryStatus::Pending) {
                *attempt += 1;
                *status = Some(AdapterDeliveryStatus::InFlight);
                claimed.push(record(id, text, *attempt, AdapterDeliveryStatus::InFlight));
            }
        }
        claimed
    }

    fn in_flight(&self) -> usize {
        self.messages
            .iter()
            .filter(|message| message.3 == Some(AdapterDeliveryStatus::InFlight))
            .count()
    }

    fn deliver(&mut self, wanted: &str) -> Option<AdapterOutboundMessageRecord> {
        for (id, text, attempt, status) in &mut self.messages {
            if id == wanted && *status == Some(AdapterDeliveryStatus::InFlight) {
                *status = None;
                return Some(record(id, text, *attempt, AdapterDeliveryStatus::Delivered));
            }
        }
        None
    }

    fn nack(&mut self, wanted: &str) -> Option<AdapterOutboundMessageRecord> {
        let marked = self.markers.iter().any(|marker| marker == wanted);
        for (id, text, attempt, status) in &mut self.messages {
            if id == wanted && *status == Some(AdapterDeliveryStatus::InFlight) {
                let next = if marked {
                    AdapterDeliveryStatus::Delivered
                } else if *attempt >= MAX_DELIVERY_ATTEMPTS {
                    AdapterDeliveryStatus::Failed
                } else {
                    AdapterDeliveryStatus::Pending
                };
                *status = if next == AdapterDeliveryStatus::Pending { Some(next) } else { None };
                return Some(record(id, text, *attempt, next));
            }
        }
        None
    }

    fn count(&mut self, deduped: bool) {
        self.delivered += 1;
        if deduped {
            self.deduped += 1;
        }
    }

    fn record_event(&mut self, event_type: AdapterEventType, summary: String) -> bool {
        if self.events_are_broken {
            return false;
        }
        self.events.push((event_type, summary));
        true
    }

    fn summaries(&self, event_type: AdapterEventType) -> Vec<String> {
        self.events
            .iter()
            .filter(|event| event.0 == event_type)
            .map(|event| event.1.clone())
            .collect()
    }

    /// The commands of the messages that can be claimed.
    fn dispatch(&mut self) -> Vec<WorkerCommand> {
        let claimed = self.claim();
        let (mut run, mut effect) = ClaimRun::start(claimed);
        loop {
            effect = match effect {
                ClaimEffect::CheckMarker { message_id } => {
                    let marked = self.markers.contains(&message_id);
                    run.advance(ClaimEvent::Checked { marked })
                }
                ClaimEffect::MarkDelivered { message_id } => {
                    let delivered = self.deliver(&message_id);
                    if let Some(report) = delivery_report(&delivered, DeliveredVia::SentMarker) {
                        self.count(report.deduped);
                        self.record_event(AdapterEventType::Outbound, report.summary);
                    }
                    run.advance(ClaimEvent::Marked)
                }
                ClaimEffect::Finish => return run.finish(),
            };
        }
    }

    /// Handle a worker's acknowledgement; whether that went well, and whether
    /// a missing marker was reported by then.
    fn ack(&mut self, command_id: &str, reported: bool) -> (bool, bool) {
        let mut run = AckRun::start(command_id.to_string(), reported);
        let mut effect = AckEffect::Acknowledge;
        loop {
            effect = match effect {
                AckEffect::Acknowledge => {
                    let delivered = self.deliver(command_id);
                    run.advance(AckEvent::Acknowledged { delivered })
                }
                AckEffect::CountDelivery { deduped } => {
                    self.count(deduped);
                    run.advance(AckEvent::Counted)
                }
                AckEffect::RecordEvent { event_type, summary } => {
                    if self.record_event(event_type, summary) {
                        run.advance(AckEvent::Recorded)
                    } else {
                        run.advance(AckEvent::Failed)
                    }
                }
                AckEffect::CheckMarker => {
                    let marked = self.markers.iter().any(|marker| marker == command_id);
                    run.advance(AckEvent::Checked { marked })
                }
                AckEffect::Finish { failed } => return (!failed, run.reported()),
            };
        }
    }

    /// Audit an acknowledgement.
    fn audit(&mut self, command_id: &str, reported: bool) -> bool {
        let marked = self.markers.iter().any(|marker| marker == command_id);
        let (summary, reported) = audit_ack(command_id, marked, reported);
        if let Some(summary) = summary {
            self.record_event(AdapterEventType::Lifecycle, summary);
        }
        reported
    }
}

#[test]
fn dispatch_skips_and_delivers_messages_the_worker_already_sent() {
    let mut outbox = Outbox::default();
    outbox.enqueue("already-sent", "sent");
    outbox.enqueue("fresh", "fresh");
    outbox.markers.push("already-sent".to_string());

    let commands = outbox.dispatch();

    let WorkerCommand::SendMessage { id, text, .. } =
        commands.first().expect("the fresh message should dispatch");
    assert_eq!(commands.len(), 1);
    assert_eq!(id, "fresh");
    assert_eq!(text, "fresh");
    assert_eq!(
        outbox.summaries(AdapterEventType::Outbound),
        vec![
            "delivered adapter message already-sent on attempt 1 (deduped: sent marker present)"
                .to_string()
        ],
    );
    // Delivered, not requeued: the suppressed message never comes back.
    assert!(outbox.dispatch().is_empty());
    assert_eq!(outbox.delivered, 1);
    assert_eq!(outbox.deduped, 1);
}

#[test]
fn a_worker_ack_counts_as_delivered_but_not_deduped() {
    let mut outbox = Outbox::default();
    outbox.enqueue("message-1", "hello");
    outbox.claim();
    outbox.markers.push("message-1".to_string());

    let (acked, _) = outbox.ack("message-1", false);
    assert!(acked);

    assert_eq!(outbox.delivered, 1);
    assert_eq!(outbox.deduped, 0);
}

#[test]
fn an_ack_without_a_sent_marker_is_reported() {
    let mut outbox = Outbox::default();
    outbox.audit("message-1", false);
    assert_eq!(
        outbox.summaries(AdapterEventType::Lifecycle),
        vec!["adapter message message-1 was acked without a sent marker".to_string()],
    );
}

#[test]
fn an_ack_with_a_sent_marker_is_not_reported() {
    let mut outbox = Outbox::default();
    outbox.markers.push("message-1".to_string());
    outbox.audit("message-1", false);
    assert!(outbox.summaries(AdapterEventType::Lifecycle).is_empty());
}

#[test]
fn unmarked_acks_are_reported_once_per_worker_run() {
    let mut outbox = Outbox::default();
    let mut reported = false;
    for message in ["message-1", "message-2", "message-3"] {
        reported = outbox.audit(message, reported);
    }
    // A worker that never records markers would otherwise append an event
    // for every message it will ever send.
    assert_eq!(
        outbox.summaries(AdapterEventType::Lifecycle),
        vec!["adapter message message-1 was acked without a sent marker".to_string()],
    );

    // The next worker run starts with fresh state and reports again.
    outbox.audit("message-4", false);
    assert_eq!(outbox.summaries(AdapterEventType::Lifecycle).len(), 2);
}

#[test]
fn an_ack_delivers_the_message_before_it_audits_it() {
    let mut outbox = Outbox::default();
    outbox.enqueue("message-1", "hello");
    outbox.claim();
    // The disk that stopped the worker writing its marker also breaks
    // every store write that follows.
    outbox.events_are_broken = true;

    let (acked, _) = outbox.ack("message-1", false);

    // Auditing first would have failed with the message still in flight,
    // and the requeue on restart would then send it a second time.
    assert_eq!(
        outbox.in_flight(),
        0,
        "the ack must be recorded before anything that can fail: {acked}"
    );
}

#[test]
fn an_ack_survives_an_audit_that_cannot_record() {
    let mut outbox = Outbox::default();
    // A late ack for a message the dedupe already delivered: nothing left
    // to acknowledge, so only the audit writes.
    outbox.events_are_broken = true;
    let (acked, _) = outbox.ack("message-1", false);
    assert!(acked, "an audit that cannot record must not take the worker loop down");
}

#[test]
fn a_nack_at_the_attempt_cap_delivers_a_marked_message() {
    let mut outbox = Outbox::default();
    outbox.enqueue("message-1", "hello");
    for _ in 1..MAX_DELIVERY_ATTEMPTS {
        outbox.claim();
        outbox.nack("message-1").unwrap();
    }
    // The last attempt lands on the platform, then the worker dies between
    // marking it and acking, and the runner nacks what it never saw acked.
    outbox.claim();
    outbox.markers.push("message-1".to_string());

    let nacked = outbox.nack("message-1");
    match nack_plan(&nacked, "worker exited") {
        NackPlan::Delivered { report } => {
            outbox.count(report.deduped);
            outbox.record_event(AdapterEventType::Outbound, report.summary);
        }
        other => panic!("the marker outranks the refusal: {other:?}"),
    }

    assert_eq!(
        outbox.summaries(AdapterEventType::Outbound),
        vec![format!(
            "delivered adapter message message-1 on attempt {MAX_DELIVERY_ATTEMPTS} (deduped: sent marker present)"
        )],
    );
    // A delivered message is never an adapter error, and it is gone from
    // the queue rather than waiting for another attempt.
    assert!(outbox.summaries(AdapterEventType::Error).is_empty());
    assert!(outbox.dispatch().is_empty());
}

#[test]
fn a_refused_message_is_retried_until_no_attempt_is_left() {
    let retrying = nack_plan(
        &Some(record("m", "t", 1, AdapterDeliveryStatus::Pending)),
        "rate limited",
    );
    assert!(matches!(retrying, NackPlan::Retrying { summary } if summary.contains("rate limited")));
    let failed = nack_plan(
        &Some(record("m", "t", 5, AdapterDeliveryStatus::Failed)),
        "rate limited",
    );
    assert!(matches!(failed, NackPlan::Failed { summary } if summary.contains("rate limited")));
    assert!(matches!(nack_plan(&None, "rate limited"), NackPlan::Nothing));
}

#[test]
fn refused_messages_say_why() {
    assert!(check_outbound(&adapter("discord", true), 2).is_ok());
    match check_outbound(&adapter("discord", false), 0) {
        Err(refusal @ OutboundRefusal::Disabled { .. }) => {
            assert!(refusal.message().contains("adapter-1"));
        }
        other => panic!("a disabled adapter sends nothing: {other:?}"),
    }
    assert!(check_outbound(&adapter("telegram", true), 0).is_ok());
    match check_outbound(&adapter("telegram", true), 1) {
        Err(refusal @ OutboundRefusal::NoRichAttachments { .. }) => {
            assert_eq!(refusal.message(), "adapter telegram does not support rich attachments");
        }
        other => panic!("not every platform takes attachments: {other:?}"),
    }
}

#[test]
fn deliveries_are_summarised() {
    let delivered = record("m-1", "t", 2, AdapterDeliveryStatus::Delivered);
    assert_eq!(
        delivered_event_summary(&delivered, DeliveredVia::WorkerAck),
        "delivered adapter message m-1 on attempt 2"
    );
    assert!(queued_event_summary(&adapter("discord", true), "m-1", Some("c-9")).contains("c-9"));
    assert!(queued_event_summary(&adapter("discord", true), "m-1", None).contains("m-1"));
    let requeued = requeued_deliveries(&vec![
        record("m-2", "t", 1, AdapterDeliveryStatus::Pending),
        record("m-3", "t", 4, AdapterDeliveryStatus::Delivered),
    ]);
    assert_eq!(
        requeued,
        vec!["delivered adapter message m-3 on attempt 4 (deduped: sent marker present)"]
    );
}
