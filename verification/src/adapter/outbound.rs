//! Messages on their way out: what may be queued, what the worker is handed,
//! and how a delivery is recorded.

use vstd::prelude::*;

use super::types::{AdapterAttachment, AdapterAttachmentView, AdapterRecord};
use crate::text;

verus! {

/// How far a queued message has come.
#[derive(Debug, Clone, Copy, PartialEq, Eq, Structural)]
pub enum AdapterDeliveryStatus {
    Pending,
    InFlight,
    Delivered,
    Failed,
}

/// A message in an adapter's outbox.
#[derive(Debug)]
pub struct AdapterOutboundMessageRecord {
    pub id: String,
    pub target: Option<String>,
    pub text: String,
    pub attachments: Vec<AdapterAttachment>,
    pub attempt: u64,
    pub status: AdapterDeliveryStatus,
}

/// What an event of an adapter is about.
#[derive(Debug, Clone, Copy, PartialEq, Eq, Structural)]
pub enum AdapterEventType {
    Connected,
    Disconnected,
    Inbound,
    Outbound,
    Lifecycle,
    Error,
}

/// What a worker is told to do.
#[derive(Debug)]
pub enum WorkerCommand {
    SendMessage {
        id: String,
        target: Option<String>,
        text: String,
        attachments: Vec<AdapterAttachment>,
    },
}

/// The contents of a [`WorkerCommand`].
#[verifier::ext_equal]
pub struct CommandView {
    pub id: Seq<char>,
    pub target: Option<Seq<char>>,
    pub text: Seq<char>,
    pub attachments: Seq<AdapterAttachmentView>,
}

impl View for WorkerCommand {
    type V = CommandView;

    open spec fn view(&self) -> CommandView {
        match *self {
            WorkerCommand::SendMessage { id, target, text, attachments } => CommandView {
                id: id@,
                target: text::opt_view(target),
                text: text@,
                attachments: super::types::attachment_views(attachments@),
            },
        }
    }
}

/// Why a message may not be queued.
#[derive(Debug)]
pub enum OutboundRefusal {
    /// The adapter is disabled.
    Disabled { adapter_id: String },
    /// The platform takes no attachments.
    NoRichAttachments { adapter_type: String },
}

/// Whether a platform takes attachments.
pub open spec fn takes_attachments(adapter_type: Seq<char>) -> bool {
    adapter_type == "whatsapp"@ || adapter_type == "signal"@ || adapter_type == "discord"@
}

/// Whether a message with so many attachments may be queued on an adapter.
pub fn check_outbound(adapter: &AdapterRecord, attachments: usize) -> (checked: Result<
    (),
    OutboundRefusal,
>)
    ensures
        match checked {
            Ok(_) => adapter.enabled && (attachments == 0 || takes_attachments(
                adapter.config.adapter_type@,
            )),
            Err(OutboundRefusal::Disabled { adapter_id }) => !adapter.enabled && adapter_id@
                == adapter.id@,
            Err(OutboundRefusal::NoRichAttachments { adapter_type }) => adapter.enabled
                && attachments > 0 && !takes_attachments(adapter.config.adapter_type@)
                && adapter_type@ == adapter.config.adapter_type@,
        },
{
    if !adapter.enabled {
        return Err(OutboundRefusal::Disabled { adapter_id: adapter.id.clone() });
    }
    let platform = adapter.config.adapter_type.as_str();
    if attachments > 0 && !text::str_eq(platform, "whatsapp") && !text::str_eq(platform, "signal")
        && !text::str_eq(platform, "discord") {
        return Err(
            OutboundRefusal::NoRichAttachments {
                adapter_type: adapter.config.adapter_type.clone(),
            },
        );
    }
    Ok(())
}

/// The words of a refusal.
pub open spec fn refusal_words(refusal: OutboundRefusal) -> Seq<char> {
    match refusal {
        OutboundRefusal::Disabled { adapter_id } => "adapter is disabled: "@ + adapter_id@,
        OutboundRefusal::NoRichAttachments { adapter_type } => "adapter "@ + adapter_type@
            + " does not support rich attachments"@,
    }
}

impl OutboundRefusal {
    /// The refusal in words.
    pub fn message(&self) -> (words: String)
        ensures
            words@ == refusal_words(*self),
    {
        match self {
            OutboundRefusal::Disabled { adapter_id } => {
                let mut words = "adapter is disabled: ".to_string();
                words.append(adapter_id.as_str());
                words
            },
            OutboundRefusal::NoRichAttachments { adapter_type } => {
                let mut words = "adapter ".to_string();
                words.append(adapter_type.as_str());
                words.append(" does not support rich attachments");
                words
            },
        }
    }
}

/// The record of a queued message.
pub open spec fn queued_summary(
    adapter_type: Seq<char>,
    message_id: Seq<char>,
    target: Option<Seq<char>>,
) -> Seq<char> {
    let queued = "queued "@ + adapter_type + " adapter message "@ + message_id;
    match target {
        Some(target) => queued + " to "@ + target,
        None => queued,
    }
}

/// The record of a queued message.
pub fn queued_event_summary(
    adapter: &AdapterRecord,
    message_id: &str,
    target: Option<&str>,
) -> (summary: String)
    ensures
        summary@ == queued_summary(
            adapter.config.adapter_type@,
            message_id@,
            text::opt_str_view(target),
        ),
{
    let mut summary = "queued ".to_string();
    summary.append(adapter.config.adapter_type.as_str());
    summary.append(" adapter message ");
    summary.append(message_id);
    if let Some(target) = target {
        summary.append(" to ");
        summary.append(target);
    }
    summary
}

/// How a message came to count as delivered: the worker said so, or a marker
/// showed that it had been sent before. A suppressed redelivery would look like
/// a fresh send otherwise.
#[derive(Debug, Clone, Copy, PartialEq, Eq, Structural)]
pub enum DeliveredVia {
    WorkerAck,
    SentMarker,
}

/// The record of a delivery.
pub open spec fn delivered_summary(id: Seq<char>, attempt: u64, via: DeliveredVia) -> Seq<char> {
    let delivered = "delivered adapter message "@ + id + " on attempt "@ + text::decimal(
        attempt as nat,
    );
    match via {
        DeliveredVia::WorkerAck => delivered,
        DeliveredVia::SentMarker => delivered + " (deduped: sent marker present)"@,
    }
}

/// The record of a delivery.
pub fn delivered_event_summary(
    message: &AdapterOutboundMessageRecord,
    delivered_via: DeliveredVia,
) -> (summary: String)
    ensures
        summary@ == delivered_summary(message.id@, message.attempt, delivered_via),
{
    let mut summary = "delivered adapter message ".to_string();
    summary.append(message.id.as_str());
    summary.append(" on attempt ");
    text::push_decimal(&mut summary, message.attempt);
    if delivered_via == DeliveredVia::SentMarker {
        summary.append(" (deduped: sent marker present)");
    }
    summary
}

/// What to record of a delivery: whether it was suppressed as a duplicate, and
/// the event's words.
#[derive(Debug)]
pub struct DeliveryReport {
    pub deduped: bool,
    pub summary: String,
}

/// What to record once a message counts as delivered; nothing where it already
/// did.
pub fn delivery_report(
    delivered: &Option<AdapterOutboundMessageRecord>,
    delivered_via: DeliveredVia,
) -> (report: Option<DeliveryReport>)
    ensures
        match delivered {
            Some(message) => report matches Some(held) && held.deduped == (delivered_via
                == DeliveredVia::SentMarker) && held.summary@ == delivered_summary(
                message.id@,
                message.attempt,
                delivered_via,
            ),
            None => report is None,
        },
{
    match delivered {
        Some(message) => Some(
            DeliveryReport {
                deduped: delivered_via == DeliveredVia::SentMarker,
                summary: delivered_event_summary(message, delivered_via),
            },
        ),
        None => None,
    }
}

/// The record of a failed attempt.
pub open spec fn nack_summary(
    terminal: bool,
    id: Seq<char>,
    attempt: u64,
    reason: Seq<char>,
) -> Seq<char> {
    (if terminal {
        "failed"@
    } else {
        "retrying"@
    }) + " adapter message "@ + id + " after attempt "@ + text::decimal(attempt as nat) + ": "@
        + reason
}

/// What to do about a refused send.
#[derive(Debug)]
pub enum NackPlan {
    /// The message is not known, or no longer in flight: nothing.
    Nothing,
    /// The marker outranks the refusal: the message had reached the platform,
    /// and is recorded as delivered.
    Delivered { report: DeliveryReport },
    /// No attempt is left: note the error on the adapter, and record it.
    Failed { summary: String },
    /// Record the error, and try again.
    Retrying { summary: String },
}

/// What to do about a refused send, given what the outbox made of it.
pub fn nack_plan(delivery: &Option<AdapterOutboundMessageRecord>, reason: &str) -> (plan: NackPlan)
    ensures
        match delivery {
            None => plan is Nothing,
            Some(message) => match message.status {
                AdapterDeliveryStatus::Delivered => plan matches NackPlan::Delivered { report }
                    && report.deduped && report.summary@ == delivered_summary(
                    message.id@,
                    message.attempt,
                    DeliveredVia::SentMarker,
                ),
                AdapterDeliveryStatus::Failed => plan matches NackPlan::Failed { summary }
                    && summary@ == nack_summary(true, message.id@, message.attempt, reason@),
                _ => plan matches NackPlan::Retrying { summary } && summary@ == nack_summary(
                    false,
                    message.id@,
                    message.attempt,
                    reason@,
                ),
            },
        },
{
    let message = match delivery {
        Some(message) => message,
        None => {
            return NackPlan::Nothing;
        },
    };
    if message.status == AdapterDeliveryStatus::Delivered {
        return NackPlan::Delivered {
            report: DeliveryReport {
                deduped: true,
                summary: delivered_event_summary(message, DeliveredVia::SentMarker),
            },
        };
    }
    let terminal = message.status == AdapterDeliveryStatus::Failed;
    let mut summary = if terminal {
        "failed".to_string()
    } else {
        "retrying".to_string()
    };
    summary.append(" adapter message ");
    summary.append(message.id.as_str());
    summary.append(" after attempt ");
    text::push_decimal(&mut summary, message.attempt);
    summary.append(": ");
    summary.append(reason);
    if terminal {
        NackPlan::Failed { summary }
    } else {
        NackPlan::Retrying { summary }
    }
}

/// The report of an acknowledged send that left no marker.
pub open spec fn unmarked_summary(command_id: Seq<char>) -> Seq<char> {
    "adapter message "@ + command_id + " was acked without a sent marker"@
}

/// What is reported of an acknowledged send, given whether its marker is there
/// and whether this worker run has been reported before, and whether it has
/// been now. A worker that never writes markers is reported once per run.
pub fn audit_ack(command_id: &str, marked: bool, reported: bool) -> (audit: (Option<String>, bool))
    ensures
        if !marked && !reported {
            audit.0 matches Some(summary) && summary@ == unmarked_summary(command_id@) && audit.1
        } else {
            audit.0 is None && audit.1 == reported
        },
{
    if marked || reported {
        return (None, reported);
    }
    let mut summary = "adapter message ".to_string();
    summary.append(command_id);
    summary.append(" was acked without a sent marker");
    (Some(summary), true)
}

/// The outside operation handling an acknowledgement needs next, or its end.
#[derive(Debug)]
pub enum AckEffect {
    /// Move the message to delivered in the outbox.
    Acknowledge,
    /// Count the delivery; a failure to count is passed over.
    CountDelivery { deduped: bool },
    /// Record an event of the adapter.
    RecordEvent { event_type: AdapterEventType, summary: String },
    /// See whether the send left its marker.
    CheckMarker,
    /// The acknowledgement is handled; where it failed, the failed operation's
    /// error is the result.
    Finish { failed: bool },
}

/// What came of an outside operation.
#[derive(Debug)]
pub enum AckEvent {
    /// The message as it was delivered, or nothing where it already had been.
    Acknowledged { delivered: Option<AdapterOutboundMessageRecord> },
    Counted,
    Recorded,
    /// Whether the marker is there.
    Checked { marked: bool },
    /// The operation failed.
    Failed,
}

/// Where handling an acknowledgement stands.
#[derive(Debug)]
pub enum AckPhase {
    Acknowledging,
    Counting { summary: String },
    Recording,
    Checking,
    Reporting,
    Finished,
}

/// The contents of an [`AckEffect`].
#[verifier::ext_equal]
pub enum AckEffectView {
    Acknowledge,
    CountDelivery { deduped: bool },
    RecordEvent { event_type: AdapterEventType, summary: Seq<char> },
    CheckMarker,
    Finish { failed: bool },
}

/// The contents of an [`AckEvent`]: of a delivered message, its id and attempt.
#[verifier::ext_equal]
pub enum AckEventView {
    Acknowledged { delivered: Option<(Seq<char>, u64)> },
    Counted,
    Recorded,
    Checked { marked: bool },
    Failed,
}

/// The contents of an [`AckPhase`].
#[verifier::ext_equal]
pub enum AckPhaseView {
    Acknowledging,
    Counting { summary: Seq<char> },
    Recording,
    Checking,
    Reporting,
    Finished,
}

impl View for AckEffect {
    type V = AckEffectView;

    open spec fn view(&self) -> AckEffectView {
        match *self {
            AckEffect::Acknowledge => AckEffectView::Acknowledge,
            AckEffect::CountDelivery { deduped } => AckEffectView::CountDelivery { deduped },
            AckEffect::RecordEvent { event_type, summary } => AckEffectView::RecordEvent {
                event_type,
                summary: summary@,
            },
            AckEffect::CheckMarker => AckEffectView::CheckMarker,
            AckEffect::Finish { failed } => AckEffectView::Finish { failed },
        }
    }
}

impl View for AckEvent {
    type V = AckEventView;

    open spec fn view(&self) -> AckEventView {
        match *self {
            AckEvent::Acknowledged { delivered } => AckEventView::Acknowledged {
                delivered: match delivered {
                    Some(message) => Some((message.id@, message.attempt)),
                    None => None,
                },
            },
            AckEvent::Counted => AckEventView::Counted,
            AckEvent::Recorded => AckEventView::Recorded,
            AckEvent::Checked { marked } => AckEventView::Checked { marked },
            AckEvent::Failed => AckEventView::Failed,
        }
    }
}

impl View for AckPhase {
    type V = AckPhaseView;

    open spec fn view(&self) -> AckPhaseView {
        match *self {
            AckPhase::Acknowledging => AckPhaseView::Acknowledging,
            AckPhase::Counting { summary } => AckPhaseView::Counting { summary: summary@ },
            AckPhase::Recording => AckPhaseView::Recording,
            AckPhase::Checking => AckPhaseView::Checking,
            AckPhase::Reporting => AckPhaseView::Reporting,
            AckPhase::Finished => AckPhaseView::Finished,
        }
    }
}

/// Whether an event answers what a phase is waiting for.
pub open spec fn answers(phase: AckPhaseView, event: AckEventView) -> bool {
    match phase {
        AckPhaseView::Acknowledging => event is Acknowledged || event is Failed,
        AckPhaseView::Counting { .. } => event is Counted || event is Failed,
        AckPhaseView::Recording => event is Recorded || event is Failed,
        AckPhaseView::Checking => event is Checked || event is Failed,
        AckPhaseView::Reporting => event is Recorded || event is Failed,
        AckPhaseView::Finished => false,
    }
}

/// What handling the acknowledgement of a command does with an event, and
/// whether this worker run has then been reported for leaving no markers. The
/// delivery is recorded first; the audit comes strictly after it, and a failure
/// in it is passed over.
pub open spec fn next_ack(
    command_id: Seq<char>,
    phase: AckPhaseView,
    reported: bool,
    event: AckEventView,
) -> (AckPhaseView, bool, AckEffectView) {
    match (phase, event) {
        (AckPhaseView::Acknowledging, AckEventView::Acknowledged { delivered: Some(message) }) => (
            AckPhaseView::Counting {
                summary: delivered_summary(message.0, message.1, DeliveredVia::WorkerAck),
            },
            reported,
            AckEffectView::CountDelivery { deduped: false },
        ),
        (AckPhaseView::Acknowledging, AckEventView::Acknowledged { delivered: None }) => (
            AckPhaseView::Checking,
            reported,
            AckEffectView::CheckMarker,
        ),
        (AckPhaseView::Counting { summary }, _) => (
            AckPhaseView::Recording,
            reported,
            AckEffectView::RecordEvent { event_type: AdapterEventType::Outbound, summary },
        ),
        (AckPhaseView::Recording, AckEventView::Recorded) => (
            AckPhaseView::Checking,
            reported,
            AckEffectView::CheckMarker,
        ),
        (AckPhaseView::Checking, AckEventView::Checked { marked: false }) => if reported {
            (AckPhaseView::Finished, reported, AckEffectView::Finish { failed: false })
        } else {
            (
                AckPhaseView::Reporting,
                true,
                AckEffectView::RecordEvent {
                    event_type: AdapterEventType::Lifecycle,
                    summary: unmarked_summary(command_id),
                },
            )
        },
        (AckPhaseView::Checking, _) | (AckPhaseView::Reporting, _) => (
            AckPhaseView::Finished,
            reported,
            AckEffectView::Finish { failed: false },
        ),
        _ => (AckPhaseView::Finished, reported, AckEffectView::Finish { failed: true }),
    }
}

/// The handling of an acknowledgement, under way.
#[derive(Debug)]
pub struct AckRun {
    command_id: String,
    phase: AckPhase,
    reported: bool,
}

impl AckRun {
    /// The command that was acknowledged.
    pub closed spec fn command(&self) -> Seq<char> {
        self.command_id@
    }

    /// Where the handling stands.
    pub closed spec fn phase_view(&self) -> AckPhaseView {
        self.phase@
    }

    /// Whether this worker run has been reported for leaving no markers.
    pub closed spec fn is_reported(&self) -> bool {
        self.reported
    }

    /// Starts handling an acknowledgement, in a worker run that has or has not
    /// been reported. The first operation is [`AckEffect::Acknowledge`].
    pub fn start(command_id: String, reported: bool) -> (run: Self)
        ensures
            run.command() == command_id@,
            run.phase_view() is Acknowledging,
            run.is_reported() == reported,
    {
        AckRun { command_id, phase: AckPhase::Acknowledging, reported }
    }

    /// Whether this worker run has been reported for leaving no markers.
    pub fn reported(&self) -> (reported: bool)
        ensures
            reported == self.is_reported(),
    {
        self.reported
    }

    /// Takes what came of the last operation and says what is next.
    pub fn advance(&mut self, event: AckEvent) -> (effect: AckEffect)
        requires
            answers(old(self).phase_view(), event@),
        ensures
            final(self).command() == old(self).command(),
            (final(self).phase_view(), final(self).is_reported(), effect@) == next_ack(
                old(self).command(),
                old(self).phase_view(),
                old(self).is_reported(),
                event@,
            ),
    {
        let mut phase = AckPhase::Finished;
        std::mem::swap(&mut phase, &mut self.phase);
        match phase {
            AckPhase::Acknowledging => match event {
                AckEvent::Acknowledged { delivered } => match delivery_report(
                    &delivered,
                    DeliveredVia::WorkerAck,
                ) {
                    Some(report) => {
                        self.phase = AckPhase::Counting { summary: report.summary };
                        AckEffect::CountDelivery { deduped: report.deduped }
                    },
                    None => {
                        self.phase = AckPhase::Checking;
                        AckEffect::CheckMarker
                    },
                },
                _ => AckEffect::Finish { failed: true },
            },
            AckPhase::Counting { summary } => {
                self.phase = AckPhase::Recording;
                AckEffect::RecordEvent { event_type: AdapterEventType::Outbound, summary }
            },
            AckPhase::Recording => match event {
                AckEvent::Recorded => {
                    self.phase = AckPhase::Checking;
                    AckEffect::CheckMarker
                },
                _ => AckEffect::Finish { failed: true },
            },
            AckPhase::Checking => match event {
                AckEvent::Checked { marked } => {
                    let (report, reported) = audit_ack(
                        self.command_id.as_str(),
                        marked,
                        self.reported,
                    );
                    self.reported = reported;
                    match report {
                        Some(summary) => {
                            self.phase = AckPhase::Reporting;
                            AckEffect::RecordEvent {
                                event_type: AdapterEventType::Lifecycle,
                                summary,
                            }
                        },
                        None => AckEffect::Finish { failed: false },
                    }
                },
                _ => AckEffect::Finish { failed: false },
            },
            AckPhase::Reporting => AckEffect::Finish { failed: false },
            AckPhase::Finished => AckEffect::Finish { failed: true },
        }
    }
}

/// Where handling an acknowledgement stands after some events, whether the
/// worker run has been reported, and what is asked for.
pub open spec fn after_ack_events(
    command_id: Seq<char>,
    reported: bool,
    events: Seq<AckEventView>,
) -> (AckPhaseView, bool, AckEffectView)
    decreases events.len(),
{
    if events.len() == 0 {
        (AckPhaseView::Acknowledging, reported, AckEffectView::Acknowledge)
    } else {
        let before = after_ack_events(command_id, reported, events.drop_last());
        next_ack(command_id, before.0, before.1, events.last())
    }
}

/// An acknowledgement delivers the message before it audits it: the marker is
/// looked for only once the outbox has acknowledged the message, and from then
/// on nothing that goes wrong fails the handling.
pub proof fn an_ack_delivers_before_it_audits(
    command_id: Seq<char>,
    reported: bool,
    events: Seq<AckEventView>,
)
    requires
        forall|i: int|
            0 <= i < events.len() ==> answers(
                after_ack_events(command_id, reported, events.take(i)).0,
                #[trigger] events[i],
            ),
    ensures
        ({
            let (phase, _, effect) = after_ack_events(command_id, reported, events);
            &&& effect is CheckMarker ==> events.len() > 0 && events[0] is Acknowledged
            &&& phase is Checking || phase is Reporting ==> events.len() > 0
                && events[0] is Acknowledged
            &&& phase is Acknowledging <==> events.len() == 0
            &&& events.len() > 0 && !(events[0] is Acknowledged) ==> effect
                == (AckEffectView::Finish { failed: true })
        }),
    decreases events.len(),
{
    if events.len() > 0 {
        let before = events.drop_last();
        assert forall|i: int| 0 <= i < before.len() implies answers(
            after_ack_events(command_id, reported, before.take(i)).0,
            #[trigger] before[i],
        ) by {
            assert(before.take(i) =~= events.take(i));
            assert(before[i] == events[i]);
        }
        an_ack_delivers_before_it_audits(command_id, reported, before);
        assert(events.take(events.len() - 1) =~= before);
        assert(answers(
            after_ack_events(command_id, reported, events.take(events.len() - 1)).0,
            events[events.len() - 1],
        ));
        if before.len() > 0 {
            assert(before[0] == events[0]);
        }
    }
}

/// A failure in the audit does not fail the acknowledgement.
pub proof fn an_ack_survives_its_audit(
    command_id: Seq<char>,
    phase: AckPhaseView,
    reported: bool,
    event: AckEventView,
)
    requires
        phase is Checking || phase is Reporting,
        answers(phase, event),
    ensures
        next_ack(command_id, phase, reported, event).2 != (AckEffectView::Finish { failed: true }),
{
}

/// A worker run is reported at most once: once reported, a missing marker is
/// passed over.
pub proof fn a_worker_run_is_reported_once(command_id: Seq<char>, event: AckEventView)
    requires
        answers(AckPhaseView::Checking, event),
    ensures
        next_ack(command_id, AckPhaseView::Checking, true, event) == (
            AckPhaseView::Finished,
            true,
            AckEffectView::Finish { failed: false },
        ),
{
}

/// The outside operation claiming the outbox needs next, or its end.
#[derive(Debug)]
pub enum ClaimEffect {
    /// See whether a claimed message was sent already.
    CheckMarker { message_id: String },
    /// Move it to delivered, on the strength of its marker.
    MarkDelivered { message_id: String },
    /// Every message is accounted for.
    Finish,
}

/// What came of an outside operation. One that failed ends the claim with its
/// own error.
#[derive(Debug, Clone, Copy, PartialEq, Eq, Structural)]
pub enum ClaimEvent {
    Checked { marked: bool },
    Marked,
}

/// The contents of a [`ClaimEffect`].
#[verifier::ext_equal]
pub enum ClaimEffectView {
    CheckMarker { message_id: Seq<char> },
    MarkDelivered { message_id: Seq<char> },
    Finish,
}

impl View for ClaimEffect {
    type V = ClaimEffectView;

    open spec fn view(&self) -> ClaimEffectView {
        match *self {
            ClaimEffect::CheckMarker { message_id } => ClaimEffectView::CheckMarker {
                message_id: message_id@,
            },
            ClaimEffect::MarkDelivered { message_id } => ClaimEffectView::MarkDelivered {
                message_id: message_id@,
            },
            ClaimEffect::Finish => ClaimEffectView::Finish,
        }
    }
}

/// The command that sends a message.
pub open spec fn command_for(message: AdapterOutboundMessageRecord) -> CommandView {
    CommandView {
        id: message.id@,
        target: text::opt_view(message.target),
        text: message.text@,
        attachments: super::types::attachment_views(message.attachments@),
    }
}

/// The claimed messages on their way to the worker.
#[derive(Debug)]
pub struct ClaimRun {
    messages: Vec<AdapterOutboundMessageRecord>,
    at: usize,
    commands: Vec<WorkerCommand>,
}

/// The contents of a [`ClaimRun`]: `at` of the messages are done.
#[verifier::ext_equal]
pub struct ClaimView {
    pub messages: Seq<AdapterOutboundMessageRecord>,
    pub at: int,
    pub commands: Seq<CommandView>,
}

/// The contents of each command.
pub open spec fn command_views(commands: Seq<WorkerCommand>) -> Seq<CommandView> {
    commands.map_values(|command: WorkerCommand| command@)
}

impl View for ClaimRun {
    type V = ClaimView;

    closed spec fn view(&self) -> ClaimView {
        ClaimView {
            messages: self.messages@,
            at: self.at as int,
            commands: command_views(self.commands@),
        }
    }
}

/// What is needed for the next message.
pub open spec fn turned(run: ClaimView) -> ClaimEffectView {
    if run.at < run.messages.len() {
        ClaimEffectView::CheckMarker { message_id: run.messages[run.at].id@ }
    } else {
        ClaimEffectView::Finish
    }
}

/// What a claim does with an event: a message that was sent already is marked
/// delivered and not handed to the worker again, any other is.
pub open spec fn next_claim(run: ClaimView, event: ClaimEvent) -> (ClaimView, ClaimEffectView) {
    let passed = ClaimView { at: run.at + 1, ..run };
    match event {
        ClaimEvent::Checked { marked: true } => (
            run,
            ClaimEffectView::MarkDelivered { message_id: run.messages[run.at].id@ },
        ),
        ClaimEvent::Checked { marked: false } => {
            let handed = ClaimView {
                commands: run.commands.push(command_for(run.messages[run.at])),
                ..passed
            };
            (handed, turned(handed))
        },
        ClaimEvent::Marked => (passed, turned(passed)),
    }
}

impl ClaimRun {
    /// Starts with the messages the outbox gave, and says what is needed first.
    pub fn start(messages: Vec<AdapterOutboundMessageRecord>) -> (started: (Self, ClaimEffect))
        ensures
            started.0@ == (ClaimView { messages: messages@, at: 0, commands: Seq::empty() }),
            started.1@ == turned(started.0@),
    {
        let run = ClaimRun { messages, at: 0, commands: Vec::new() };
        assert(run@.commands =~= Seq::empty());
        let effect = run.turn();
        (run, effect)
    }

    /// What is needed for the next message.
    fn turn(&self) -> (effect: ClaimEffect)
        ensures
            effect@ == turned(self@),
    {
        if self.at < self.messages.len() {
            ClaimEffect::CheckMarker { message_id: self.messages[self.at].id.clone() }
        } else {
            ClaimEffect::Finish
        }
    }

    /// Takes what came of the last operation and says what is next.
    pub fn advance(&mut self, event: ClaimEvent) -> (effect: ClaimEffect)
        requires
            old(self)@.at < old(self)@.messages.len(),
        ensures
            (final(self)@, effect@) == next_claim(old(self)@, event),
    {
        assert(self.at < self.messages.len());
        match event {
            ClaimEvent::Checked { marked } => {
                let message = &self.messages[self.at];
                if marked {
                    return ClaimEffect::MarkDelivered { message_id: message.id.clone() };
                }
                let command = WorkerCommand::SendMessage {
                    id: message.id.clone(),
                    target: text::opt_copy(&message.target),
                    text: message.text.clone(),
                    attachments: super::types::copy_attachments(message.attachments.as_slice()),
                };
                let ghost before = self.commands@;
                let ghost view = command@;
                self.commands.push(command);
                assert(command_views(self.commands@) =~= command_views(before).push(view));
                self.at += 1;
                self.turn()
            },
            ClaimEvent::Marked => {
                self.at += 1;
                self.turn()
            },
        }
    }

    /// The commands to hand to the worker, in outbox order.
    pub fn finish(self) -> (commands: Vec<WorkerCommand>)
        ensures
            command_views(commands@) == self@.commands,
    {
        self.commands
    }
}

/// Which messages are handed to the worker, given which are marked as sent.
pub open spec fn unsent(
    messages: Seq<AdapterOutboundMessageRecord>,
    marked: spec_fn(Seq<char>) -> bool,
) -> Seq<CommandView> {
    messages.filter(|message: AdapterOutboundMessageRecord| !marked(message.id@)).map_values(
        |message: AdapterOutboundMessageRecord| command_for(message),
    )
}

/// The commands when a claim has run to its end, with the markers as they are.
pub open spec fn run_claim(
    run: ClaimView,
    effect: ClaimEffectView,
    marked: spec_fn(Seq<char>) -> bool,
    steps: nat,
) -> (ClaimView, bool)
    decreases steps,
{
    match effect {
        ClaimEffectView::Finish => (run, true),
        _ => if steps == 0 {
            (run, false)
        } else {
            let event = match effect {
                ClaimEffectView::CheckMarker { message_id } => ClaimEvent::Checked {
                    marked: marked(message_id),
                },
                _ => ClaimEvent::Marked,
            };
            let (next, wanted) = next_claim(run, event);
            run_claim(next, wanted, marked, (steps - 1) as nat)
        },
    }
}

/// A claim that has done its first messages does the rest alike.
proof fn a_claim_goes_on(run: ClaimView, marked: spec_fn(Seq<char>) -> bool, steps: nat)
    requires
        0 <= run.at <= run.messages.len(),
        run.commands == unsent(run.messages.take(run.at), marked),
        steps >= 2 * (run.messages.len() - run.at),
    ensures
        run_claim(run, turned(run), marked, steps).1,
        run_claim(run, turned(run), marked, steps).0.commands == unsent(run.messages, marked),
    decreases run.messages.len() - run.at,
{
    if run.at == run.messages.len() {
        assert(run.messages.take(run.at) =~= run.messages);
    } else {
        reveal_with_fuel(run_claim, 3);
        reveal(Seq::filter);
        let message = run.messages[run.at];
        assert(run.messages.take(run.at + 1).drop_last() =~= run.messages.take(run.at));
        assert(run.messages.take(run.at + 1).last() == message);
        let passed = ClaimView { at: run.at + 1, ..run };
        if marked(message.id@) {
            assert(unsent(run.messages.take(run.at + 1), marked) =~= run.commands);
            a_claim_goes_on(passed, marked, (steps - 2) as nat);
        } else {
            let handed = ClaimView { commands: run.commands.push(command_for(message)), ..passed };
            assert(unsent(run.messages.take(run.at + 1), marked) =~= handed.commands);
            a_claim_goes_on(handed, marked, (steps - 1) as nat);
        }
    }
}

/// A message that was sent is not sent again: the worker is handed exactly the
/// claimed messages without a marker, in outbox order.
pub proof fn only_unsent_messages_are_dispatched(
    messages: Seq<AdapterOutboundMessageRecord>,
    marked: spec_fn(Seq<char>) -> bool,
)
    ensures
        ({
            let run = ClaimView { messages, at: 0, commands: Seq::empty() };
            let (ended, over) = run_claim(run, turned(run), marked, 2 * messages.len());
            over && ended.commands == unsent(messages, marked)
        }),
{
    let run = ClaimView { messages, at: 0, commands: Seq::empty() };
    reveal(Seq::filter);
    assert(messages.take(0) =~= Seq::empty());
    assert(unsent(messages.take(0), marked) =~= Seq::empty());
    a_claim_goes_on(run, marked, 2 * messages.len());
}

} // verus!
