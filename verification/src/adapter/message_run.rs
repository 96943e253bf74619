//! Handling an inbound message, one outside operation at a time.

use serde_json::Value;
use vstd::prelude::*;

use super::inbound::{self, ImagePart, ImageView};
use super::outbound::AdapterEventType;
use super::types::{AdapterAttachment, AdapterConfig, AdapterRecord};
use crate::json;
use crate::text;

verus! {

/// A message a worker passed on.
#[derive(Debug)]
pub struct InboundMessage {
    pub target: String,
    pub sender: Option<String>,
    pub text: String,
    pub message_id: Option<String>,
    pub metadata: Value,
    pub attachments: Vec<AdapterAttachment>,
}

/// What a conversation is woken with.
#[derive(Debug)]
pub enum WakeupContent {
    Text { prompt: String },
    /// The prompt, followed by the images.
    Parts { prompt: String, images: Vec<ImagePart> },
}

/// The contents of a [`WakeupContent`].
#[verifier::ext_equal]
pub enum ContentView {
    Text { prompt: Seq<char> },
    Parts { prompt: Seq<char>, images: Seq<ImageView> },
}

impl View for WakeupContent {
    type V = ContentView;

    open spec fn view(&self) -> ContentView {
        match *self {
            WakeupContent::Text { prompt } => ContentView::Text { prompt: prompt@ },
            WakeupContent::Parts { prompt, images } => ContentView::Parts {
                prompt: prompt@,
                images: inbound::image_views(images@),
            },
        }
    }
}

/// What a prompt and some images are sent as: the bare prompt, where there is no
/// image.
pub open spec fn content_of(prompt: Seq<char>, images: Seq<ImageView>) -> ContentView {
    if images.len() == 0 {
        ContentView::Text { prompt }
    } else {
        ContentView::Parts { prompt, images }
    }
}

/// What a prompt and some images are sent as.
pub fn wakeup_content(prompt: String, images: Vec<ImagePart>) -> (content: WakeupContent)
    ensures
        content@ == content_of(prompt@, inbound::image_views(images@)),
{
    if images.len() == 0 {
        WakeupContent::Text { prompt }
    } else {
        WakeupContent::Parts { prompt, images }
    }
}

/// The outside operation a message needs next, or its end.
#[derive(Debug)]
pub enum MessageEffect {
    /// Note the platform message id, unless it was noted before.
    RecordOnce { message_id: String },
    /// Record an event of the adapter.
    RecordEvent { event_type: AdapterEventType, summary: String },
    /// Fetch the message's images.
    Download,
    /// Wake the conversation.
    Wake { content: WakeupContent },
    /// Note an error on the adapter.
    MarkError { words: String },
    /// The message is handled; where it failed, the failed operation's error is
    /// the result.
    Finish { failed: bool },
}

/// What came of an outside operation.
#[derive(Debug)]
pub enum MessageEvent {
    /// Whether the message id is new.
    Once { fresh: bool },
    Recorded,
    Downloaded { images: Vec<ImagePart> },
    Woken,
    /// The turn failed, with these words.
    WakeFailed { error: String },
    Marked,
    /// The operation failed.
    Failed,
}

/// Where the handling stands.
#[derive(Debug)]
pub enum MessagePhase {
    RecordingOnce,
    RecordingEvent,
    Downloading,
    Waking,
    MarkingError { words: String },
    RecordingError,
    Finished,
}

/// The contents of a [`MessageEffect`].
#[verifier::ext_equal]
pub enum MessageEffectView {
    RecordOnce { message_id: Seq<char> },
    RecordEvent { event_type: AdapterEventType, summary: Seq<char> },
    Download,
    Wake { content: ContentView },
    MarkError { words: Seq<char> },
    Finish { failed: bool },
}

/// The contents of a [`MessageEvent`].
#[verifier::ext_equal]
pub enum MessageEventView {
    Once { fresh: bool },
    Recorded,
    Downloaded { images: Seq<ImageView> },
    Woken,
    WakeFailed { error: Seq<char> },
    Marked,
    Failed,
}

/// The contents of a [`MessagePhase`].
#[verifier::ext_equal]
pub enum MessagePhaseView {
    RecordingOnce,
    RecordingEvent,
    Downloading,
    Waking,
    MarkingError { words: Seq<char> },
    RecordingError,
    Finished,
}

impl View for MessageEffect {
    type V = MessageEffectView;

    open spec fn view(&self) -> MessageEffectView {
        match *self {
            MessageEffect::RecordOnce { message_id } => MessageEffectView::RecordOnce {
                message_id: message_id@,
            },
            MessageEffect::RecordEvent { event_type, summary } => MessageEffectView::RecordEvent {
                event_type,
                summary: summary@,
            },
            MessageEffect::Download => MessageEffectView::Download,
            MessageEffect::Wake { content } => MessageEffectView::Wake { content: content@ },
            MessageEffect::MarkError { words } => MessageEffectView::MarkError { words: words@ },
            MessageEffect::Finish { failed } => MessageEffectView::Finish { failed },
        }
    }
}

impl View for MessageEvent {
    type V = MessageEventView;

    open spec fn view(&self) -> MessageEventView {
        match *self {
            MessageEvent::Once { fresh } => MessageEventView::Once { fresh },
            MessageEvent::Recorded => MessageEventView::Recorded,
            MessageEvent::Downloaded { images } => MessageEventView::Downloaded {
                images: inbound::image_views(images@),
            },
            MessageEvent::Woken => MessageEventView::Woken,
            MessageEvent::WakeFailed { error } => MessageEventView::WakeFailed { error: error@ },
            MessageEvent::Marked => MessageEventView::Marked,
            MessageEvent::Failed => MessageEventView::Failed,
        }
    }
}

impl View for MessagePhase {
    type V = MessagePhaseView;

    open spec fn view(&self) -> MessagePhaseView {
        match *self {
            MessagePhase::RecordingOnce => MessagePhaseView::RecordingOnce,
            MessagePhase::RecordingEvent => MessagePhaseView::RecordingEvent,
            MessagePhase::Downloading => MessagePhaseView::Downloading,
            MessagePhase::Waking => MessagePhaseView::Waking,
            MessagePhase::MarkingError { words } => MessagePhaseView::MarkingError {
                words: words@,
            },
            MessagePhase::RecordingError => MessagePhaseView::RecordingError,
            MessagePhase::Finished => MessagePhaseView::Finished,
        }
    }
}

/// Whether an event answers what a phase is waiting for. Fetching images does
/// not fail: what cannot be fetched is left out.
pub open spec fn answers(phase: MessagePhaseView, event: MessageEventView) -> bool {
    match phase {
        MessagePhaseView::RecordingOnce => event is Once || event is Failed,
        MessagePhaseView::RecordingEvent => event is Recorded || event is Failed,
        MessagePhaseView::Downloading => event is Downloaded,
        MessagePhaseView::Waking => event is Woken || event is WakeFailed,
        MessagePhaseView::MarkingError { .. } => event is Marked || event is Failed,
        MessagePhaseView::RecordingError => event is Recorded || event is Failed,
        MessagePhaseView::Finished => false,
    }
}

/// The step that records a message as received.
pub open spec fn recording(config: AdapterConfig, message: InboundMessage) -> (
    MessagePhaseView,
    MessageEffectView,
) {
    (
        MessagePhaseView::RecordingEvent,
        MessageEffectView::RecordEvent {
            event_type: AdapterEventType::Inbound,
            summary: inbound::inbound_summary(
                config.adapter_type@,
                text::opt_view(message.sender),
                message.target@,
                message.attachments@.len(),
            ),
        },
    )
}

/// The first step of handling a message.
pub open spec fn first_step(config: AdapterConfig, message: InboundMessage) -> (
    MessagePhaseView,
    MessageEffectView,
) {
    match message.message_id {
        Some(message_id) => (
            MessagePhaseView::RecordingOnce,
            MessageEffectView::RecordOnce { message_id: message_id@ },
        ),
        None => recording(config, message),
    }
}

/// The words for a failed turn.
pub open spec fn turn_failure(error: Seq<char>) -> Seq<char> {
    "wakeup turn failed: "@ + error
}

/// What handling a message does with an event. A message that was seen before
/// is over at once; a failed turn is noted and recorded, and does not fail the
/// handling, so that the worker stays up.
pub open spec fn next_message(
    config: AdapterConfig,
    adapter: AdapterRecord,
    message: InboundMessage,
    phase: MessagePhaseView,
    event: MessageEventView,
) -> (MessagePhaseView, MessageEffectView) {
    match (phase, event) {
        (MessagePhaseView::RecordingOnce, MessageEventView::Once { fresh: true }) => recording(
            config,
            message,
        ),
        (MessagePhaseView::RecordingOnce, MessageEventView::Once { fresh: false }) => (
            MessagePhaseView::Finished,
            MessageEffectView::Finish { failed: false },
        ),
        (MessagePhaseView::RecordingEvent, MessageEventView::Recorded) => (
            MessagePhaseView::Downloading,
            MessageEffectView::Download,
        ),
        (MessagePhaseView::Downloading, MessageEventView::Downloaded { images }) => (
            MessagePhaseView::Waking,
            MessageEffectView::Wake {
                content: content_of(
                    inbound::inbound_prompt(
                        config,
                        adapter,
                        message.target@,
                        text::opt_view(message.sender),
                        message.text@,
                        inbound::dm_target_in(json::json(message.metadata)),
                        inbound::is_active_thread(json::json(message.metadata)),
                        super::types::attachment_views(message.attachments@),
                        images.len(),
                    ),
                    images,
                ),
            },
        ),
        (MessagePhaseView::Waking, MessageEventView::WakeFailed { error }) => (
            MessagePhaseView::MarkingError { words: turn_failure(error) },
            MessageEffectView::MarkError { words: turn_failure(error) },
        ),
        (MessagePhaseView::Waking, _) => (
            MessagePhaseView::Finished,
            MessageEffectView::Finish { failed: false },
        ),
        (MessagePhaseView::MarkingError { words }, MessageEventView::Marked) => (
            MessagePhaseView::RecordingError,
            MessageEffectView::RecordEvent {
                event_type: AdapterEventType::Error,
                summary: words,
            },
        ),
        (MessagePhaseView::RecordingError, MessageEventView::Recorded) => (
            MessagePhaseView::Finished,
            MessageEffectView::Finish { failed: false },
        ),
        _ => (MessagePhaseView::Finished, MessageEffectView::Finish { failed: true }),
    }
}

/// The handling of a message, under way.
#[derive(Debug)]
pub struct MessageRun {
    message: InboundMessage,
    phase: MessagePhase,
}

impl MessageRun {
    /// The message that is handled.
    pub closed spec fn message(&self) -> InboundMessage {
        self.message
    }

    /// Where the handling stands.
    pub closed spec fn phase_view(&self) -> MessagePhaseView {
        self.phase@
    }

    /// Starts handling a message and says what is needed first. A message that
    /// the platform gave no id cannot be told from its redelivery, and is always
    /// handled.
    pub fn start(config: &AdapterConfig, message: InboundMessage) -> (started: (
        Self,
        MessageEffect,
    ))
        ensures
            started.0.message() == message,
            (started.0.phase_view(), started.1@) == first_step(*config, message),
            (started.0.phase_view(), started.1@) == match message.message_id {
                Some(message_id) => (
                    MessagePhaseView::RecordingOnce,
                    MessageEffectView::RecordOnce { message_id: message_id@ },
                ),
                None => recording(*config, message),
            },
    {
        match &message.message_id {
            Some(message_id) => {
                let effect = MessageEffect::RecordOnce { message_id: message_id.clone() };
                (MessageRun { message, phase: MessagePhase::RecordingOnce }, effect)
            },
            None => {
                let effect = record_inbound(config, &message);
                (MessageRun { message, phase: MessagePhase::RecordingEvent }, effect)
            },
        }
    }

    /// The attachments of the message.
    pub fn attachments(&self) -> (attachments: &[AdapterAttachment])
        ensures
            attachments@ == self.message().attachments@,
    {
        self.message.attachments.as_slice()
    }

    /// Takes what came of the last operation and says what is next.
    pub fn advance(
        &mut self,
        config: &AdapterConfig,
        adapter: &AdapterRecord,
        event: MessageEvent,
    ) -> (effect: MessageEffect)
        requires
            answers(old(self).phase_view(), event@),
        ensures
            final(self).message() == old(self).message(),
            (final(self).phase_view(), effect@) == next_message(
                *config,
                *adapter,
                old(self).message(),
                old(self).phase_view(),
                event@,
            ),
    {
        let mut phase = MessagePhase::Finished;
        std::mem::swap(&mut phase, &mut self.phase);
        match (phase, event) {
            (MessagePhase::RecordingOnce, MessageEvent::Once { fresh }) => if fresh {
                self.phase = MessagePhase::RecordingEvent;
                record_inbound(config, &self.message)
            } else {
                MessageEffect::Finish { failed: false }
            },
            (MessagePhase::RecordingEvent, MessageEvent::Recorded) => {
                self.phase = MessagePhase::Downloading;
                MessageEffect::Download
            },
            (MessagePhase::Downloading, MessageEvent::Downloaded { images }) => {
                let message = &self.message;
                let sender = match &message.sender {
                    Some(sender) => Some(sender.as_str()),
                    None => None,
                };
                let prompt = inbound::compose_inbound_wakeup_prompt(
                    config,
                    adapter,
                    message.target.as_str(),
                    sender,
                    message.text.as_str(),
                    &message.metadata,
                    message.attachments.as_slice(),
                    images.len(),
                );
                self.phase = MessagePhase::Waking;
                MessageEffect::Wake { content: wakeup_content(prompt, images) }
            },
            (MessagePhase::Waking, MessageEvent::WakeFailed { error }) => {
                let mut words = "wakeup turn failed: ".to_string();
                words.append(error.as_str());
                self.phase = MessagePhase::MarkingError { words: words.clone() };
                MessageEffect::MarkError { words }
            },
            (MessagePhase::Waking, _) => MessageEffect::Finish { failed: false },
            (MessagePhase::MarkingError { words }, MessageEvent::Marked) => {
                self.phase = MessagePhase::RecordingError;
                MessageEffect::RecordEvent { event_type: AdapterEventType::Error, summary: words }
            },
            (MessagePhase::RecordingError, MessageEvent::Recorded) => MessageEffect::Finish {
                failed: false,
            },
            _ => MessageEffect::Finish { failed: true },
        }
    }
}

/// The step that records a message as received.
fn record_inbound(config: &AdapterConfig, message: &InboundMessage) -> (effect: MessageEffect)
    ensures
        effect@ == recording(*config, *message).1,
{
    MessageEffect::RecordEvent {
        event_type: AdapterEventType::Inbound,
        summary: inbound::inbound_event_summary(
            config,
            &message.sender,
            message.target.as_str(),
            message.attachments.len(),
        ),
    }
}

/// A message whose platform id was noted before is neither recorded nor shown
/// to the agent again.
pub proof fn a_redelivered_message_wakes_nobody(
    config: AdapterConfig,
    adapter: AdapterRecord,
    message: InboundMessage,
)
    ensures
        next_message(
            config,
            adapter,
            message,
            MessagePhaseView::RecordingOnce,
            MessageEventView::Once { fresh: false },
        ) == (MessagePhaseView::Finished, MessageEffectView::Finish { failed: false }),
{
}

/// A failed turn does not bring the worker down: what follows it ends the
/// handling well, unless the store itself fails.
pub proof fn a_failed_turn_keeps_the_worker_up(
    config: AdapterConfig,
    adapter: AdapterRecord,
    message: InboundMessage,
    error: Seq<char>,
)
    ensures
        ({
            let (marking, mark) = next_message(
                config,
                adapter,
                message,
                MessagePhaseView::Waking,
                MessageEventView::WakeFailed { error },
            );
            let (recording, record) = next_message(
                config,
                adapter,
                message,
                marking,
                MessageEventView::Marked,
            );
            let (over, end) = next_message(
                config,
                adapter,
                message,
                recording,
                MessageEventView::Recorded,
            );
            &&& mark == (MessageEffectView::MarkError { words: turn_failure(error) })
            &&& record == (MessageEffectView::RecordEvent {
                event_type: AdapterEventType::Error,
                summary: turn_failure(error),
            })
            &&& end == (MessageEffectView::Finish { failed: false })
        }),
{
}

} // verus!
