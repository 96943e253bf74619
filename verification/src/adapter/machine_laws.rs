//! What the operations that the adapter machines ask for, and the answers they
//! are given, show of themselves.

use vstd::prelude::*;

use super::conversation::{ResolveEvent, ResolveEventView};
use super::inbound::ImagePart;
use super::message_run::{
    ContentView, MessageEffect, MessageEffectView, MessageEvent, MessageEventView, WakeupContent,
};
use super::outbound::{
    AckEffect, AckEffectView, AckEvent, AckEventView, ClaimEffect, ClaimEffectView, WorkerCommand,
};

verus! {

/// Whether images are shown as they are, in order.
pub open spec fn are_shown(images: Seq<ImagePart>, shown: Seq<super::inbound::ImageView>) -> bool {
    images.len() == shown.len() && forall|i: int|
        0 <= i < images.len() ==> (#[trigger] shown[i]).data == images[i].data@ && (
        match images[i].media_type {
            Some(media_type) => shown[i].media_type == Some(media_type@),
            None => shown[i].media_type is None,
        })
}

/// What handling a message asks for is what its effect carries: a conversation
/// is woken with the prompt and the images.
pub proof fn handling_a_message_asks_for_what_it_shows(effect: MessageEffect)
    ensures
        match effect {
            MessageEffect::RecordOnce { message_id } => effect@ == (
            MessageEffectView::RecordOnce { message_id: message_id@ }),
            MessageEffect::RecordEvent { event_type, summary } => effect@ == (
            MessageEffectView::RecordEvent { event_type, summary: summary@ }),
            MessageEffect::Download => effect@ is Download,
            MessageEffect::Wake { content: WakeupContent::Text { prompt } } => effect@ == (
            MessageEffectView::Wake { content: ContentView::Text { prompt: prompt@ } }),
            MessageEffect::Wake { content: WakeupContent::Parts { prompt, images } } => effect@
                matches MessageEffectView::Wake {
                content: ContentView::Parts { prompt: words, images: shown },
            } && words == prompt@ && are_shown(images@, shown),
            MessageEffect::MarkError { words } => effect@ == (MessageEffectView::MarkError {
                words: words@,
            }),
            MessageEffect::Finish { failed } => effect@ == (MessageEffectView::Finish { failed }),
        },
{
}

/// What handling a message is told is what its event carries.
pub proof fn handling_a_message_is_told_what_it_shows(event: MessageEvent)
    ensures
        match event {
            MessageEvent::Once { fresh } => event@ == (MessageEventView::Once { fresh }),
            MessageEvent::Recorded => event@ is Recorded,
            MessageEvent::Downloaded { images } => event@ matches MessageEventView::Downloaded {
                images: shown,
            } && are_shown(images@, shown),
            MessageEvent::Woken => event@ is Woken,
            MessageEvent::WakeFailed { error } => event@ == (MessageEventView::WakeFailed {
                error: error@,
            }),
            MessageEvent::Marked => event@ is Marked,
            MessageEvent::Failed => event@ is Failed,
        },
{
}

/// What handling an acknowledgement asks for and is told is what its effects and
/// events carry.
pub proof fn handling_an_ack_shows_what_it_carries(effect: AckEffect, event: AckEvent)
    ensures
        match effect {
            AckEffect::Acknowledge => effect@ is Acknowledge,
            AckEffect::CountDelivery { deduped } => effect@ == (AckEffectView::CountDelivery {
                deduped,
            }),
            AckEffect::RecordEvent { event_type, summary } => effect@ == (
            AckEffectView::RecordEvent { event_type, summary: summary@ }),
            AckEffect::CheckMarker => effect@ is CheckMarker,
            AckEffect::Finish { failed } => effect@ == (AckEffectView::Finish { failed }),
        },
        match event {
            AckEvent::Acknowledged { delivered: Some(message) } => event@ == (
            AckEventView::Acknowledged { delivered: Some((message.id@, message.attempt)) }),
            AckEvent::Acknowledged { delivered: None } => event@ == (AckEventView::Acknowledged {
                delivered: None,
            }),
            AckEvent::Counted => event@ is Counted,
            AckEvent::Recorded => event@ is Recorded,
            AckEvent::Checked { marked } => event@ == (AckEventView::Checked { marked }),
            AckEvent::Failed => event@ is Failed,
        },
{
}

/// What claiming the outbox asks for, and what a worker is told, is what they
/// carry.
pub proof fn claims_and_commands_show_what_they_carry(effect: ClaimEffect, command: WorkerCommand)
    ensures
        match effect {
            ClaimEffect::CheckMarker { message_id } => effect@ == (ClaimEffectView::CheckMarker {
                message_id: message_id@,
            }),
            ClaimEffect::MarkDelivered { message_id } => effect@ == (
            ClaimEffectView::MarkDelivered { message_id: message_id@ }),
            ClaimEffect::Finish => effect@ is Finish,
        },
        match command {
            WorkerCommand::SendMessage { id, target, text, attachments } => command@.id == id@
                && command@.text == text@ && (match target {
                Some(place) => command@.target == Some(place@),
                None => command@.target is None,
            }) && command@.attachments.len() == attachments.len() && forall|i: int|
                0 <= i < attachments.len() ==> #[trigger] command@.attachments[i]
                    == attachments@[i]@,
        },
{
}

/// What the search for a conversation is told is what its event carries.
pub proof fn a_search_is_told_what_it_shows(event: ResolveEvent)
    ensures
        match event {
            ResolveEvent::Mapped { conversation_id: Some(id) } => event@ == (
            ResolveEventView::Mapped { conversation_id: Some(id@) }),
            ResolveEvent::Mapped { conversation_id: None } => event@ == (
            ResolveEventView::Mapped { conversation_id: None }),
            ResolveEvent::LookedUp { found } => event@ == (ResolveEventView::LookedUp { found }),
            ResolveEvent::Created { created } => event@ == (ResolveEventView::Created { created }),
            ResolveEvent::LookedUpSlug { found } => event@ == (ResolveEventView::LookedUpSlug {
                found,
            }),
            ResolveEvent::Put => event@ is Put,
        },
{
}

} // verus!
