//! What the operations that the attention machines ask for, and the answers they
//! are given, show of themselves.

use vstd::prelude::*;

use super::append_run::{
    AppendEffect, AppendEffectView, AppendError, AppendErrorView, AppendEvent, AppendEventView,
};
use super::dispatch::{PassEffect, PassEffectView, PassEvent, PassEventView};
use super::dispatcher::{Action, ActionView};
use super::lease_run::{AcquireEffect, AcquireEffectView, AcquireEvent, AcquireEventView};
use super::mark_run::{MarkEffect, MarkEffectView, MarkEvent, MarkEventView, Transition};
use super::mark_run::TransitionView;

verus! {

/// What a dispatch pass asks for is what its effect carries.
pub proof fn a_pass_asks_for_what_it_shows(effect: PassEffect)
    ensures
        match effect {
            PassEffect::Acquire => effect@ is Acquire,
            PassEffect::List => effect@ is List,
            PassEffect::MarkDrained { ids } => effect@ == (PassEffectView::MarkDrained {
                ids: ids@,
            }),
            PassEffect::OpenTurn { items } => effect@ matches PassEffectView::OpenTurn {
                items: shown,
            } && shown.len() == items.len() && forall|i: int|
                0 <= i < items.len() ==> #[trigger] shown[i] == items@[i]@,
            PassEffect::Acknowledge { ids } => effect@ == (PassEffectView::Acknowledge {
                ids: ids@,
            }),
            PassEffect::Sleep { until_ms } => effect@ == (PassEffectView::Sleep { until_ms }),
            PassEffect::Renew => effect@ is Renew,
            PassEffect::Release => effect@ is Release,
            PassEffect::Relist => effect@ is Relist,
            PassEffect::Finish { end } => effect@ == (PassEffectView::Finish { end }),
        },
{
}

/// What a dispatch pass is told is what its event carries.
pub proof fn a_pass_is_told_what_it_shows(event: PassEvent)
    ensures
        match event {
            PassEvent::Acquired { granted } => event@ == (PassEventView::Acquired { granted }),
            PassEvent::Listed { pending, now_ms } => event@ matches PassEventView::Listed {
                pending: shown,
                now_ms: at,
            } && at == now_ms && shown.len() == pending.len() && forall|i: int|
                0 <= i < pending.len() ==> #[trigger] shown[i] == pending@[i]@,
            PassEvent::Drained { moved } => event@ == (PassEventView::Drained { moved: moved@ }),
            PassEvent::Turned => event@ is Turned,
            PassEvent::Acknowledged => event@ is Acknowledged,
            PassEvent::Slept => event@ is Slept,
            PassEvent::Renewed { held } => event@ == (PassEventView::Renewed { held }),
            PassEvent::Released => event@ is Released,
            PassEvent::Relisted { empty } => event@ == (PassEventView::Relisted { empty }),
            PassEvent::Failed => event@ is Failed,
        },
{
}

/// What the dispatcher decides is what its action carries.
pub proof fn a_decision_is_what_it_shows(action: Action)
    ensures
        match action {
            Action::OpenTurn { drain } => action@ == (ActionView::OpenTurn { drain: drain@ }),
            Action::OfferInterrupt { items } => action@ == (ActionView::OfferInterrupt {
                items: items@,
            }),
            Action::FlushBatch { drain } => action@ == (ActionView::FlushBatch { drain: drain@ }),
            Action::Wait { until_ms } => action@ == (ActionView::Wait { until_ms }),
            Action::Nothing => action@ is Nothing,
        },
{
}

/// What an acquisition asks for is what its effect carries.
pub proof fn an_acquisition_asks_for_what_it_shows(effect: AcquireEffect)
    ensures
        match effect {
            AcquireEffect::Prepare => effect@ is Prepare,
            AcquireEffect::Mint => effect@ is Mint,
            AcquireEffect::Create { record } => effect@ matches AcquireEffectView::Create {
                record: shown,
            } && shown.conversation_id == record.conversation_id@ && shown.token == record.token@
                && shown.holder_pid == record.holder_pid && shown.expires_at_ms
                == record.expires_at_ms,
            AcquireEffect::Read => effect@ is Read,
            AcquireEffect::RenameAway => effect@ is RenameAway,
            AcquireEffect::ReadTombstone => effect@ is ReadTombstone,
            AcquireEffect::Restore => effect@ is Restore,
            AcquireEffect::RemoveTombstone => effect@ is RemoveTombstone,
            AcquireEffect::Repend => effect@ is Repend,
            AcquireEffect::Finish { lease: None } => effect@ == (AcquireEffectView::Finish {
                lease: None,
            }),
            AcquireEffect::Finish { lease: Some(granted) } => effect@
                matches AcquireEffectView::Finish { lease: Some(shown) } && shown.conversation_id
                == granted.conversation_id@ && shown.token == granted.token@,
        },
{
}

/// What an acquisition is told is what its event carries.
pub proof fn an_acquisition_is_told_what_it_shows(event: AcquireEvent)
    ensures
        match event {
            AcquireEvent::Prepared => event@ is Prepared,
            AcquireEvent::Minted { token, holder_pid, now_ms } => event@ == (
            AcquireEventView::Minted { token: token@, holder_pid, now_ms }),
            AcquireEvent::Created { created } => event@ == (AcquireEventView::Created { created }),
            AcquireEvent::Held { record: None, now_ms } => event@ == (AcquireEventView::Held {
                record: None,
                now_ms,
            }),
            AcquireEvent::Held { record: Some(held), now_ms } => event@
                matches AcquireEventView::Held { record: Some(shown), now_ms: at } && at == now_ms
                && shown.token == held.token@ && shown.expires_at_ms == held.expires_at_ms
                && shown.conversation_id == held.conversation_id@ && shown.holder_pid
                == held.holder_pid,
            AcquireEvent::Renamed { renamed } => event@ == (AcquireEventView::Renamed { renamed }),
            AcquireEvent::Tombstone { record: None } => event@ == (AcquireEventView::Tombstone {
                record: None,
            }),
            AcquireEvent::Tombstone { record: Some(held) } => event@
                matches AcquireEventView::Tombstone { record: Some(shown) } && shown.token
                == held.token@,
            AcquireEvent::Restored => event@ is Restored,
            AcquireEvent::Removed => event@ is Removed,
            AcquireEvent::Repended => event@ is Repended,
        },
{
}

/// What an append asks for is what its effect carries.
pub proof fn an_append_asks_for_what_it_shows(effect: AppendEffect)
    ensures
        match effect {
            AppendEffect::Prepare => effect@ is Prepare,
            AppendEffect::ReadClaim => effect@ is ReadClaim,
            AppendEffect::Survey => effect@ is Survey,
            AppendEffect::CreateItem { position } => effect@ == (AppendEffectView::CreateItem {
                position,
            }),
            AppendEffect::LoadItem => effect@ is LoadItem,
            AppendEffect::WriteItem { position } => effect@ == (AppendEffectView::WriteItem {
                position,
            }),
            AppendEffect::ClaimKey => effect@ is ClaimKey,
            AppendEffect::RemoveItem => effect@ is RemoveItem,
            AppendEffect::RestoreItem { record } => effect@ == (AppendEffectView::RestoreItem {
                record: record@,
            }),
            AppendEffect::Finish { result: Ok(outcome) } => effect@ == (AppendEffectView::Finish {
                result: Ok(outcome),
            }),
            AppendEffect::Finish { result: Err(AppendError::ClaimVanished) } => effect@ == (
            AppendEffectView::Finish { result: Err(AppendErrorView::ClaimVanished) }),
            AppendEffect::Finish { result: Err(AppendError::Collision { existing }) } => effect@
                == (AppendEffectView::Finish {
                result: Err(AppendErrorView::Collision { existing: existing@ }),
            }),
        },
{
}

/// What an append is told is what its event carries.
pub proof fn an_append_is_told_what_it_shows(event: AppendEvent)
    ensures
        match event {
            AppendEvent::Prepared => event@ is Prepared,
            AppendEvent::Read { claim: None } => event@ == (AppendEventView::Read { claim: None }),
            AppendEvent::Read { claim: Some(held) } => event@ matches AppendEventView::Read {
                claim: Some(shown),
            } && shown.dedupe_key == held.dedupe_key@ && shown.item_id == held.item_id,
            AppendEvent::Surveyed { highest } => event@ == (AppendEventView::Surveyed { highest }),
            AppendEvent::Created { created } => event@ == (AppendEventView::Created { created }),
            AppendEvent::Loaded { record: None } => event@ == (AppendEventView::Loaded {
                record: None,
            }),
            AppendEvent::Loaded { record: Some(held) } => event@ == (AppendEventView::Loaded {
                record: Some(held@),
            }),
            AppendEvent::Written => event@ is Written,
            AppendEvent::Claimed { created } => event@ == (AppendEventView::Claimed { created }),
            AppendEvent::Removed => event@ is Removed,
        },
{
}

/// What a marking asks for and is told is what its effects and events carry.
pub proof fn a_marking_shows_what_it_carries(
    effect: MarkEffect,
    event: MarkEvent,
    transition: Transition,
)
    ensures
        match effect {
            MarkEffect::Load { item_id } => effect@ == (MarkEffectView::Load { item_id }),
            MarkEffect::Store { record } => effect@ == (MarkEffectView::Store { record: record@ }),
            MarkEffect::Finish => effect@ is Finish,
        },
        match event {
            MarkEvent::Loaded { record: None } => event@ == (MarkEventView::Loaded {
                record: None,
            }),
            MarkEvent::Loaded { record: Some(held) } => event@ == (MarkEventView::Loaded {
                record: Some(held@),
            }),
            MarkEvent::Stored => event@ is Stored,
        },
        match transition {
            Transition::Drain { turn_ref } => transition@ == (TransitionView::Drain {
                turn_ref: turn_ref@,
            }),
            Transition::Acknowledge => transition@ is Acknowledge,
        },
{
}

} // verus!
