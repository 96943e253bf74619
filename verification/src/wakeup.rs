//! Waking a conversation under its turn lease, one outside operation at a time.
//!
//! The lease is acquired before the turn, renewed on a heartbeat while it runs,
//! and released after it. A renewal that fails means that a newer activation
//! owns the conversation: the send is dropped on the spot, and the lease is no
//! longer this wakeup's to release.

use vstd::prelude::*;

use crate::ids::{self, Uuid7};

verus! {

/// How long a lease lives without renewal: about four heartbeats.
pub const WAKEUP_LEASE_TTL_MS: u64 = 60_000;

/// How often a lease is renewed.
pub const WAKEUP_LEASE_RENEW_INTERVAL_MS: u64 = 15_000;

/// How long to wait before trying a taken lease again.
pub const WAKEUP_ACQUIRE_RETRY_INTERVAL_MS: u64 = 500;

/// A granted turn lease: its id, and the epoch that fences what is done under
/// it.
#[derive(Debug, Clone, Copy, PartialEq, Eq, Structural)]
pub struct TurnLease {
    pub lease_id: Uuid7,
    pub epoch: u64,
}

/// How a wakeup ended.
#[derive(Debug, Clone, Copy, PartialEq, Eq, Structural)]
pub enum WakeupEnd {
    /// The turn was sent, its session closed and the lease released.
    Delivered,
    /// Asking for the lease failed; that error is the wakeup's.
    AcquireFailed,
    /// A newer activation took the conversation over; the renewal's error is
    /// the wakeup's.
    Fenced,
    /// The send failed; its error is the wakeup's, whatever became of the
    /// release.
    SendFailed,
    /// Closing the session failed; that error is the wakeup's, whatever became
    /// of the release.
    CloseFailed,
    /// Releasing the lease failed; that error is the wakeup's.
    ReleaseFailed,
}

/// The outside operation a wakeup needs next, or its end.
#[derive(Debug, Clone, Copy, PartialEq, Eq, Structural)]
pub enum WakeupEffect {
    /// Ask for the lease, to live `ttl_ms`.
    Acquire { ttl_ms: u64 },
    /// Wait before asking again.
    Sleep { millis: u64 },
    /// Send the turn under the lease's epoch, renewing the lease meanwhile.
    Send { lease: TurnLease },
    /// Close the session the send used.
    CloseSession,
    /// Release the lease.
    Release { lease: TurnLease },
    /// The wakeup is over.
    Finish { end: WakeupEnd },
}

/// What came of an outside operation.
#[derive(Debug, Clone, Copy, PartialEq, Eq, Structural)]
pub enum WakeupEvent {
    /// The lease was asked for: granted, or held by another.
    Attempted { acquired: bool, lease: TurnLease },
    Slept,
    /// The send came back well.
    Sent,
    /// A renewal failed before the send came back.
    Fenced,
    Closed,
    Released,
    /// The operation failed.
    Failed,
}

/// Where a wakeup stands.
#[derive(Debug, Clone, Copy, PartialEq, Eq, Structural)]
pub enum WakeupPhase {
    Acquiring,
    Waiting,
    Sending { lease: TurnLease },
    Closing { lease: TurnLease },
    /// Giving the lease up: `end` is how the wakeup ends once that went well.
    Releasing { end: WakeupEnd },
    Finished,
}

/// Whether an event answers what a phase is waiting for. A wait cannot fail.
pub open spec fn answers(phase: WakeupPhase, event: WakeupEvent) -> bool {
    match phase {
        WakeupPhase::Acquiring => event is Attempted || event is Failed,
        WakeupPhase::Waiting => event is Slept,
        WakeupPhase::Sending { .. } => event is Sent || event is Fenced || event is Failed,
        WakeupPhase::Closing { .. } => event is Closed || event is Failed,
        WakeupPhase::Releasing { .. } => event is Released || event is Failed,
        WakeupPhase::Finished => false,
    }
}

/// How a wakeup ends that would have ended as `end`, by whether its lease could
/// be released. An error that came first stays the wakeup's own.
pub open spec fn after_release(end: WakeupEnd, released: bool) -> WakeupEnd {
    if end == WakeupEnd::Delivered && !released {
        WakeupEnd::ReleaseFailed
    } else {
        end
    }
}

/// What a wakeup does with an event. Only a fenced wakeup keeps from releasing
/// the lease it was granted.
pub open spec fn next_wakeup(phase: WakeupPhase, event: WakeupEvent) -> (
    WakeupPhase,
    WakeupEffect,
) {
    match (phase, event) {
        (WakeupPhase::Acquiring, WakeupEvent::Attempted { acquired: true, lease }) => (
            WakeupPhase::Sending { lease },
            WakeupEffect::Send { lease },
        ),
        (WakeupPhase::Acquiring, WakeupEvent::Attempted { acquired: false, .. }) => (
            WakeupPhase::Waiting,
            WakeupEffect::Sleep { millis: WAKEUP_ACQUIRE_RETRY_INTERVAL_MS },
        ),
        (WakeupPhase::Waiting, _) => (
            WakeupPhase::Acquiring,
            WakeupEffect::Acquire { ttl_ms: WAKEUP_LEASE_TTL_MS },
        ),
        (WakeupPhase::Sending { lease }, WakeupEvent::Sent) => (
            WakeupPhase::Closing { lease },
            WakeupEffect::CloseSession,
        ),
        (WakeupPhase::Sending { .. }, WakeupEvent::Fenced) => (
            WakeupPhase::Finished,
            WakeupEffect::Finish { end: WakeupEnd::Fenced },
        ),
        (WakeupPhase::Sending { lease }, _) => (
            WakeupPhase::Releasing { end: WakeupEnd::SendFailed },
            WakeupEffect::Release { lease },
        ),
        (WakeupPhase::Closing { lease }, WakeupEvent::Closed) => (
            WakeupPhase::Releasing { end: WakeupEnd::Delivered },
            WakeupEffect::Release { lease },
        ),
        (WakeupPhase::Closing { lease }, _) => (
            WakeupPhase::Releasing { end: WakeupEnd::CloseFailed },
            WakeupEffect::Release { lease },
        ),
        (WakeupPhase::Releasing { end }, event) => (
            WakeupPhase::Finished,
            WakeupEffect::Finish { end: after_release(end, event is Released) },
        ),
        _ => (
            WakeupPhase::Finished,
            WakeupEffect::Finish { end: WakeupEnd::AcquireFailed },
        ),
    }
}

/// Who holds the lease of a wakeup: an activation of its own for every call, so
/// that a restarted process never looks like the prior holder.
pub open spec fn holder_name(activation: Uuid7) -> Seq<char> {
    "wakeup-"@ + ids::uuid_text(activation.bits)
}

/// Who holds the lease of a wakeup, for a freshly minted activation.
pub fn wakeup_holder(activation: Uuid7) -> (holder: String)
    ensures
        holder@ == holder_name(activation),
{
    let mut holder = "wakeup-".to_string();
    holder.append(activation.to_text().as_str());
    holder
}

/// A wakeup under way.
#[derive(Debug)]
pub struct WakeupRun {
    pub phase: WakeupPhase,
}

impl WakeupRun {
    /// Starts a wakeup and says what is needed first.
    pub fn start() -> (started: (Self, WakeupEffect))
        ensures
            started.0.phase == WakeupPhase::Acquiring,
            started.1 == (WakeupEffect::Acquire { ttl_ms: WAKEUP_LEASE_TTL_MS }),
    {
        (
            WakeupRun { phase: WakeupPhase::Acquiring },
            WakeupEffect::Acquire { ttl_ms: WAKEUP_LEASE_TTL_MS },
        )
    }

    /// Takes what came of the last operation and says what is next.
    pub fn advance(&mut self, event: WakeupEvent) -> (effect: WakeupEffect)
        requires
            answers(old(self).phase, event),
        ensures
            (final(self).phase, effect) == next_wakeup(old(self).phase, event),
    {
        let (phase, effect) = match (self.phase, event) {
            (WakeupPhase::Acquiring, WakeupEvent::Attempted { acquired, lease }) => if acquired {
                (WakeupPhase::Sending { lease }, WakeupEffect::Send { lease })
            } else {
                (
                    WakeupPhase::Waiting,
                    WakeupEffect::Sleep { millis: WAKEUP_ACQUIRE_RETRY_INTERVAL_MS },
                )
            },
            (WakeupPhase::Waiting, _) => (
                WakeupPhase::Acquiring,
                WakeupEffect::Acquire { ttl_ms: WAKEUP_LEASE_TTL_MS },
            ),
            (WakeupPhase::Sending { lease }, WakeupEvent::Sent) => (
                WakeupPhase::Closing { lease },
                WakeupEffect::CloseSession,
            ),
            (WakeupPhase::Sending { .. }, WakeupEvent::Fenced) => (
                WakeupPhase::Finished,
                WakeupEffect::Finish { end: WakeupEnd::Fenced },
            ),
            (WakeupPhase::Sending { lease }, _) => (
                WakeupPhase::Releasing { end: WakeupEnd::SendFailed },
                WakeupEffect::Release { lease },
            ),
            (WakeupPhase::Closing { lease }, event) => (
                WakeupPhase::Releasing {
                    end: match event {
                        WakeupEvent::Closed => WakeupEnd::Delivered,
                        _ => WakeupEnd::CloseFailed,
                    },
                },
                WakeupEffect::Release { lease },
            ),
            (WakeupPhase::Releasing { end }, event) => (
                WakeupPhase::Finished,
                WakeupEffect::Finish {
                    end: match (end, event) {
                        (WakeupEnd::Delivered, WakeupEvent::Failed) => WakeupEnd::ReleaseFailed,
                        _ => end,
                    },
                },
            ),
            _ => (
                WakeupPhase::Finished,
                WakeupEffect::Finish { end: WakeupEnd::AcquireFailed },
            ),
        };
        self.phase = phase;
        effect
    }
}

/// Where a wakeup stands after some events, and what it asks for.
pub open spec fn after_events(events: Seq<WakeupEvent>) -> (WakeupPhase, WakeupEffect)
    decreases events.len(),
{
    if events.len() == 0 {
        (WakeupPhase::Acquiring, WakeupEffect::Acquire { ttl_ms: WAKEUP_LEASE_TTL_MS })
    } else {
        next_wakeup(after_events(events.drop_last()).0, events.last())
    }
}

/// Whether every event answers what the wakeup was waiting for.
pub open spec fn is_history(events: Seq<WakeupEvent>) -> bool
    decreases events.len(),
{
    events.len() == 0 || (is_history(events.drop_last()) && answers(
        after_events(events.drop_last()).0,
        events.last(),
    ))
}

/// The lease that was granted last, by what a wakeup was told.
pub open spec fn granted(events: Seq<WakeupEvent>) -> Option<TurnLease>
    decreases events.len(),
{
    if events.len() == 0 {
        None
    } else {
        match events.last() {
            WakeupEvent::Attempted { acquired: true, lease } => Some(lease),
            _ => granted(events.drop_last()),
        }
    }
}

/// Whether an event of a kind came.
pub open spec fn was_fenced(events: Seq<WakeupEvent>) -> bool {
    exists|i: int| 0 <= i < events.len() && #[trigger] events[i] is Fenced
}

/// What a wakeup carries along agrees with what it was told.
proof fn phases_agree_with_history(events: Seq<WakeupEvent>)
    requires
        is_history(events),
    ensures
        ({
            let (phase, effect) = after_events(events);
            &&& phase is Acquiring || phase is Waiting ==> granted(events) is None
            &&& phase matches WakeupPhase::Sending { lease } ==> granted(events) == Some(lease)
            &&& phase matches WakeupPhase::Closing { lease } ==> granted(events) == Some(lease)
            &&& effect matches WakeupEffect::Send { lease } ==> granted(events) == Some(lease)
            &&& effect matches WakeupEffect::Release { lease } ==> granted(events) == Some(lease)
            &&& phase is Releasing ==> effect is Release
            &&& !(phase is Finished) ==> !was_fenced(events)
            &&& effect is Finish ==> phase is Finished
            &&& phase is Finished ==> effect is Finish
        }),
    decreases events.len(),
{
    if events.len() > 0 {
        phases_agree_with_history(events.drop_last());
        let before = events.drop_last();
        if was_fenced(events) && !(events.last() is Fenced) {
            let i = choose|i: int| 0 <= i < events.len() && #[trigger] events[i] is Fenced;
            assert(before[i] is Fenced);
            assert(was_fenced(before));
        }
    }
}

/// Everything is sent and released under the lease that was granted, and under
/// no other.
pub proof fn a_wakeup_uses_the_lease_it_was_granted(events: Seq<WakeupEvent>, lease: TurnLease)
    requires
        is_history(events),
        after_events(events).1 == (WakeupEffect::Send { lease }) || after_events(events).1 == (
        WakeupEffect::Release { lease }),
    ensures
        granted(events) == Some(lease),
{
    phases_agree_with_history(events);
}

/// A fenced wakeup releases nothing: the lease belongs to its successor.
pub proof fn a_fenced_wakeup_releases_nothing(events: Seq<WakeupEvent>)
    requires
        is_history(events),
        was_fenced(events),
    ensures
        after_events(events).1 == (WakeupEffect::Finish { end: WakeupEnd::Fenced }),
{
    phases_agree_with_history(events);
    let before = events.drop_last();
    phases_agree_with_history(before);
    if !(events.last() is Fenced) {
        let i = choose|i: int| 0 <= i < events.len() && #[trigger] events[i] is Fenced;
        assert(before[i] is Fenced);
        assert(was_fenced(before));
        a_fenced_wakeup_is_over(before);
    }
}

/// A fenced wakeup takes no further event.
proof fn a_fenced_wakeup_is_over(events: Seq<WakeupEvent>)
    requires
        is_history(events),
        was_fenced(events),
    ensures
        after_events(events).0 is Finished,
{
    phases_agree_with_history(events);
}

/// A lease that was granted is given up before the wakeup ends, whatever failed
/// on the way, unless the wakeup was fenced.
pub proof fn an_unfenced_wakeup_gives_its_lease_up(events: Seq<WakeupEvent>, lease: TurnLease)
    requires
        is_history(events),
        after_events(events).1 is Finish,
        granted(events) == Some(lease),
        !was_fenced(events),
    ensures
        events.len() > 0,
        after_events(events.drop_last()).1 == (WakeupEffect::Release { lease }),
{
    if events.len() > 0 {
        let before = events.drop_last();
        phases_agree_with_history(before);
        assert(events.last() == events[events.len() - 1]);
    }
}

/// A wakeup is delivered only once its send came back, its session was closed
/// and its lease released, in that order.
pub proof fn a_delivered_wakeup_left_nothing_open(events: Seq<WakeupEvent>)
    requires
        is_history(events),
        after_events(events).1 == (WakeupEffect::Finish { end: WakeupEnd::Delivered }),
    ensures
        events.len() >= 3,
        events[events.len() - 1] is Released,
        events[events.len() - 2] is Closed,
        events[events.len() - 3] is Sent,
{
    let one = events.drop_last();
    let two = one.drop_last();
    reveal_with_fuel(after_events, 4);
    reveal_with_fuel(is_history, 4);
    assert(one.last() == events[events.len() - 2]);
    assert(two.last() == events[events.len() - 3]);
}

} // verus!
