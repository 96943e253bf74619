//! What a wakeup does, told by what it was told.

use vstd::prelude::*;

use crate::ids;
use crate::ids::Uuid7;
use crate::wakeup::{self, TurnLease, WakeupEffect, WakeupEnd, WakeupEvent, WakeupPhase};

verus! {

/// What a wakeup asks for tells where it stands.
proof fn effects_tell_phases(events: Seq<WakeupEvent>)
    requires
        wakeup::is_history(events),
    ensures
        ({
            let (phase, effect) = wakeup::after_events(events);
            &&& effect is Acquire <==> phase is Acquiring
            &&& effect is Sleep <==> phase is Waiting
            &&& effect is Send <==> phase is Sending
            &&& effect is CloseSession <==> phase is Closing
            &&& effect is Release <==> phase is Releasing
            &&& effect is Finish <==> phase is Finished
            &&& effect matches WakeupEffect::Send { lease } ==> phase == (WakeupPhase::Sending {
                lease,
            })
        }),
    decreases events.len(),
{
    if events.len() > 0 {
        effects_tell_phases(events.drop_last());
    }
}

/// What a wakeup asks for after one more event.
pub open spec fn asked_after(events: Seq<WakeupEvent>, event: WakeupEvent) -> WakeupEffect {
    wakeup::after_events(events.push(event)).1
}

/// A granted lease is used at once, and a taken one asked for again after a
/// pause: for the same time to live, and far less than that later. Asking that
/// fails ends the wakeup.
pub proof fn a_lease_is_asked_for_until_it_is_granted(
    events: Seq<WakeupEvent>,
    lease: TurnLease,
    pause: WakeupEvent,
)
    requires
        wakeup::is_history(events),
        wakeup::after_events(events).1 is Acquire,
        pause is Slept,
    ensures
        wakeup::after_events(events).1 == (WakeupEffect::Acquire { ttl_ms: 60_000 }),
        asked_after(events, WakeupEvent::Attempted { acquired: true, lease }) == (WakeupEffect::Send {
            lease,
        }),
        asked_after(events, WakeupEvent::Attempted { acquired: false, lease }) == (WakeupEffect::Sleep {
            millis: 500,
        }),
        asked_after(events.push(WakeupEvent::Attempted { acquired: false, lease }), pause) == (
        WakeupEffect::Acquire { ttl_ms: 60_000 }),
        asked_after(events, WakeupEvent::Failed) == (WakeupEffect::Finish {
            end: WakeupEnd::AcquireFailed,
        }),
{
    effects_tell_phases(events);
    asking_is_for_a_minute(events);
    let granted = WakeupEvent::Attempted { acquired: true, lease };
    let taken = WakeupEvent::Attempted { acquired: false, lease };
    assert(events.push(granted).drop_last() =~= events);
    assert(events.push(taken).drop_last() =~= events);
    assert(events.push(WakeupEvent::Failed).drop_last() =~= events);
    assert(events.push(taken).push(pause).drop_last() =~= events.push(taken));
}

/// A lease is always asked for to live a minute.
proof fn asking_is_for_a_minute(events: Seq<WakeupEvent>)
    requires
        wakeup::is_history(events),
        wakeup::after_events(events).1 is Acquire,
    ensures
        wakeup::after_events(events).1 == (WakeupEffect::Acquire { ttl_ms: 60_000 }),
{
    if events.len() > 0 {
        effects_tell_phases(events.drop_last());
    }
}

/// What a send leads to: once it came back well its session is closed, and then
/// the lease is released; a send that failed releases it at once, and a session
/// that could not be closed releases it too. All of it is for the lease that the
/// turn was sent under.
pub proof fn a_send_leads_to_a_release(events: Seq<WakeupEvent>, lease: TurnLease)
    requires
        wakeup::is_history(events),
        wakeup::after_events(events).1 == (WakeupEffect::Send { lease }),
    ensures
        asked_after(events, WakeupEvent::Sent) is CloseSession,
        asked_after(events.push(WakeupEvent::Sent), WakeupEvent::Closed) == (WakeupEffect::Release {
            lease,
        }),
        asked_after(events.push(WakeupEvent::Sent), WakeupEvent::Failed) == (WakeupEffect::Release {
            lease,
        }),
        asked_after(events, WakeupEvent::Failed) == (WakeupEffect::Release { lease }),
        asked_after(events, WakeupEvent::Fenced) == (WakeupEffect::Finish { end: WakeupEnd::Fenced }),
{
    effects_tell_phases(events);
    let sent = events.push(WakeupEvent::Sent);
    assert(sent.drop_last() =~= events);
    assert(sent.push(WakeupEvent::Closed).drop_last() =~= sent);
    assert(sent.push(WakeupEvent::Failed).drop_last() =~= sent);
    assert(events.push(WakeupEvent::Failed).drop_last() =~= events);
    assert(events.push(WakeupEvent::Fenced).drop_last() =~= events);
}

/// How a wakeup ends tells what failed first: the send, the closing of its
/// session, or, where both went well, the release; what became of the release
/// does not hide an earlier failure.
pub proof fn an_end_tells_what_failed_first(
    events: Seq<WakeupEvent>,
    lease: TurnLease,
    last: WakeupEvent,
)
    requires
        wakeup::is_history(events),
        wakeup::after_events(events).1 == (WakeupEffect::Send { lease }),
        last is Released || last is Failed,
    ensures
        ({
            let failed = events.push(WakeupEvent::Failed);
            let sent = events.push(WakeupEvent::Sent);
            &&& asked_after(failed, last) == (WakeupEffect::Finish { end: WakeupEnd::SendFailed })
            &&& asked_after(sent.push(WakeupEvent::Failed), last) == (WakeupEffect::Finish {
                end: WakeupEnd::CloseFailed,
            })
            &&& asked_after(sent.push(WakeupEvent::Closed), last) == (WakeupEffect::Finish {
                end: if last is Released {
                    WakeupEnd::Delivered
                } else {
                    WakeupEnd::ReleaseFailed
                },
            })
        }),
{
    effects_tell_phases(events);
    let failed = events.push(WakeupEvent::Failed);
    let sent = events.push(WakeupEvent::Sent);
    let unclosed = sent.push(WakeupEvent::Failed);
    let closed = sent.push(WakeupEvent::Closed);
    assert(failed.drop_last() =~= events);
    assert(sent.drop_last() =~= events);
    assert(unclosed.drop_last() =~= sent);
    assert(closed.drop_last() =~= sent);
    assert(failed.push(last).drop_last() =~= failed);
    assert(unclosed.push(last).drop_last() =~= unclosed);
    assert(closed.push(last).drop_last() =~= closed);
    assert(wakeup::after_events(failed).0 == (WakeupPhase::Releasing {
        end: WakeupEnd::SendFailed,
    }));
    assert(wakeup::after_events(sent).0 == (WakeupPhase::Closing { lease }));
    assert(wakeup::after_events(unclosed).0 == (WakeupPhase::Releasing {
        end: WakeupEnd::CloseFailed,
    }));
    assert(wakeup::after_events(closed).0 == (WakeupPhase::Releasing {
        end: WakeupEnd::Delivered,
    }));
}

/// Every activation holds its lease under a name of its own.
pub proof fn activations_have_their_own_names(a: Uuid7, b: Uuid7)
    ensures
        wakeup::holder_name(a) == wakeup::holder_name(b) <==> a == b,
{
    let head = "wakeup-"@;
    if wakeup::holder_name(a) == wakeup::holder_name(b) {
        assert(wakeup::holder_name(a).skip(head.len() as int) =~= ids::uuid_text(a.bits));
        assert(wakeup::holder_name(b).skip(head.len() as int) =~= ids::uuid_text(b.bits));
        ids::uuid_text_is_injective(a.bits, b.bits);
    }
}

} // verus!
