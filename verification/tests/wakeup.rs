use exo_attention::ids::Uuid7;
use exo_attention::wakeup::{
    wakeup_holder, TurnLease, WakeupEffect, WakeupEnd, WakeupEvent, WakeupRun,
    WAKEUP_ACQUIRE_RETRY_INTERVAL_MS, WAKEUP_LEASE_TTL_MS,
};

fn lease(epoch: u64) -> TurnLease {
    TurnLease { lease_id: Uuid7 { bits: 9 }, epoch }
}

#[test]
fn a_wakeup_waits_for_the_lease_then_sends_under_its_epoch() {
    let (mut run, first) = WakeupRun::start();
    assert!(matches!(first, WakeupEffect::Acquire { ttl_ms: WAKEUP_LEASE_TTL_MS }));
    let effect = run.advance(WakeupEvent::Attempted { acquired: false, lease: lease(4) });
    assert!(matches!(
        effect,
        WakeupEffect::Sleep { millis: WAKEUP_ACQUIRE_RETRY_INTERVAL_MS }
    ));
    assert!(matches!(run.advance(WakeupEvent::Slept), WakeupEffect::Acquire { .. }));
    let effect = run.advance(WakeupEvent::Attempted { acquired: true, lease: lease(5) });
    assert!(matches!(effect, WakeupEffect::Send { lease } if lease.epoch == 5));
    assert!(matches!(run.advance(WakeupEvent::Sent), WakeupEffect::CloseSession));
    let effect = run.advance(WakeupEvent::Closed);
    assert!(matches!(effect, WakeupEffect::Release { lease } if lease.epoch == 5));
    assert!(matches!(
        run.advance(WakeupEvent::Released),
        WakeupEffect::Finish { end: WakeupEnd::Delivered }
    ));
}

#[test]
fn a_fenced_wakeup_releases_nothing() {
    let (mut run, _) = WakeupRun::start();
    run.advance(WakeupEvent::Attempted { acquired: true, lease: lease(5) });
    assert!(matches!(
        run.advance(WakeupEvent::Fenced),
        WakeupEffect::Finish { end: WakeupEnd::Fenced }
    ));
}

#[test]
fn a_failed_send_gives_the_lease_up() {
    let (mut run, _) = WakeupRun::start();
    run.advance(WakeupEvent::Attempted { acquired: true, lease: lease(5) });
    assert!(matches!(run.advance(WakeupEvent::Failed), WakeupEffect::Release { .. }));
    assert!(matches!(
        run.advance(WakeupEvent::Released),
        WakeupEffect::Finish { end: WakeupEnd::SendFailed }
    ));
}

#[test]
fn failures_around_a_send_end_the_wakeup() {
    let (mut run, _) = WakeupRun::start();
    assert!(matches!(
        run.advance(WakeupEvent::Failed),
        WakeupEffect::Finish { end: WakeupEnd::AcquireFailed }
    ));

    let (mut run, _) = WakeupRun::start();
    run.advance(WakeupEvent::Attempted { acquired: true, lease: lease(5) });
    run.advance(WakeupEvent::Sent);
    assert!(matches!(
        run.advance(WakeupEvent::Failed),
        WakeupEffect::Release { lease } if lease.epoch == 5
    ));
    assert!(matches!(
        run.advance(WakeupEvent::Released),
        WakeupEffect::Finish { end: WakeupEnd::CloseFailed }
    ));

    let (mut run, _) = WakeupRun::start();
    run.advance(WakeupEvent::Attempted { acquired: true, lease: lease(5) });
    run.advance(WakeupEvent::Sent);
    run.advance(WakeupEvent::Closed);
    assert!(matches!(
        run.advance(WakeupEvent::Failed),
        WakeupEffect::Finish { end: WakeupEnd::ReleaseFailed }
    ));
}

#[test]
fn the_first_error_of_a_wakeup_outlives_a_failed_release() {
    let (mut run, _) = WakeupRun::start();
    run.advance(WakeupEvent::Attempted { acquired: true, lease: lease(5) });
    run.advance(WakeupEvent::Sent);
    run.advance(WakeupEvent::Failed);
    assert!(matches!(
        run.advance(WakeupEvent::Failed),
        WakeupEffect::Finish { end: WakeupEnd::CloseFailed }
    ));

    let (mut run, _) = WakeupRun::start();
    run.advance(WakeupEvent::Attempted { acquired: true, lease: lease(5) });
    run.advance(WakeupEvent::Failed);
    assert!(matches!(
        run.advance(WakeupEvent::Failed),
        WakeupEffect::Finish { end: WakeupEnd::SendFailed }
    ));
}

#[test]
fn an_activation_holds_leases_under_its_own_name() {
    let a = wakeup_holder(Uuid7 { bits: 1 });
    let b = wakeup_holder(Uuid7 { bits: 2 });
    assert_ne!(a, b);
    assert!(a.ends_with(&Uuid7 { bits: 1 }.to_text()));
}
