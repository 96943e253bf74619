//! Instants and spans of time. Nothing here reads a clock: the time is handed
//! in.

use chrono::DateTime;
use vstd::prelude::*;

verus! {

/// A span of time, in nanoseconds.
#[derive(Debug, Clone, Copy, PartialEq, Eq, Structural)]
pub struct Duration {
    pub nanos: u128,
}

impl Duration {
    /// A span of whole seconds.
    pub fn from_secs(secs: u64) -> (span: Self)
        ensures
            span.nanos == secs * 1_000_000_000,
    {
        Duration { nanos: secs as u128 * 1_000_000_000 }
    }

    /// The whole seconds of a span. A span beyond what 64 bits of seconds hold
    /// is the longest that they do.
    pub fn as_secs(&self) -> (secs: u64)
        ensures
            secs == if self.nanos / 1_000_000_000 <= u64::MAX {
                self.nanos / 1_000_000_000
            } else {
                u64::MAX as u128
            },
    {
        let secs: u128 = self.nanos / 1_000_000_000;
        if secs <= u64::MAX as u128 {
            secs as u64
        } else {
            u64::MAX
        }
    }
}

/// Whether seconds since the epoch and nanoseconds of the second are an instant
/// of the calendar. The nanoseconds go past a whole second only within a leap
/// second, which ends a minute.
pub open spec fn is_instant(secs: i64, nanos: u32) -> bool {
    &&& -8_334_601_228_800 <= secs <= 8_210_266_876_799
    &&& nanos < 1_000_000_000 || (nanos < 2_000_000_000 && (secs as int) % 60 == 59)
}

/// The nanoseconds from `earlier` to `later`, negative where `later` comes
/// first. A leap second of the one counts where the other is at another time
/// of day.
pub open spec fn nanos_between(
    later_secs: i64,
    later_nanos: u32,
    earlier_secs: i64,
    earlier_nanos: u32,
) -> int {
    let later_time = (later_secs as int) % 86_400;
    let earlier_time = (earlier_secs as int) % 86_400;
    let leap: int = if later_time > earlier_time && earlier_nanos >= 1_000_000_000 {
        1
    } else if later_time < earlier_time && later_nanos >= 1_000_000_000 {
        -1
    } else {
        0
    };
    (later_secs - earlier_secs + leap) * 1_000_000_000 + later_nanos - earlier_nanos
}

/// `chrono::DateTime::signed_duration_since` between two UTC instants, and
/// `chrono::TimeDelta::to_std` of the result, which fails for a negative span:
/// the seconds and nanoseconds from `earlier` to `later`, or `None` where
/// `later` comes first. The instants go in and the span comes out as numbers.
#[verifier::external_body]
fn chrono_elapsed(later_secs: i64, later_nanos: u32, earlier_secs: i64, earlier_nanos: u32) -> (span: Option<
    (u64, u32),
>)
    requires
        is_instant(later_secs, later_nanos),
        is_instant(earlier_secs, earlier_nanos),
    ensures
        match span {
            Some((secs, nanos)) => nanos < 1_000_000_000 && secs * 1_000_000_000 + nanos
                == nanos_between(later_secs, later_nanos, earlier_secs, earlier_nanos),
            None => nanos_between(later_secs, later_nanos, earlier_secs, earlier_nanos) < 0,
        },
{
    let later = DateTime::from_timestamp(later_secs, later_nanos)?;
    let earlier = DateTime::from_timestamp(earlier_secs, earlier_nanos)?;
    let span = later.signed_duration_since(earlier).to_std().ok()?;
    Some((span.as_secs(), span.subsec_nanos()))
}

/// An instant in UTC.
#[derive(Debug, Clone, Copy, PartialEq, Eq, Structural)]
pub struct DateTimeUtc {
    secs: i64,
    nanos: u32,
}

impl DateTimeUtc {
    #[verifier::type_invariant]
    spec fn is_valid(&self) -> bool {
        is_instant(self.secs, self.nanos)
    }

    /// Seconds since the epoch.
    pub closed spec fn secs(&self) -> i64 {
        self.secs
    }

    /// Nanoseconds of the second.
    pub closed spec fn nanos(&self) -> u32 {
        self.nanos
    }

    /// The instant so many seconds after the epoch and nanoseconds into that
    /// second; `None` where there is no such instant.
    pub fn new(secs: i64, nanos: u32) -> (instant: Option<Self>)
        ensures
            match instant {
                Some(at) => is_instant(secs, nanos) && at.secs() == secs && at.nanos() == nanos,
                None => !is_instant(secs, nanos),
            },
    {
        if secs < -8_334_601_228_800 || secs > 8_210_266_876_799 {
            return None;
        }
        // The earliest instant starts a minute.
        let minute_secs: u64 = (secs + 8_334_601_228_800) as u64 % 60;
        if nanos < 1_000_000_000 || (nanos < 2_000_000_000 && minute_secs == 59) {
            Some(DateTimeUtc { secs, nanos })
        } else {
            None
        }
    }
}

/// Whether `a` comes no earlier than `b`.
pub open spec fn is_not_before(a: DateTimeUtc, b: DateTimeUtc) -> bool {
    a.secs() > b.secs() || (a.secs() == b.secs() && a.nanos() >= b.nanos())
}

/// Whether `a` comes no earlier than `b`.
pub fn not_before(a: DateTimeUtc, b: DateTimeUtc) -> (ordered: bool)
    ensures
        ordered == is_not_before(a, b),
{
    a.secs > b.secs || (a.secs == b.secs && a.nanos >= b.nanos)
}

/// How long ago an instant was; `None` where it lies ahead.
pub open spec fn age(now: DateTimeUtc, at: DateTimeUtc) -> Option<int> {
    let elapsed = nanos_between(now.secs(), now.nanos(), at.secs(), at.nanos());
    if elapsed < 0 {
        None
    } else {
        Some(elapsed)
    }
}

/// The nanoseconds of a span that may be missing.
pub open spec fn nanos_of(span: Option<Duration>) -> Option<int> {
    match span {
        Some(held) => Some(held.nanos as int),
        None => None,
    }
}

/// How long before `now` an instant was; `None` where it lies ahead.
pub fn age_since(instant: DateTimeUtc, now: DateTimeUtc) -> (elapsed: Option<Duration>)
    ensures
        nanos_of(elapsed) == age(now, instant),
{
    proof {
        use_type_invariant(&now);
        use_type_invariant(&instant);
    }
    match chrono_elapsed(now.secs, now.nanos, instant.secs, instant.nanos) {
        Some((secs, nanos)) => Some(
            Duration { nanos: secs as u128 * 1_000_000_000 + nanos as u128 },
        ),
        None => None,
    }
}

/// Ages grow with the clock: between instants that are no leap seconds, an age
/// is the difference of their times.
pub proof fn ages_grow(now: DateTimeUtc, later: DateTimeUtc, at: DateTimeUtc)
    requires
        now.nanos() < 1_000_000_000,
        later.nanos() < 1_000_000_000,
        at.nanos() < 1_000_000_000,
        age(now, at) is Some,
        age(later, now) is Some,
    ensures
        age(later, at) == Some(age(now, at)->0 + age(later, now)->0),
{
}

/// Ages are differences: between instants that are no leap seconds an age is the
/// nanoseconds from the earlier to the later, and there is none exactly where
/// the instant lies ahead.
pub proof fn an_age_is_the_time_between(now: DateTimeUtc, at: DateTimeUtc)
    requires
        now.nanos() < 1_000_000_000,
        at.nanos() < 1_000_000_000,
    ensures
        ({
            let elapsed = (now.secs() * 1_000_000_000 + now.nanos()) - (at.secs() * 1_000_000_000
                + at.nanos());
            match age(now, at) {
                Some(nanos) => elapsed >= 0 && nanos == elapsed,
                None => elapsed < 0,
            }
        }),
        is_not_before(now, at) <==> age(now, at) is Some,
{
}

/// Instants are ordered: of two one is not before the other, and where neither
/// is before the other they are the same.
pub proof fn instants_are_ordered(a: DateTimeUtc, b: DateTimeUtc)
    ensures
        is_not_before(a, b) || is_not_before(b, a),
        is_not_before(a, b) && is_not_before(b, a) ==> a.secs() == b.secs() && a.nanos()
            == b.nanos(),
        a.secs() > b.secs() ==> is_not_before(a, b) && !is_not_before(b, a),
{
}

} // verus!
