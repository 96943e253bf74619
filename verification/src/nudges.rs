//! Keeping pending input requests from going stale: reminders to the channel a
//! request was relayed to, and a head start for the scheduled work of blocked
//! conversations.

use serde_json::Value;
use vstd::prelude::*;

use crate::clock::{self, DateTimeUtc, Duration};
use crate::input_requests::{ConversationEvent, EventData, PendingInputRequest, PendingView};
use crate::json::{self, Json};
use crate::payload;
use crate::text;

verus! {

/// Bookkeeping event: a reminder was posted again for a pending input request.
pub const EXO_INPUT_REQUEST_NUDGED_EVENT: &'static str = "exo.input_request_nudged";

/// How many events a scan for reminders asks for at a time.
pub const NUDGE_SCAN_PAGE_LIMIT: u32 = 200;

/// When reminders are due.
#[derive(Debug, Clone, Copy)]
pub struct AttentionOptions {
    /// A pending request at least this old is aged: it is eligible for a
    /// reminder and puts its conversation's scheduled work first.
    pub nudge_after: Duration,
    /// Minimum spacing between reminders of one request.
    pub nudge_interval: Duration,
}

impl Default for AttentionOptions {
    fn default() -> (options: Self)
        ensures
            options.nudge_after.nanos == 300_000_000_000,
            options.nudge_interval.nanos == 300_000_000_000,
    {
        AttentionOptions {
            nudge_after: Duration::from_secs(300),
            nudge_interval: Duration::from_secs(300),
        }
    }
}

/// A reminder that was sent.
#[derive(Debug)]
pub struct InputRequestNudge {
    pub agent_slug: String,
    pub conversation_slug: String,
    pub request_id: String,
    pub age_seconds: u64,
}

/// The contents of an [`InputRequestNudge`].
#[verifier::ext_equal]
pub struct NudgeView {
    pub agent_slug: Seq<char>,
    pub conversation_slug: Seq<char>,
    pub request_id: Seq<char>,
    pub age_seconds: u64,
}

impl View for InputRequestNudge {
    type V = NudgeView;

    open spec fn view(&self) -> NudgeView {
        NudgeView {
            agent_slug: self.agent_slug@,
            conversation_slug: self.conversation_slug@,
            request_id: self.request_id@,
            age_seconds: self.age_seconds,
        }
    }
}

/// The contents of each reminder.
pub open spec fn nudge_views(nudges: Seq<InputRequestNudge>) -> Seq<NudgeView> {
    nudges.map_values(|nudge: InputRequestNudge| nudge@)
}

/// The request a bookkeeping payload is about; `None` where it is malformed.
pub open spec fn nudged_request(held: Json) -> Option<Seq<char>> {
    if payload::is_record(held, 1) {
        json::text_of(payload::part(held, "request_id"@, 0))
    } else {
        None
    }
}

/// The latest reminder of each request, after one more event.
pub open spec fn after_nudge(
    times: Map<Seq<char>, DateTimeUtc>,
    event: ConversationEvent,
) -> Map<Seq<char>, DateTimeUtc> {
    match event.data {
        EventData::Custom { payload, .. } => match nudged_request(json::json(payload)) {
            Some(request_id) => times.insert(request_id, event.created_at),
            None => times,
        },
        EventData::Other => times,
    }
}

/// The latest reminder of each request, after some more events.
pub open spec fn after_nudges(
    times: Map<Seq<char>, DateTimeUtc>,
    events: Seq<ConversationEvent>,
) -> Map<Seq<char>, DateTimeUtc>
    decreases events.len(),
{
    if events.len() == 0 {
        times
    } else {
        after_nudge(after_nudges(times, events.drop_last()), events.last())
    }
}

/// A request and when it was last reminded of.
#[derive(Debug)]
struct LastNudge {
    request_id: String,
    at: DateTimeUtc,
}

/// Whether `nudges[i]` is of a request.
spec fn is_nudge_of(nudges: Seq<LastNudge>, i: int, request_id: Seq<char>) -> bool {
    0 <= i < nudges.len() && nudges[i].request_id@ == request_id
}

/// The latest reminders by request.
spec fn nudge_map(nudges: Seq<LastNudge>) -> Map<Seq<char>, DateTimeUtc> {
    Map::new(
        |request_id: Seq<char>| exists|i: int| #[trigger] is_nudge_of(nudges, i, request_id),
        |request_id: Seq<char>|
            nudges[choose|i: int| #[trigger] is_nudge_of(nudges, i, request_id)].at,
    )
}

/// No request is listed twice.
spec fn nudges_are_distinct(nudges: Seq<LastNudge>) -> bool {
    forall|i: int, j: int|
        0 <= i < j < nudges.len() ==> (#[trigger] nudges[i]).request_id@ != (
        #[trigger] nudges[j]).request_id@
}

/// A scan of a conversation's own log for the latest reminder of each request,
/// a page of bookkeeping events at a time.
#[derive(Debug)]
pub struct NudgeScan {
    nudges: Vec<LastNudge>,
}

impl View for NudgeScan {
    type V = Map<Seq<char>, DateTimeUtc>;

    closed spec fn view(&self) -> Map<Seq<char>, DateTimeUtc> {
        nudge_map(self.nudges@)
    }
}

impl NudgeScan {
    #[verifier::type_invariant]
    spec fn is_valid(&self) -> bool {
        nudges_are_distinct(self.nudges@)
    }

    /// A scan that has seen nothing yet.
    pub fn new() -> (scan: Self)
        ensures
            scan@ == Map::<Seq<char>, DateTimeUtc>::empty(),
    {
        let scan = NudgeScan { nudges: Vec::new() };
        assert(scan@ =~= Map::<Seq<char>, DateTimeUtc>::empty());
        scan
    }

    /// When a request was last reminded of.
    pub fn last_nudge(&self, request_id: &str) -> (at: Option<DateTimeUtc>)
        ensures
            at == if self@.contains_key(request_id@) {
                Some(self@[request_id@])
            } else {
                None
            },
    {
        proof {
            use_type_invariant(self);
        }
        match position_of(&self.nudges, request_id) {
            Some(i) => {
                assert(is_nudge_of(self.nudges@, i as int, request_id@));
                Some(self.nudges[i].at)
            },
            None => None,
        }
    }

    /// Takes a page of events, and whether the log gave a cursor behind it.
    /// Returns whether to ask for the page at that cursor.
    pub fn take_page(&mut self, events: &Vec<ConversationEvent>, has_cursor: bool) -> (more: bool)
        ensures
            final(self)@ == after_nudges(old(self)@, events@),
            more == (has_cursor && events.len() > 0),
    {
        proof {
            use_type_invariant(&*self);
        }
        let mut nudges: Vec<LastNudge> = Vec::new();
        std::mem::swap(&mut nudges, &mut self.nudges);
        let ghost before = nudge_map(nudges@);
        let mut i: usize = 0;
        assert(events@.take(0) =~= Seq::empty());
        while i < events.len()
            invariant
                i <= events.len(),
                nudges_are_distinct(nudges@),
                nudge_map(nudges@) == after_nudges(before, events@.take(i as int)),
            decreases events.len() - i,
        {
            proof {
                assert(events@.take(i + 1).drop_last() =~= events@.take(i as int));
                assert(events@.take(i + 1).last() == events@[i as int]);
            }
            let event = &events[i];
            if let EventData::Custom { payload, .. } = &event.data {
                if let Some(request_id) = read_nudge(payload) {
                    note_nudge(&mut nudges, request_id, event.created_at);
                }
            }
            i += 1;
        }
        assert(events@.take(i as int) =~= events@);
        self.nudges = nudges;
        has_cursor && events.len() > 0
    }
}

/// Reads the request a bookkeeping payload is about.
fn read_nudge(value: &Value) -> (request_id: Option<String>)
    ensures
        text::opt_view(request_id) == nudged_request(json::json(*value)),
{
    if payload::can_be_record(value, 1) {
        payload::required_text_part(value, "request_id", 0)
    } else {
        None
    }
}

/// Where a request is listed.
fn position_of(nudges: &Vec<LastNudge>, request_id: &str) -> (found: Option<usize>)
    requires
        nudges_are_distinct(nudges@),
    ensures
        match found {
            Some(i) => is_nudge_of(nudges@, i as int, request_id@) && nudge_map(
                nudges@,
            ).contains_key(request_id@) && nudge_map(nudges@)[request_id@] == nudges@[i as int].at,
            None => !nudge_map(nudges@).contains_key(request_id@),
        },
{
    let mut i: usize = 0;
    while i < nudges.len()
        invariant
            nudges_are_distinct(nudges@),
            i <= nudges.len(),
            forall|j: int| 0 <= j < i ==> (#[trigger] nudges@[j]).request_id@ != request_id@,
        decreases nudges.len() - i,
    {
        if text::str_eq(nudges[i].request_id.as_str(), request_id) {
            assert(is_nudge_of(nudges@, i as int, request_id@));
            return Some(i);
        }
        i += 1;
    }
    None
}

/// Notes a reminder, in place of an earlier one of the request.
fn note_nudge(nudges: &mut Vec<LastNudge>, request_id: String, at: DateTimeUtc)
    requires
        nudges_are_distinct(old(nudges)@),
    ensures
        nudges_are_distinct(final(nudges)@),
        nudge_map(final(nudges)@) == nudge_map(old(nudges)@).insert(request_id@, at),
{
    let ghost before = nudges@;
    let ghost id = request_id@;
    match position_of(nudges, request_id.as_str()) {
        Some(i) => {
            nudges[i].at = at;
            proof {
                let after = nudges@;
                assert forall|r: Seq<char>, k: int|
                    #![trigger is_nudge_of(after, k, r)]
                    is_nudge_of(after, k, r) == is_nudge_of(before, k, r) by {}
                assert forall|r: Seq<char>|
                    #![trigger nudge_map(after).contains_key(r)]
                    nudge_map(after).contains_key(r) == nudge_map(before).insert(
                        id,
                        at,
                    ).contains_key(r) && (nudge_map(after).contains_key(r) ==> nudge_map(after)[r]
                        == nudge_map(before).insert(id, at)[r]) by {
                    assert(is_nudge_of(before, i as int, id));
                    if exists|k: int| #[trigger] is_nudge_of(after, k, r) {
                        let k = choose|k: int| #[trigger] is_nudge_of(after, k, r);
                        let l = choose|l: int| #[trigger] is_nudge_of(before, l, r);
                        assert(is_nudge_of(before, k, r));
                        assert(is_nudge_of(before, l, r));
                        assert(k == l);
                    }
                    if exists|k: int| #[trigger] is_nudge_of(before, k, r) {
                        let k = choose|k: int| #[trigger] is_nudge_of(before, k, r);
                        assert(is_nudge_of(after, k, r));
                    }
                }
                assert(nudge_map(after) =~= nudge_map(before).insert(id, at));
            }
        },
        None => {
            nudges.push(LastNudge { request_id, at });
            proof {
                let after = nudges@;
                let n = before.len() as int;
                assert forall|r: Seq<char>|
                    #![trigger nudge_map(after).contains_key(r)]
                    nudge_map(after).contains_key(r) == nudge_map(before).insert(
                        id,
                        at,
                    ).contains_key(r) && (nudge_map(after).contains_key(r) ==> nudge_map(after)[r]
                        == nudge_map(before).insert(id, at)[r]) by {
                    if r == id {
                        assert(is_nudge_of(after, n, r));
                        let k = choose|k: int| #[trigger] is_nudge_of(after, k, r);
                        if k < n {
                            assert(is_nudge_of(before, k, r));
                        }
                    } else {
                        if exists|k: int| #[trigger] is_nudge_of(before, k, r) {
                            let k = choose|k: int| #[trigger] is_nudge_of(before, k, r);
                            assert(is_nudge_of(after, k, r));
                            let l = choose|l: int| #[trigger] is_nudge_of(after, l, r);
                            assert(is_nudge_of(before, l, r));
                            assert(k == l);
                        }
                        if exists|k: int| #[trigger] is_nudge_of(after, k, r) {
                            let k = choose|k: int| #[trigger] is_nudge_of(after, k, r);
                            assert(is_nudge_of(before, k, r));
                        }
                    }
                }
                assert(nudge_map(after) =~= nudge_map(before).insert(id, at));
                assert(nudges_are_distinct(after)) by {
                    assert forall|i: int, j: int| 0 <= i < j < after.len() implies (
                    #[trigger] after[i]).request_id@ != (#[trigger] after[j]).request_id@ by {
                        if j == n && after[i].request_id@ == id {
                            assert(is_nudge_of(before, i, id));
                        }
                    }
                }
            }
        },
    }
}

/// Whether a request of this age is aged.
pub open spec fn is_aged(request: PendingView, aged_after: Duration, now: DateTimeUtc) -> bool {
    clock::age(now, request.requested_at) matches Some(age) && age >= aged_after.nanos
}

/// Whether a reminder is due: the request was relayed, is aged, and was not
/// reminded of within the interval. A reminder that lies ahead of the clock
/// counts as within it.
pub open spec fn is_due(
    request: PendingView,
    last: Option<DateTimeUtc>,
    options: AttentionOptions,
    now: DateTimeUtc,
) -> bool {
    &&& request.payload.adapter_id is Some
    &&& is_aged(request, options.nudge_after, now)
    &&& last matches Some(at) ==> (clock::age(now, at) matches Some(since) && since
        >= options.nudge_interval.nanos)
}

/// How old a request is; `None` where it was made ahead of the clock.
pub fn request_age(request: &PendingInputRequest, now: DateTimeUtc) -> (age: Option<Duration>)
    ensures
        clock::nanos_of(age) == clock::age(now, request.requested_at),
{
    clock::age_since(request.requested_at, now)
}

/// The request's age, where a reminder of it is due.
pub fn nudge_due(
    request: &PendingInputRequest,
    last: Option<DateTimeUtc>,
    options: &AttentionOptions,
    now: DateTimeUtc,
) -> (due: Option<Duration>)
    ensures
        match due {
            Some(age) => is_due(request@, last, *options, now) && Some(age.nanos as int)
                == clock::age(now, request.requested_at),
            None => !is_due(request@, last, *options, now),
        },
{
    if request.payload.adapter_id.is_none() {
        return None;
    }
    let age = match request_age(request, now) {
        Some(age) => age,
        None => {
            return None;
        },
    };
    if age.nanos < options.nudge_after.nanos {
        return None;
    }
    if let Some(at) = last {
        match clock::age_since(at, now) {
            Some(since) => {
                if since.nanos < options.nudge_interval.nanos {
                    return None;
                }
            },
            None => {
                return None;
            },
        }
    }
    Some(age)
}

/// Whether any of a conversation's pending requests is aged.
pub fn conversation_has_aged_request(
    pending: &Vec<PendingInputRequest>,
    aged_after: Duration,
    now: DateTimeUtc,
) -> (aged: bool)
    ensures
        aged == exists|i: int|
            0 <= i < pending.len() && is_aged((#[trigger] pending@[i])@, aged_after, now),
{
    let mut i: usize = 0;
    while i < pending.len()
        invariant
            i <= pending.len(),
            forall|j: int|
                0 <= j < i ==> !is_aged((#[trigger] pending@[j])@, aged_after, now),
        decreases pending.len() - i,
    {
        if let Some(age) = request_age(&pending[i], now) {
            if age.nanos >= aged_after.nanos {
                assert(is_aged(pending@[i as int]@, aged_after, now));
                return true;
            }
        }
        i += 1;
    }
    false
}

/// The text of a reminder.
pub open spec fn reminder(prompt: Seq<char>) -> Seq<char> {
    "Reminder — still waiting on an answer to:\n\n"@ + prompt
}

/// The text of a reminder of a request.
pub fn nudge_text(request: &PendingInputRequest) -> (text: String)
    ensures
        text@ == reminder(request.payload.prompt@),
{
    let mut text = "Reminder — still waiting on an answer to:\n\n".to_string();
    text.append(request.payload.prompt.as_str());
    text
}

/// Reminders of one request are spaced: at the time of the next, at least the
/// interval has passed since the last.
pub proof fn nudges_are_spaced(
    request: PendingView,
    last: DateTimeUtc,
    options: AttentionOptions,
    now: DateTimeUtc,
)
    requires
        is_due(request, Some(last), options, now),
    ensures
        clock::age(now, last) is Some,
        clock::age(now, last)->0 >= options.nudge_interval.nanos,
{
}

/// A recorded reminder is the latest one of its request, whatever else the log
/// holds before it.
pub proof fn a_recorded_nudge_is_the_latest(
    events: Seq<ConversationEvent>,
    event: ConversationEvent,
    request_id: Seq<char>,
)
    requires
        event.data matches EventData::Custom { payload, .. } && nudged_request(
            json::json(payload),
        ) == Some(request_id),
    ensures
        ({
            let times = after_nudges(Map::empty(), events.push(event));
            times.contains_key(request_id) && times[request_id] == event.created_at
        }),
{
    assert(events.push(event).drop_last() =~= events);
}

/// Reading bookkeeping events page by page is reading them whole.
pub proof fn nudge_pages_add_up(
    times: Map<Seq<char>, DateTimeUtc>,
    first: Seq<ConversationEvent>,
    second: Seq<ConversationEvent>,
)
    ensures
        after_nudges(after_nudges(times, first), second) == after_nudges(times, first + second),
    decreases second.len(),
{
    if second.len() == 0 {
        assert(first + second =~= first);
    } else {
        nudge_pages_add_up(times, first, second.drop_last());
        assert((first + second).drop_last() =~= first + second.drop_last());
        assert((first + second).last() == second.last());
    }
}

} // verus!
