//! One conversation's reminders, one outside operation at a time.

use vstd::prelude::*;

use crate::clock::{self, DateTimeUtc, Duration};
use crate::input_requests::{PendingInputRequest, PendingView};
use crate::nudges::{self, AttentionOptions, InputRequestNudge, NudgeScan, NudgeView};
use crate::text;

verus! {

/// The outside operation the reminders need next, or their end.
#[derive(Debug)]
pub enum NudgeEffect {
    /// Scan the conversation's log for earlier reminders.
    ScanNudges,
    /// Look up the adapter a request was relayed through.
    FindAdapter { adapter_id: String },
    /// Send a reminder through that adapter.
    Send { text: String, target: Option<String> },
    /// Record in the conversation's log that the request was reminded of.
    Record { request_id: String },
    /// No further reminder is due.
    Finish,
}

/// What came of an outside operation. One that failed ends the conversation's
/// reminders, and those already recorded stand.
#[derive(Debug)]
pub enum NudgeEvent {
    Scanned { times: NudgeScan },
    /// Whether the adapter is enabled, or nothing where it is gone.
    Found { enabled: Option<bool> },
    Sent,
    Recorded,
}

/// Where the reminders stand.
#[derive(Debug, Clone, Copy, PartialEq, Eq, Structural)]
pub enum NudgePhase {
    Scanning,
    Looking { at: usize, age: Duration },
    Sending { at: usize, age: Duration },
    Recording { at: usize, age: Duration },
    Finished,
}

/// The contents of a [`NudgeEffect`].
#[verifier::ext_equal]
pub enum NudgeEffectView {
    ScanNudges,
    FindAdapter { adapter_id: Seq<char> },
    Send { text: Seq<char>, target: Option<Seq<char>> },
    Record { request_id: Seq<char> },
    Finish,
}

/// The contents of a [`NudgeEvent`].
pub enum NudgeEventView {
    Scanned { times: Map<Seq<char>, DateTimeUtc> },
    Found { enabled: Option<bool> },
    Sent,
    Recorded,
}

impl View for NudgeEffect {
    type V = NudgeEffectView;

    open spec fn view(&self) -> NudgeEffectView {
        match *self {
            NudgeEffect::ScanNudges => NudgeEffectView::ScanNudges,
            NudgeEffect::FindAdapter { adapter_id } => NudgeEffectView::FindAdapter {
                adapter_id: adapter_id@,
            },
            NudgeEffect::Send { text, target } => NudgeEffectView::Send {
                text: text@,
                target: text::opt_view(target),
            },
            NudgeEffect::Record { request_id } => NudgeEffectView::Record {
                request_id: request_id@,
            },
            NudgeEffect::Finish => NudgeEffectView::Finish,
        }
    }
}

impl View for NudgeEvent {
    type V = NudgeEventView;

    open spec fn view(&self) -> NudgeEventView {
        match *self {
            NudgeEvent::Scanned { times } => NudgeEventView::Scanned { times: times@ },
            NudgeEvent::Found { enabled } => NudgeEventView::Found { enabled },
            NudgeEvent::Sent => NudgeEventView::Sent,
            NudgeEvent::Recorded => NudgeEventView::Recorded,
        }
    }
}

/// The reminders of one conversation, under way.
#[derive(Debug)]
pub struct NudgeRun {
    agent_slug: String,
    conversation_slug: String,
    options: AttentionOptions,
    pending: Vec<PendingInputRequest>,
    times: NudgeScan,
    phase: NudgePhase,
    nudges: Vec<InputRequestNudge>,
}

/// The contents of a [`NudgeRun`].
#[verifier::ext_equal]
pub struct NudgeRunView {
    pub agent_slug: Seq<char>,
    pub conversation_slug: Seq<char>,
    pub options: AttentionOptions,
    pub pending: Seq<PendingView>,
    pub times: Map<Seq<char>, DateTimeUtc>,
    pub phase: NudgePhase,
    pub nudges: Seq<NudgeView>,
}

impl View for NudgeRun {
    type V = NudgeRunView;

    closed spec fn view(&self) -> NudgeRunView {
        NudgeRunView {
            agent_slug: self.agent_slug@,
            conversation_slug: self.conversation_slug@,
            options: self.options,
            pending: crate::input_requests::pending_views(self.pending@),
            times: self.times@,
            phase: self.phase,
            nudges: nudges::nudge_views(self.nudges@),
        }
    }
}

/// When a request was last reminded of.
pub open spec fn last_of(times: Map<Seq<char>, DateTimeUtc>, request: PendingView) -> Option<
    DateTimeUtc,
> {
    if times.contains_key(request.payload.request_id) {
        Some(times[request.payload.request_id])
    } else {
        None
    }
}

/// The first request from a place on whose reminder is due.
pub open spec fn next_due(run: NudgeRunView, from: int, now: DateTimeUtc) -> Option<int>
    decreases run.pending.len() - from,
{
    if from < 0 || from >= run.pending.len() {
        None
    } else if nudges::is_due(
        run.pending[from],
        last_of(run.times, run.pending[from]),
        run.options,
        now,
    ) {
        Some(from)
    } else {
        next_due(run, from + 1, now)
    }
}

/// The age of a request, as a span.
pub open spec fn age_of(request: PendingView, now: DateTimeUtc) -> Duration {
    Duration { nanos: (clock::age(now, request.requested_at)->0) as u128 }
}

/// The whole seconds of a span, as far as 64 bits hold them.
pub open spec fn whole_secs(age: Duration) -> u64 {
    if age.nanos / 1_000_000_000 <= u64::MAX {
        (age.nanos / 1_000_000_000) as u64
    } else {
        u64::MAX
    }
}

/// What is needed for the next request whose reminder is due.
pub open spec fn turned(run: NudgeRunView, from: int, now: DateTimeUtc) -> (
    NudgeRunView,
    NudgeEffectView,
) {
    match next_due(run, from, now) {
        Some(at) => (
            NudgeRunView {
                phase: NudgePhase::Looking { at: at as usize, age: age_of(run.pending[at], now) },
                ..run
            },
            NudgeEffectView::FindAdapter { adapter_id: run.pending[at].payload.adapter_id->0 },
        ),
        None => (NudgeRunView { phase: NudgePhase::Finished, ..run }, NudgeEffectView::Finish),
    }
}

/// Whether an event answers what a phase is waiting for.
pub open spec fn answers(phase: NudgePhase, event: NudgeEventView) -> bool {
    match phase {
        NudgePhase::Scanning => event is Scanned,
        NudgePhase::Looking { .. } => event is Found,
        NudgePhase::Sending { .. } => event is Sent,
        NudgePhase::Recording { .. } => event is Recorded,
        NudgePhase::Finished => false,
    }
}

/// Whether what a run carries hangs together: its requests can be counted, and
/// the one it is at is there.
pub open spec fn is_consistent(run: NudgeRunView) -> bool {
    &&& run.pending.len() <= usize::MAX
    &&& match run.phase {
        NudgePhase::Looking { at, .. }
        | NudgePhase::Sending { at, .. }
        | NudgePhase::Recording { at, .. } => at < run.pending.len(),
        _ => true,
    }
}

/// What the reminders do with an event: a reminder goes out only through an
/// adapter that is there and enabled, and counts once it is recorded.
pub open spec fn next_nudge(run: NudgeRunView, event: NudgeEventView, now: DateTimeUtc) -> (
    NudgeRunView,
    NudgeEffectView,
) {
    match (run.phase, event) {
        (NudgePhase::Scanning, NudgeEventView::Scanned { times }) => turned(
            NudgeRunView { times, ..run },
            0,
            now,
        ),
        (NudgePhase::Looking { at, age }, NudgeEventView::Found { enabled: Some(true) }) => (
            NudgeRunView { phase: NudgePhase::Sending { at, age }, ..run },
            NudgeEffectView::Send {
                text: nudges::reminder(run.pending[at as int].payload.prompt),
                target: run.pending[at as int].payload.target,
            },
        ),
        (NudgePhase::Looking { at, age }, _) => turned(run, at + 1, now),
        (NudgePhase::Sending { at, age }, _) => (
            NudgeRunView { phase: NudgePhase::Recording { at, age }, ..run },
            NudgeEffectView::Record { request_id: run.pending[at as int].payload.request_id },
        ),
        (NudgePhase::Recording { at, age }, _) => turned(
            NudgeRunView {
                nudges: run.nudges.push(
                    NudgeView {
                        agent_slug: run.agent_slug,
                        conversation_slug: run.conversation_slug,
                        request_id: run.pending[at as int].payload.request_id,
                        age_seconds: whole_secs(age),
                    },
                ),
                ..run
            },
            at + 1,
            now,
        ),
        _ => (run, NudgeEffectView::Finish),
    }
}

/// Whether any request was relayed to a channel.
pub open spec fn any_relayed(pending: Seq<PendingView>) -> bool {
    exists|i: int| 0 <= i < pending.len() && (#[trigger] pending[i]).payload.adapter_id is Some
}

/// The first step of the reminders of a conversation with these requests.
pub open spec fn first_step(
    agent_slug: Seq<char>,
    conversation_slug: Seq<char>,
    options: AttentionOptions,
    pending: Seq<PendingView>,
) -> (NudgeRunView, NudgeEffectView) {
    let scans = any_relayed(pending);
    (
        NudgeRunView {
            agent_slug,
            conversation_slug,
            options,
            pending,
            times: Map::empty(),
            phase: if scans {
                NudgePhase::Scanning
            } else {
                NudgePhase::Finished
            },
            nudges: Seq::empty(),
        },
        if scans {
            NudgeEffectView::ScanNudges
        } else {
            NudgeEffectView::Finish
        },
    )
}

impl NudgeRun {
    /// Starts the reminders of a conversation with these pending requests, and
    /// says what is needed first. Where none was relayed there is no channel to
    /// remind, and nothing is read.
    pub fn start(
        agent_slug: String,
        conversation_slug: String,
        options: AttentionOptions,
        pending: Vec<PendingInputRequest>,
    ) -> (started: (Self, NudgeEffect))
        ensures
            ({
                let scans = any_relayed(crate::input_requests::pending_views(pending@));
                &&& started.0@ == (NudgeRunView {
                    agent_slug: agent_slug@,
                    conversation_slug: conversation_slug@,
                    options,
                    pending: crate::input_requests::pending_views(pending@),
                    times: Map::empty(),
                    phase: if scans {
                        NudgePhase::Scanning
                    } else {
                        NudgePhase::Finished
                    },
                    nudges: Seq::empty(),
                })
                &&& started.1@ == if scans {
                    NudgeEffectView::ScanNudges
                } else {
                    NudgeEffectView::Finish
                }
                &&& is_consistent(started.0@)
            }),
            (started.0@, started.1@) == first_step(
                agent_slug@,
                conversation_slug@,
                options,
                crate::input_requests::pending_views(pending@),
            ),
    {
        let ghost views = crate::input_requests::pending_views(pending@);
        let mut relayed = false;
        let mut i: usize = 0;
        while i < pending.len()
            invariant
                i <= pending.len(),
                views == crate::input_requests::pending_views(pending@),
                relayed == exists|j: int|
                    0 <= j < i && (#[trigger] views[j]).payload.adapter_id is Some,
            decreases pending.len() - i,
        {
            assert(views[i as int] == pending@[i as int]@);
            if pending[i].payload.adapter_id.is_some() {
                relayed = true;
            }
            i += 1;
        }
        let phase = if relayed {
            NudgePhase::Scanning
        } else {
            NudgePhase::Finished
        };
        let run = NudgeRun {
            agent_slug,
            conversation_slug,
            options,
            pending,
            times: NudgeScan::new(),
            phase,
            nudges: Vec::new(),
        };
        assert(run@.nudges =~= Seq::empty());
        let effect = if relayed {
            NudgeEffect::ScanNudges
        } else {
            NudgeEffect::Finish
        };
        (run, effect)
    }

    /// Takes what came of the last operation, at a time, and says what is next.
    pub fn advance(&mut self, event: NudgeEvent, now: DateTimeUtc) -> (effect: NudgeEffect)
        requires
            answers(old(self)@.phase, event@),
            is_consistent(old(self)@),
        ensures
            is_consistent(final(self)@),
            (final(self)@, effect@) == next_nudge(old(self)@, event@, now),
    {
        assert(self@.pending.len() == self.pending.len());
        match event {
            NudgeEvent::Scanned { times } => {
                self.times = times;
                self.turn(0, now)
            },
            NudgeEvent::Found { enabled } => {
                if let NudgePhase::Looking { at, age } = self.phase {
                    if let Some(true) = enabled {
                        self.phase = NudgePhase::Sending { at, age };
                        return NudgeEffect::Send {
                            text: nudges::nudge_text(&self.pending[at]),
                            target: text::opt_copy(&self.pending[at].payload.target),
                        };
                    }
                    return self.turn(at + 1, now);
                }
                NudgeEffect::Finish
            },
            NudgeEvent::Sent => {
                if let NudgePhase::Sending { at, age } = self.phase {
                    self.phase = NudgePhase::Recording { at, age };
                    return NudgeEffect::Record {
                        request_id: self.pending[at].payload.request_id.clone(),
                    };
                }
                NudgeEffect::Finish
            },
            NudgeEvent::Recorded => {
                if let NudgePhase::Recording { at, age } = self.phase {
                    let nudge = InputRequestNudge {
                        agent_slug: self.agent_slug.clone(),
                        conversation_slug: self.conversation_slug.clone(),
                        request_id: self.pending[at].payload.request_id.clone(),
                        age_seconds: age.as_secs(),
                    };
                    let ghost before = self.nudges@;
                    let ghost view = nudge@;
                    self.nudges.push(nudge);
                    assert(nudges::nudge_views(self.nudges@) =~= nudges::nudge_views(before).push(
                        view,
                    ));
                    return self.turn(at + 1, now);
                }
                NudgeEffect::Finish
            },
        }
    }

    /// Turns to the next request whose reminder is due.
    fn turn(&mut self, from: usize, now: DateTimeUtc) -> (effect: NudgeEffect)
        ensures
            is_consistent(final(self)@),
            (final(self)@, effect@) == turned(old(self)@, from as int, now),
    {
        let mut at: usize = from;
        while at < self.pending.len()
            invariant
                *self == *old(self),
                next_due(self@, from as int, now) == next_due(self@, at as int, now),
            decreases self.pending.len() - at,
        {
            let request = &self.pending[at];
            let last = self.times.last_nudge(request.payload.request_id.as_str());
            assert(self@.pending[at as int] == request@);
            if let Some(age) = nudges::nudge_due(request, last, &self.options, now) {
                let adapter_id = match &request.payload.adapter_id {
                    Some(adapter_id) => adapter_id.clone(),
                    None => String::new(),
                };
                self.phase = NudgePhase::Looking { at, age };
                return NudgeEffect::FindAdapter { adapter_id };
            }
            at += 1;
        }
        self.phase = NudgePhase::Finished;
        NudgeEffect::Finish
    }

    /// The reminders that went out and were recorded.
    pub fn finish(self) -> (nudges: Vec<InputRequestNudge>)
        ensures
            nudges::nudge_views(nudges@) == self@.nudges,
    {
        self.nudges
    }
}

/// A reminder is asked for only where it is due: the request was relayed, is
/// aged, and was not reminded of within the interval.
pub proof fn only_due_requests_are_looked_at(run: NudgeRunView, from: int, now: DateTimeUtc)
    requires
        0 <= from,
        next_due(run, from, now) is Some,
    ensures
        ({
            let at = next_due(run, from, now)->0;
            &&& from <= at < run.pending.len()
            &&& nudges::is_due(run.pending[at], last_of(run.times, run.pending[at]), run.options, now)
            &&& forall|k: int|
                from <= k < at ==> !nudges::is_due(
                    #[trigger] run.pending[k],
                    last_of(run.times, run.pending[k]),
                    run.options,
                    now,
                )
        }),
    decreases run.pending.len() - from,
{
    if !nudges::is_due(
        run.pending[from],
        last_of(run.times, run.pending[from]),
        run.options,
        now,
    ) {
        only_due_requests_are_looked_at(run, from + 1, now);
    }
}

/// A request that is passed over is not due.
pub proof fn every_due_request_is_looked_at(run: NudgeRunView, from: int, now: DateTimeUtc, k: int)
    requires
        0 <= from <= k < run.pending.len(),
        next_due(run, from, now) is None,
    ensures
        !nudges::is_due(run.pending[k], last_of(run.times, run.pending[k]), run.options, now),
    decreases k - from,
{
    if from < k {
        every_due_request_is_looked_at(run, from + 1, now, k);
    }
}

} // verus!
