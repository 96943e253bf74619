//! What holds of a conversation's reminders, told by the requests themselves.

use vstd::prelude::*;

use crate::clock::{self, DateTimeUtc};
use crate::input_requests::{ConversationEvent, EventData, PendingView};
use crate::json::{self, Json};
use crate::nudge_run::{self, NudgeEffect, NudgeEffectView, NudgeEventView, NudgePhase, NudgeRunView};
use crate::nudges::{self, AttentionOptions, InputRequestNudge, NudgeView};
use crate::payload_laws;

verus! {

/// The requests of a conversation, and when reminders of them are due.
pub struct Conversation {
    pub agent_slug: Seq<char>,
    pub conversation_slug: Seq<char>,
    pub options: AttentionOptions,
    pub pending: Seq<PendingView>,
}

/// What the reminders are told, and when.
pub struct Told {
    pub event: NudgeEventView,
    pub now: DateTimeUtc,
}

/// Where the reminders of a conversation stand after what they were told, and
/// what they ask for.
pub open spec fn after_events(conversation: Conversation, told: Seq<Told>) -> (
    NudgeRunView,
    NudgeEffectView,
)
    decreases told.len(),
{
    if told.len() == 0 {
        nudge_run::first_step(
            conversation.agent_slug,
            conversation.conversation_slug,
            conversation.options,
            conversation.pending,
        )
    } else {
        nudge_run::next_nudge(
            after_events(conversation, told.drop_last()).0,
            told.last().event,
            told.last().now,
        )
    }
}

/// Whether everything they were told answers what they were waiting for.
pub open spec fn is_history(conversation: Conversation, told: Seq<Told>) -> bool
    decreases told.len(),
{
    told.len() == 0 || (is_history(conversation, told.drop_last()) && nudge_run::answers(
        after_events(conversation, told.drop_last()).0.phase,
        told.last().event,
    ))
}

/// When each request was last reminded of, by what the reminders were told.
pub open spec fn scanned(told: Seq<Told>) -> Map<Seq<char>, DateTimeUtc>
    decreases told.len(),
{
    if told.len() == 0 {
        Map::empty()
    } else {
        match told.last().event {
            NudgeEventView::Scanned { times } => times,
            _ => scanned(told.drop_last()),
        }
    }
}

/// Whether a reminder of a request is due: it was relayed to a channel, it has
/// waited for as long as the options say, and as long as they say has passed
/// since it was last reminded of.
pub open spec fn is_ripe(
    request: PendingView,
    times: Map<Seq<char>, DateTimeUtc>,
    options: AttentionOptions,
    now: DateTimeUtc,
) -> bool {
    &&& request.payload.adapter_id is Some
    &&& clock::age(now, request.requested_at) is Some
    &&& clock::age(now, request.requested_at)->0 >= options.nudge_after.nanos
    &&& times.contains_key(request.payload.request_id) ==> clock::age(
        now,
        times[request.payload.request_id],
    ) is Some && clock::age(now, times[request.payload.request_id])->0
        >= options.nudge_interval.nanos
}

/// A due reminder is a ripe one.
pub proof fn a_reminder_is_due_when_it_is_ripe(
    request: PendingView,
    times: Map<Seq<char>, DateTimeUtc>,
    options: AttentionOptions,
    now: DateTimeUtc,
)
    ensures
        nudges::is_due(request, nudge_run::last_of(times, request), options, now) <==> is_ripe(
            request,
            times,
            options,
            now,
        ),
{
}

/// The request that the reminders are at.
spec fn place_of(phase: NudgePhase) -> Option<int> {
    match phase {
        NudgePhase::Looking { at, .. } => Some(at as int),
        NudgePhase::Sending { at, .. } => Some(at as int),
        NudgePhase::Recording { at, .. } => Some(at as int),
        _ => None,
    }
}

/// What reminders carry along agrees with what they were told.
proof fn phases_agree_with_history(conversation: Conversation, told: Seq<Told>)
    requires
        is_history(conversation, told),
        conversation.pending.len() <= usize::MAX,
    ensures
        ({
            let (run, effect) = after_events(conversation, told);
            &&& run.agent_slug == conversation.agent_slug
            &&& run.conversation_slug == conversation.conversation_slug
            &&& run.options == conversation.options
            &&& run.pending == conversation.pending
            &&& run.times == scanned(told)
            &&& place_of(run.phase) matches Some(at) ==> 0 <= at < run.pending.len()
            &&& effect is ScanNudges <==> run.phase is Scanning
            &&& effect is FindAdapter <==> run.phase is Looking
            &&& effect is Send <==> run.phase is Sending
            &&& effect is Record <==> run.phase is Recording
            &&& effect is Finish <==> run.phase is Finished
            &&& run.phase is Scanning <==> told.len() == 0 && nudge_run::any_relayed(run.pending)
            &&& run.phase matches NudgePhase::Looking { at, age } ==> told.len() > 0 && effect == (
            NudgeEffectView::FindAdapter {
                adapter_id: run.pending[at as int].payload.adapter_id->0,
            }) && is_ripe(run.pending[at as int], run.times, run.options, told.last().now)
                && clock::age(told.last().now, run.pending[at as int].requested_at) == Some(
                age.nanos as int,
            )
            &&& run.phase matches NudgePhase::Sending { at, age } ==> told.len() > 1 && after_events(
                conversation,
                told.drop_last(),
            ).0.phase == (NudgePhase::Looking { at, age }) && told.last().event == (
            NudgeEventView::Found { enabled: Some(true) })
            &&& run.phase matches NudgePhase::Recording { at, age } ==> told.len() > 2
                && after_events(conversation, told.drop_last()).0.phase == (NudgePhase::Sending {
                at,
                age,
            }) && told.last().event is Sent
        }),
    decreases told.len(),
{
    if told.len() > 0 {
        let before = told.drop_last();
        phases_agree_with_history(conversation, before);
        let run = after_events(conversation, before).0;
        let now = told.last().now;
        match (run.phase, told.last().event) {
            (NudgePhase::Scanning, NudgeEventView::Scanned { times }) => {
                a_turn_finds_what_is_due(NudgeRunView { times, ..run }, 0, now);
            },
            (NudgePhase::Looking { at, .. }, _) => {
                a_turn_finds_what_is_due(run, at + 1, now);
            },
            (NudgePhase::Recording { at, age }, _) => {
                a_turn_finds_what_is_due(counted(run, at as int, age.nanos), at + 1, now);
            },
            _ => {},
        }
    }
}

/// A run with one more reminder counted.
spec fn counted(run: NudgeRunView, at: int, age: u128) -> NudgeRunView {
    NudgeRunView {
        nudges: run.nudges.push(
            NudgeView {
                agent_slug: run.agent_slug,
                conversation_slug: run.conversation_slug,
                request_id: run.pending[at].payload.request_id,
                age_seconds: nudge_run::whole_secs(clock::Duration { nanos: age }),
            },
        ),
        ..run
    }
}

/// An age fits a span.
proof fn an_age_fits(now: DateTimeUtc, at: DateTimeUtc)
    ensures
        clock::age(now, at) matches Some(elapsed) ==> 0 <= elapsed <= u128::MAX,
{
    assert(-0x8000_0000_0000_0000 <= now.secs() <= 0x7fff_ffff_ffff_ffff);
    assert(-0x8000_0000_0000_0000 <= at.secs() <= 0x7fff_ffff_ffff_ffff);
}

/// What turning to the next request finds.
proof fn a_turn_finds_what_is_due(run: NudgeRunView, from: int, now: DateTimeUtc)
    requires
        0 <= from,
        run.pending.len() <= usize::MAX,
    ensures
        ({
            let (turned, effect) = nudge_run::turned(run, from, now);
            &&& turned == (NudgeRunView { phase: turned.phase, ..run })
            &&& turned.phase is Looking || turned.phase is Finished
            &&& turned.phase matches NudgePhase::Looking { at, age } ==> from <= at
                < run.pending.len() && is_ripe(
                run.pending[at as int],
                run.times,
                run.options,
                now,
            ) && clock::age(now, run.pending[at as int].requested_at) == Some(age.nanos as int)
                && effect == (NudgeEffectView::FindAdapter {
                adapter_id: run.pending[at as int].payload.adapter_id->0,
            }) && forall|k: int|
                from <= k < at ==> !is_ripe(
                    #[trigger] run.pending[k],
                    run.times,
                    run.options,
                    now,
                )
            &&& turned.phase is Finished ==> effect is Finish && forall|k: int|
                from <= k < run.pending.len() ==> !is_ripe(
                    #[trigger] run.pending[k],
                    run.times,
                    run.options,
                    now,
                )
        }),
{
    assert forall|k: int| 0 <= k < run.pending.len() implies is_ripe(
        #[trigger] run.pending[k],
        run.times,
        run.options,
        now,
    ) == nudges::is_due(
        run.pending[k],
        nudge_run::last_of(run.times, run.pending[k]),
        run.options,
        now,
    ) by {
        a_reminder_is_due_when_it_is_ripe(run.pending[k], run.times, run.options, now);
    }
    match nudge_run::next_due(run, from, now) {
        Some(at) => {
            nudge_run::only_due_requests_are_looked_at(run, from, now);
            an_age_fits(now, run.pending[at].requested_at);
        },
        None => {
            assert forall|k: int| from <= k < run.pending.len() implies !is_ripe(
                #[trigger] run.pending[k],
                run.times,
                run.options,
                now,
            ) by {
                nudge_run::every_due_request_is_looked_at(run, from, now, k);
            }
        },
    }
}

/// The reminders of a conversation start with a scan for earlier ones, unless
/// nothing was relayed to a channel: then there is nobody to remind.
pub proof fn reminders_start_where_something_was_relayed(conversation: Conversation)
    ensures
        ({
            let effect = after_events(conversation, Seq::empty()).1;
            if exists|i: int|
                0 <= i < conversation.pending.len() && (
                #[trigger] conversation.pending[i]).payload.adapter_id is Some {
                effect is ScanNudges
            } else {
                effect is Finish
            }
        }),
{
}

/// Whether a reminder that is sent is of a request: it ends with the request's
/// prompt, goes to its target, and follows the lookup of its adapter, which is
/// there and enabled, at a time when the reminder was due.
pub open spec fn is_sent_for(
    conversation: Conversation,
    told: Seq<Told>,
    request: PendingView,
    text: Seq<char>,
    target: Option<Seq<char>>,
) -> bool {
    let prompt = request.payload.prompt;
    &&& text.len() >= prompt.len()
    &&& text.skip(text.len() - prompt.len()) == prompt
    &&& target == request.payload.target
    &&& told.len() >= 2
    &&& told.last().event == (NudgeEventView::Found { enabled: Some(true) })
    &&& request.payload.adapter_id matches Some(adapter_id) && after_events(
        conversation,
        told.drop_last(),
    ).1 == (NudgeEffectView::FindAdapter { adapter_id })
    &&& is_ripe(
        request,
        scanned(told),
        conversation.options,
        told[told.len() - 2].now,
    )
}

/// Whether a reminder counts as one of a request: in its conversation, under its
/// id, with its age in whole seconds.
pub open spec fn counts_for(
    conversation: Conversation,
    request: PendingView,
    now: DateTimeUtc,
    nudge: NudgeView,
) -> bool {
    &&& nudge.agent_slug == conversation.agent_slug
    &&& nudge.conversation_slug == conversation.conversation_slug
    &&& nudge.request_id == request.payload.request_id
    &&& clock::age(now, request.requested_at) matches Some(age) && (age / 1_000_000_000 <= u64::MAX
        ==> nudge.age_seconds == age / 1_000_000_000)
}

/// One request at a time: a reminder that is sent is of the very request that is
/// then recorded as reminded of, and that counts once the record is made.
pub proof fn a_reminder_is_of_one_request(
    conversation: Conversation,
    told: Seq<Told>,
    text: Seq<char>,
    target: Option<Seq<char>>,
    sent: DateTimeUtc,
    recorded: DateTimeUtc,
)
    requires
        conversation.pending.len() <= usize::MAX,
        is_history(conversation, told),
        after_events(conversation, told).1 == (NudgeEffectView::Send { text, target }),
    ensures
        ({
            let second = told.push(Told { event: NudgeEventView::Sent, now: sent });
            let third = second.push(Told { event: NudgeEventView::Recorded, now: recorded });
            let nudges = after_events(conversation, third).0.nudges;
            exists|i: int|
                0 <= i < conversation.pending.len() && is_sent_for(
                    conversation,
                    told,
                    #[trigger] conversation.pending[i],
                    text,
                    target,
                ) && after_events(conversation, second).1 == (NudgeEffectView::Record {
                    request_id: conversation.pending[i].payload.request_id,
                }) && nudges.len() == after_events(conversation, told).0.nudges.len() + 1
                    && nudges.drop_last() == after_events(conversation, told).0.nudges
                    && counts_for(
                    conversation,
                    conversation.pending[i],
                    told[told.len() - 2].now,
                    nudges.last(),
                )
        }),
{
    let second = told.push(Told { event: NudgeEventView::Sent, now: sent });
    let third = second.push(Told { event: NudgeEventView::Recorded, now: recorded });
    phases_agree_with_history(conversation, told);
    phases_agree_with_history(conversation, told.drop_last());
    assert(second.drop_last() =~= told);
    assert(third.drop_last() =~= second);
    let run = after_events(conversation, told).0;
    let looking = after_events(conversation, told.drop_last()).0;
    let at = place_of(run.phase)->0;
    let request = conversation.pending[at];
    assert(told.drop_last().last() == told[told.len() - 2]);
    let prompt = request.payload.prompt;
    assert(text == nudges::reminder(prompt));
    assert(text.skip(text.len() - prompt.len()) =~= prompt);
    assert(is_sent_for(conversation, told, request, text, target));
    let recording = after_events(conversation, second).0;
    let ended = after_events(conversation, third).0;
    if let NudgePhase::Recording { at, age } = recording.phase {
        a_turn_finds_what_is_due(
            counted(recording, at as int, age.nanos),
            at + 1,
            recorded,
        );
        assert(age == clock::Duration { nanos: age.nanos });
        assert(ended.nudges == counted(recording, at as int, age.nanos).nudges);
        assert(ended.nudges.drop_last() =~= run.nudges);
    }
}

/// A reminder is looked for only where one is due, and requests are taken in
/// order: those that are passed over are not due.
pub proof fn only_ripe_requests_are_reminded_of(
    conversation: Conversation,
    told: Seq<Told>,
    adapter_id: Seq<char>,
)
    requires
        conversation.pending.len() <= usize::MAX,
        is_history(conversation, told),
        after_events(conversation, told).1 == (NudgeEffectView::FindAdapter { adapter_id }),
    ensures
        told.len() > 0,
        exists|i: int|
            0 <= i < conversation.pending.len() && (
            #[trigger] conversation.pending[i]).payload.adapter_id == Some(adapter_id) && is_ripe(
                conversation.pending[i],
                scanned(told),
                conversation.options,
                told.last().now,
            ),
{
    phases_agree_with_history(conversation, told);
    let at = place_of(after_events(conversation, told).0.phase)->0;
    assert(conversation.pending[at].payload.adapter_id == Some(adapter_id));
}

/// Whether a request was turned to at some point.
pub open spec fn was_looked_at(conversation: Conversation, told: Seq<Told>, i: int) -> bool {
    exists|n: int|
        0 <= n <= told.len() && is_at(
            after_events(conversation, #[trigger] told.take(n)).0.phase,
            i,
        )
}

/// Whether the reminders look up the adapter of a request.
pub open spec fn is_at(phase: NudgePhase, i: int) -> bool {
    phase matches NudgePhase::Looking { at, .. } && at == i
}

/// Whether a reminder of a request was not due at some point.
pub open spec fn was_unripe(conversation: Conversation, told: Seq<Told>, i: int) -> bool {
    exists|n: int|
        0 <= n < told.len() && !is_ripe(
            conversation.pending[i],
            scanned(told),
            conversation.options,
            (#[trigger] told[n]).now,
        )
}

/// What the reminders are done with.
proof fn requests_behind_are_done(conversation: Conversation, told: Seq<Told>, i: int)
    requires
        conversation.pending.len() <= usize::MAX,
        is_history(conversation, told),
        told.len() > 0,
        0 <= i < conversation.pending.len(),
        ({
            let phase = after_events(conversation, told).0.phase;
            phase is Finished || (place_of(phase) matches Some(at) && i <= at)
        }),
    ensures
        was_looked_at(conversation, told, i) || was_unripe(conversation, told, i),
    decreases told.len(),
{
    let before = told.drop_last();
    let run = after_events(conversation, before).0;
    let phase = after_events(conversation, told).0.phase;
    let now = told.last().now;
    let last = told.len() - 1;
    phases_agree_with_history(conversation, before);
    phases_agree_with_history(conversation, told);
    assert(told.take(told.len() as int) =~= told);
    assert(told[last].now == now);
    if is_at(phase, i) {
        assert(was_looked_at(conversation, told, i));
    } else {
        let from: int = match run.phase {
            NudgePhase::Looking { at, .. } => at + 1,
            NudgePhase::Recording { at, .. } => at + 1,
            _ => 0,
        };
        match (run.phase, told.last().event) {
            (NudgePhase::Scanning, NudgeEventView::Scanned { times }) => {
                a_turn_finds_what_is_due(NudgeRunView { times, ..run }, 0, now);
                assert(!is_ripe(
                    conversation.pending[i],
                    scanned(told),
                    conversation.options,
                    told[last].now,
                ));
            },
            _ => {
                if before.len() > 0 && place_of(run.phase) is Some && i <= place_of(run.phase)->0 {
                    requests_behind_are_done(conversation, before, i);
                    if was_looked_at(conversation, before, i) {
                        let n = choose|n: int|
                            0 <= n <= before.len() && is_at(
                                after_events(conversation, #[trigger] before.take(n)).0.phase,
                                i,
                            );
                        assert(told.take(n) =~= before.take(n));
                    } else {
                        let n = choose|n: int|
                            0 <= n < before.len() && !is_ripe(
                                conversation.pending[i],
                                scanned(before),
                                conversation.options,
                                (#[trigger] before[n]).now,
                            );
                        assert(told[n] == before[n]);
                        assert(scanned(told) == scanned(before));
                    }
                } else {
                    assert(scanned(told) == scanned(before));
                    match run.phase {
                        NudgePhase::Looking { at, .. } => {
                            a_turn_finds_what_is_due(run, at + 1, now);
                        },
                        NudgePhase::Recording { at, age } => {
                            a_turn_finds_what_is_due(
                                counted(run, at as int, age.nanos),
                                at + 1,
                                now,
                            );
                            assert(age == clock::Duration { nanos: age.nanos });
                        },
                        _ => {},
                    }
                    assert(!is_ripe(
                        conversation.pending[i],
                        scanned(told),
                        conversation.options,
                        told[last].now,
                    ));
                }
            },
        }
    }
}

/// Nobody is forgotten: once the reminders are over, each request was turned to,
/// or its reminder was not due.
pub proof fn every_ripe_request_is_looked_at(conversation: Conversation, told: Seq<Told>, i: int)
    requires
        conversation.pending.len() <= usize::MAX,
        is_history(conversation, told),
        told.len() > 0,
        after_events(conversation, told).1 is Finish,
        0 <= i < conversation.pending.len(),
    ensures
        was_looked_at(conversation, told, i) || was_unripe(conversation, told, i),
{
    phases_agree_with_history(conversation, told);
    requests_behind_are_done(conversation, told, i);
}

/// Whether some reminders are of different requests, in order: `from` gives the
/// request of each.
pub open spec fn are_of(
    pending: Seq<PendingView>,
    nudges: Seq<NudgeView>,
    from: Seq<int>,
) -> bool {
    &&& from.len() == nudges.len()
    &&& forall|k: int|
        0 <= k < from.len() ==> 0 <= (#[trigger] from[k]) < pending.len() && nudges[k].request_id
            == pending[from[k]].payload.request_id
    &&& forall|j: int, k: int|
        0 <= j < k < from.len() ==> (#[trigger] from[j]) < (#[trigger] from[k])
}

/// Which requests the reminders are of.
proof fn reminded_positions(conversation: Conversation, told: Seq<Told>) -> (from: Seq<int>)
    requires
        conversation.pending.len() <= usize::MAX,
        is_history(conversation, told),
    ensures
        are_of(conversation.pending, after_events(conversation, told).0.nudges, from),
        place_of(after_events(conversation, told).0.phase) matches Some(at) ==> forall|k: int|
            0 <= k < from.len() ==> (#[trigger] from[k]) < at,
        after_events(conversation, told).0.phase is Scanning ==> from.len() == 0,
    decreases told.len(),
{
    if told.len() == 0 {
        Seq::empty()
    } else {
        let before = told.drop_last();
        let from = reminded_positions(conversation, before);
        phases_agree_with_history(conversation, before);
        let run = after_events(conversation, before).0;
        let now = told.last().now;
        match (run.phase, told.last().event) {
            (NudgePhase::Scanning, NudgeEventView::Scanned { times }) => {
                a_turn_finds_what_is_due(NudgeRunView { times, ..run }, 0, now);
                from
            },
            (NudgePhase::Looking { at, .. }, _) => {
                a_turn_finds_what_is_due(run, at + 1, now);
                from
            },
            (NudgePhase::Recording { at, age }, _) => {
                let one_more = counted(run, at as int, age.nanos);
                a_turn_finds_what_is_due(one_more, at + 1, now);
                assert(age == clock::Duration { nanos: age.nanos });
                let longer = from.push(at as int);
                let nudges = after_events(conversation, told).0.nudges;
                assert(nudges == one_more.nudges);
                assert forall|k: int| 0 <= k < longer.len() implies 0 <= (#[trigger] longer[k])
                    < conversation.pending.len() && nudges[k].request_id
                    == conversation.pending[longer[k]].payload.request_id by {
                    if k < from.len() {
                        assert(longer[k] == from[k]);
                    }
                }
                assert forall|j: int, k: int| 0 <= j < k < longer.len() implies (
                #[trigger] longer[j]) < (#[trigger] longer[k]) by {
                    assert(longer[j] == from[j]);
                    if k < from.len() {
                        assert(longer[k] == from[k]);
                    }
                }
                longer
            },
            _ => from,
        }
    }
}

/// A request is reminded of at most once: the reminders that count are of
/// different requests, in the order of the pending set.
pub proof fn a_request_is_reminded_of_once(conversation: Conversation, told: Seq<Told>)
    requires
        conversation.pending.len() <= usize::MAX,
        is_history(conversation, told),
    ensures
        exists|from: Seq<int>| #[trigger]
            are_of(conversation.pending, after_events(conversation, told).0.nudges, from),
{
    let from = reminded_positions(conversation, told);
    assert(are_of(conversation.pending, after_events(conversation, told).0.nudges, from));
}

/// An adapter that is gone or disabled is not written to: the reminders turn to
/// a later request.
pub proof fn a_disabled_adapter_is_not_written_to(
    conversation: Conversation,
    told: Seq<Told>,
    enabled: Option<bool>,
    now: DateTimeUtc,
)
    requires
        conversation.pending.len() <= usize::MAX,
        is_history(conversation, told),
        after_events(conversation, told).1 is FindAdapter,
        enabled != Some(true),
    ensures
        ({
            let effect = after_events(
                conversation,
                told.push(Told { event: NudgeEventView::Found { enabled }, now }),
            ).1;
            effect is FindAdapter || effect is Finish
        }),
{
    let next = told.push(Told { event: NudgeEventView::Found { enabled }, now });
    phases_agree_with_history(conversation, told);
    assert(next.drop_last() =~= told);
    let run = after_events(conversation, told).0;
    if let NudgePhase::Looking { at, .. } = run.phase {
        a_turn_finds_what_is_due(run, at + 1, now);
    }
}

/// A reminder shows what is in its fields.
pub proof fn a_reminder_shows_its_fields(nudge: InputRequestNudge)
    ensures
        nudge@.agent_slug == nudge.agent_slug@,
        nudge@.conversation_slug == nudge.conversation_slug@,
        nudge@.request_id == nudge.request_id@,
        nudge@.age_seconds == nudge.age_seconds,
{
}

/// What reminding asks for is what its effect carries.
pub proof fn reminding_asks_for_what_it_shows(effect: NudgeEffect)
    ensures
        match effect {
            NudgeEffect::ScanNudges => effect@ is ScanNudges,
            NudgeEffect::FindAdapter { adapter_id } => effect@ == (NudgeEffectView::FindAdapter {
                adapter_id: adapter_id@,
            }),
            NudgeEffect::Send { text, target: Some(place) } => effect@ == (NudgeEffectView::Send {
                text: text@,
                target: Some(place@),
            }),
            NudgeEffect::Send { text, target: None } => effect@ == (NudgeEffectView::Send {
                text: text@,
                target: None,
            }),
            NudgeEffect::Record { request_id } => effect@ == (NudgeEffectView::Record {
                request_id: request_id@,
            }),
            NudgeEffect::Finish => effect@ is Finish,
        },
{
}

/// Whether a bookkeeping event says that a request was reminded of.
pub open spec fn notes(event: ConversationEvent, request_id: Seq<char>) -> bool {
    event.data matches EventData::Custom { payload, .. } && payload_laws::is_record(
        json::json(payload),
        1,
    ) && payload_laws::holds(json::json(payload), "request_id"@, 0, Json::Text(request_id))
}

/// Whether `events[i]` is the last that notes a reminder of a request.
pub open spec fn is_latest_note(
    events: Seq<ConversationEvent>,
    request_id: Seq<char>,
    i: int,
) -> bool {
    &&& 0 <= i < events.len()
    &&& notes(events[i], request_id)
    &&& forall|j: int| i < j < events.len() ==> !notes(#[trigger] events[j], request_id)
}

/// One more event tells of a reminder if and only if it notes one.
proof fn one_event_more(
    before: Map<Seq<char>, DateTimeUtc>,
    event: ConversationEvent,
    request_id: Seq<char>,
)
    ensures
        ({
            let times = nudges::after_nudge(before, event);
            if notes(event, request_id) {
                times.contains_key(request_id) && times[request_id] == event.created_at
            } else {
                &&& times.contains_key(request_id) == before.contains_key(request_id)
                &&& times[request_id] == before[request_id]
            }
        }),
{
}

/// The latest note of a request counts: a scan knows of a reminder exactly where
/// an event notes one, and takes its time from the last that does.
pub proof fn the_latest_note_counts(events: Seq<ConversationEvent>, request_id: Seq<char>)
    ensures
        nudges::after_nudges(Map::empty(), events).contains_key(request_id) <==> exists|i: int|
            is_latest_note(events, request_id, i),
        forall|i: int| #[trigger]
            is_latest_note(events, request_id, i) ==> nudges::after_nudges(
                Map::empty(),
                events,
            )[request_id] == events[i].created_at,
        forall|i: int|
            0 <= i < events.len() && notes(#[trigger] events[i], request_id)
                ==> nudges::after_nudges(Map::empty(), events).contains_key(request_id),
    decreases events.len(),
{
    let times = nudges::after_nudges(Map::empty(), events);
    if events.len() > 0 {
        let rest = events.drop_last();
        let last = events.last();
        let before = nudges::after_nudges(Map::empty(), rest);
        the_latest_note_counts(rest, request_id);
        one_event_more(before, last, request_id);
        assert(times == nudges::after_nudge(before, last));
        if notes(last, request_id) {
            assert(is_latest_note(events, request_id, events.len() - 1));
        } else {
            if before.contains_key(request_id) {
                let i = choose|i: int| is_latest_note(rest, request_id, i);
                assert(is_latest_note(events, request_id, i)) by {
                    assert forall|j: int| i < j < events.len() implies !notes(
                        #[trigger] events[j],
                        request_id,
                    ) by {
                        if j < rest.len() {
                            assert(rest[j] == events[j]);
                        }
                    }
                }
            }
        }
        assert forall|i: int| #[trigger] is_latest_note(events, request_id, i) implies
            times.contains_key(request_id) && times[request_id] == events[i].created_at by {
            if i < rest.len() {
                assert(!notes(events[events.len() - 1], request_id));
                assert forall|j: int| i < j < rest.len() implies !notes(
                    #[trigger] rest[j],
                    request_id,
                ) by {
                    assert(rest[j] == events[j]);
                }
                assert(is_latest_note(rest, request_id, i));
            }
        }
        assert forall|i: int|
            0 <= i < events.len() && notes(
                #[trigger] events[i],
                request_id,
            ) implies times.contains_key(request_id) by {
            if i < rest.len() {
                assert(rest[i] == events[i]);
            }
        }
    }
}

/// The contents of a run of reminders are theirs, one for one and in order.
pub proof fn reminder_contents_are_those_of_the_reminders(reminders: Seq<InputRequestNudge>)
    ensures
        nudges::nudge_views(reminders).len() == reminders.len(),
        forall|i: int|
            0 <= i < reminders.len() ==> #[trigger] nudges::nudge_views(reminders)[i]
                == reminders[i]@,
{
}

/// A request is aged once it has waited for so long, and not before; one that
/// lies ahead of the clock is not.
pub proof fn requests_age(request: PendingView, aged_after: clock::Duration, now: DateTimeUtc)
    ensures
        nudges::is_aged(request, aged_after, now) <==> (match clock::age(
            now,
            request.requested_at,
        ) {
            Some(waited) => waited >= aged_after.nanos,
            None => false,
        }),
{
}

} // verus!
