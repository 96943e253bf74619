//! What an adapter runner does: which workers it starts, how long it waits, and
//! whom it tells that it is back.

use vstd::prelude::*;

use super::reboot::{self, RebootNotice};
use super::secrets::{self, SecretRecord};
use super::supervisor::{self, SuperviseEffect, SuperviseEvent, SupervisePhase};
use super::types::AdapterRecord;
use crate::clock::Duration;
use crate::filters;
use crate::pairs::{self, KeyView};
use crate::text;

verus! {

/// Whether an id is not running, and stands nowhere before its place.
pub open spec fn is_to_start(ids: Seq<Seq<char>>, running: Seq<Seq<char>>, i: int) -> bool {
    &&& !running.contains(ids[i])
    &&& forall|j: int| 0 <= j < i ==> (#[trigger] ids[j]) != ids[i]
}

/// The adapters to start are exactly those that are not running, each where it
/// first occurs, in order.
pub proof fn what_is_not_running_is_started(ids: Seq<Seq<char>>, running: Seq<Seq<char>>)
    ensures
        filters::picks(
            supervisor::not_running(ids, running),
            ids.len() as int,
            |i: int| is_to_start(ids, running, i),
        ),
    decreases ids.len(),
{
    let chosen = |i: int| is_to_start(ids, running, i);
    let from = supervisor::not_running(ids, running);
    if ids.len() > 0 {
        let rest = ids.drop_last();
        let n = rest.len() as int;
        let before = supervisor::not_running(rest, running);
        let earlier = |i: int| is_to_start(rest, running, i);
        what_is_not_running_is_started(rest, running);
        assert forall|i: int| 0 <= i < n implies #[trigger] earlier(i) == chosen(i) by {
            assert(rest[i] == ids[i]);
            if is_to_start(ids, running, i) {
                assert forall|j: int| 0 <= j < i implies (#[trigger] rest[j]) != rest[i] by {
                    assert(rest[j] == ids[j]);
                }
            }
            if is_to_start(rest, running, i) {
                assert forall|j: int| 0 <= j < i implies (#[trigger] ids[j]) != ids[i] by {
                    assert(rest[j] == ids[j]);
                }
            }
        }
        assert(chosen(n) <==> !running.contains(ids.last()) && !rest.contains(ids.last())) by {
            if rest.contains(ids.last()) {
                let j = choose|j: int| 0 <= j < rest.len() && rest[j] == ids.last();
                assert(ids[j] == ids[n]);
            } else {
                assert forall|j: int| 0 <= j < n implies (#[trigger] ids[j]) != ids[n] by {
                    assert(rest[j] == ids[j]);
                    assert(rest.contains(rest[j]));
                }
            }
        }
        assert forall|k: int| 0 <= k < from.len() implies 0 <= (#[trigger] from[k]) < ids.len()
            && chosen(from[k]) by {
            if k < before.len() {
                assert(from[k] == before[k]);
                assert(earlier(before[k]));
            }
        }
        assert forall|j: int, k: int| 0 <= j < k < from.len() implies (#[trigger] from[j]) < (
        #[trigger] from[k]) by {
            assert(from[j] == before[j]);
            if k < before.len() {
                assert(from[k] == before[k]);
            }
        }
        assert forall|i: int| 0 <= i < ids.len() && #[trigger] chosen(i) implies from.contains(
            i,
        ) by {
            if i < n {
                assert(earlier(i));
                let k = choose|k: int| 0 <= k < before.len() && before[k] == i;
                assert(from[k] == i);
            } else {
                assert(from[before.len() as int] == i);
            }
        }
    }
}

/// A worker that failed is waited for: so long as is due, or five seconds where
/// it had run for a minute; the wait after that is twice as long, and no longer
/// than five minutes.
pub proof fn failures_are_waited_for(
    phase: SupervisePhase,
    delay_secs: u64,
    ran_for: Duration,
)
    ensures
        ({
            let (next, due, effect) = supervisor::next_supervision(
                phase,
                delay_secs,
                SuperviseEvent::RunFailed { ran_for },
            );
            let wait = if ran_for.nanos >= 60_000_000_000 {
                5u64
            } else {
                delay_secs
            };
            &&& next is Sleeping
            &&& effect == (SuperviseEffect::FailAndSleep { secs: wait })
            &&& due == if wait <= 150 {
                2 * wait
            } else {
                300
            }
        }),
{
}

/// What a supervisor does between runs: it ends where the runner drains or the
/// adapter is gone, runs an enabled adapter, and looks again after five seconds
/// where the adapter is disabled or could not be looked up. A worker that ended
/// well is looked after again in five seconds too, with the waits started over.
pub proof fn supervision_goes_on(phase: SupervisePhase, delay_secs: u64)
    ensures
        supervisor::next_supervision(
            phase,
            delay_secs,
            SuperviseEvent::DrainChecked { draining: true },
        ).2 is Finish,
        supervisor::next_supervision(
            phase,
            delay_secs,
            SuperviseEvent::DrainChecked { draining: false },
        ) == (SupervisePhase::LookingUp, delay_secs, SuperviseEffect::LookUp),
        supervisor::next_supervision(
            phase,
            delay_secs,
            SuperviseEvent::Found { enabled: Some(true) },
        ) == (SupervisePhase::Running, delay_secs, SuperviseEffect::Run),
        supervisor::next_supervision(
            phase,
            delay_secs,
            SuperviseEvent::Found { enabled: None },
        ).2 is Finish,
        supervisor::next_supervision(
            phase,
            delay_secs,
            SuperviseEvent::Found { enabled: Some(false) },
        ) == (SupervisePhase::Sleeping, delay_secs, SuperviseEffect::Sleep { secs: 5 }),
        supervisor::next_supervision(phase, delay_secs, SuperviseEvent::LookUpFailed) == (
            SupervisePhase::Sleeping,
            delay_secs,
            SuperviseEffect::Sleep { secs: 5 },
        ),
        supervisor::next_supervision(phase, delay_secs, SuperviseEvent::RunEnded) == (
            SupervisePhase::Sleeping,
            5u64,
            SuperviseEffect::Sleep { secs: 5 },
        ),
        supervisor::next_supervision(phase, delay_secs, SuperviseEvent::Slept) == (
            SupervisePhase::CheckingDrain,
            delay_secs,
            SuperviseEffect::CheckDrain,
        ),
{
}

/// A notice is fresh for a quarter of an hour; one of unknown age never is.
pub proof fn notices_are_fresh_for_a_while(age: Duration)
    ensures
        reboot::is_fresh(Some(age)) <==> age.nanos <= 900_000_000_000,
        !reboot::is_fresh(None),
{
}

/// Whether labels are those of a conversation's adapters, in order: `from` says
/// where each adapter stands.
pub open spec fn are_labels_of(
    adapters: Seq<AdapterRecord>,
    key: KeyView,
    labels: Seq<Seq<char>>,
    from: Seq<int>,
) -> bool {
    &&& filters::picks(
        from,
        adapters.len() as int,
        |i: int| adapters[i].agent_id@ == key.0 && adapters[i].conversation_id@ == key.1,
    )
    &&& labels.len() == from.len()
    &&& forall|k: int|
        0 <= k < from.len() ==> labels[k] == reboot::adapter_label(adapters[#[trigger] from[k]])
}

/// A conversation is told of all its adapters and of no other's.
pub proof fn a_conversation_is_told_of_its_adapters(adapters: Seq<AdapterRecord>, key: KeyView)
    ensures
        exists|from: Seq<int>| #[trigger]
            are_labels_of(adapters, key, reboot::labels_of(adapters, key), from),
{
    let keep = |adapter: AdapterRecord| reboot::key_view(adapter) == key;
    let from = filters::kept_positions(adapters, keep);
    let chosen = |i: int|
        adapters[i].agent_id@ == key.0 && adapters[i].conversation_id@ == key.1;
    assert forall|i: int| 0 <= i < adapters.len() && #[trigger] chosen(i) implies from.contains(
        i,
    ) by {
        assert(reboot::key_view(adapters[i]) == key);
        assert((|i: int| keep(adapters[i]))(i));
    }
    assert forall|k: int| 0 <= k < from.len() implies chosen(#[trigger] from[k]) by {
        assert((|i: int| keep(adapters[i]))(from[k]));
    }
    assert(are_labels_of(adapters, key, reboot::labels_of(adapters, key), from));
}

/// A label names its adapter and the adapter's platform.
pub proof fn a_label_names_its_adapter(adapter: AdapterRecord)
    ensures
        text::is_within(adapter.name@, reboot::adapter_label(adapter)),
        text::is_within(adapter.config.adapter_type@, reboot::adapter_label(adapter)),
{
    let label = reboot::adapter_label(adapter);
    let kind = adapter.config.adapter_type@;
    let tail = "` ("@ + kind + ")"@;
    assert(label =~= "`"@ + adapter.name@ + tail);
    text::a_part_is_within("`"@, adapter.name@, tail);
    assert(label =~= ("`"@ + adapter.name@ + "` ("@) + kind + ")"@);
    text::a_part_is_within("`"@ + adapter.name@ + "` ("@, kind, ")"@);
}

/// A part stands in what it is joined into.
pub proof fn joined_texts_hold_their_parts(parts: Seq<Seq<char>>, separator: Seq<char>, i: int)
    requires
        0 <= i < parts.len(),
    ensures
        text::is_within(parts[i], text::joined(parts, separator)),
    decreases parts.len(),
{
    let none = Seq::<char>::empty();
    if parts.len() == 1 {
        text::a_text_is_within_itself(parts[0]);
    } else {
        let rest = parts.drop_last();
        let head = text::joined(rest, separator);
        let all = text::joined(parts, separator);
        if i < rest.len() {
            joined_texts_hold_their_parts(rest, separator, i);
            assert(all =~= none + head + (separator + parts.last()));
            text::parts_stay_within(parts[i], none, head, separator + parts.last());
        } else {
            assert(all =~= (head + separator) + parts[i] + none);
            text::a_part_is_within(head + separator, parts[i], none);
        }
    }
}

/// An announcement gives the reason and the time of the restart, or says that
/// they are not known, and names every adapter of the conversation.
pub proof fn an_announcement_tells_why_and_of_whom(
    notice: RebootNotice,
    labels: Seq<Seq<char>>,
    i: int,
)
    requires
        0 <= i < labels.len(),
    ensures
        ({
            let prompt = reboot::reboot_prompt(notice, labels);
            &&& text::is_within(labels[i], prompt)
            &&& match notice.reason {
                Some(reason) => text::is_within(reason@, prompt),
                None => text::is_within("unspecified"@, prompt),
            }
            &&& match notice.requested_at {
                Some(at) => text::is_within(at@, prompt),
                None => text::is_within("unknown time"@, prompt),
            }
        }),
{
    let prompt = reboot::reboot_prompt(notice, labels);
    let head = "Host services were restarted (reason: "@;
    let why = reboot::text_or(notice.reason, "unspecified"@);
    let when = reboot::text_or(notice.requested_at, "unknown time"@);
    let who = text::joined(labels, ", "@);
    let after_why = prompt.skip((head + why).len() as int);
    assert(prompt =~= head + why + after_why);
    text::a_part_is_within(head, why, after_why);
    let before_when = head + why + ", requested at "@;
    let after_when = prompt.skip((before_when + when).len() as int);
    assert(prompt =~= before_when + when + after_when);
    text::a_part_is_within(before_when, when, after_when);
    let before_who = before_when + when
        + ") and the adapter runner is back up. Adapter workers for "@;
    let after_who = prompt.skip((before_who + who).len() as int);
    assert(prompt =~= before_who + who + after_who);
    joined_texts_hold_their_parts(labels, ", "@, i);
    text::parts_stay_within(labels[i], before_who, who, after_who);
}

/// The conversations to tell are those that have an adapter, each once.
pub proof fn conversations_with_an_adapter_are_told(adapters: Seq<AdapterRecord>)
    ensures
        pairs::distinct(reboot::adapter_keys(adapters)).no_duplicates(),
        forall|key: KeyView| #[trigger]
            pairs::distinct(reboot::adapter_keys(adapters)).contains(key) <==> exists|i: int|
                0 <= i < adapters.len() && is_adapter_of(#[trigger] adapters[i], key),
{
    let keys = reboot::adapter_keys(adapters);
    pairs::distinct_keys_are_the_keys(keys);
    assert forall|key: KeyView| #[trigger]
        pairs::distinct(keys).contains(key) <==> exists|i: int|
            0 <= i < adapters.len() && is_adapter_of(#[trigger] adapters[i], key) by {
        if keys.contains(key) {
            let i = choose|i: int| 0 <= i < keys.len() && keys[i] == key;
            assert(is_adapter_of(adapters[i], key));
        }
        if exists|i: int| 0 <= i < adapters.len() && is_adapter_of(#[trigger] adapters[i], key) {
            let i = choose|i: int|
                0 <= i < adapters.len() && is_adapter_of(#[trigger] adapters[i], key);
            assert(keys[i] == key);
        }
    }
}

/// Whether an adapter is one of a conversation.
pub open spec fn is_adapter_of(adapter: AdapterRecord, key: KeyView) -> bool {
    adapter.agent_id@ == key.0 && adapter.conversation_id@ == key.1
}

/// A name means the first secret that has it: no other secret of that name
/// stands before it.
pub proof fn a_name_means_one_secret(
    secrets: Seq<SecretRecord>,
    name: Seq<char>,
    i: int,
    other: int,
)
    requires
        secrets::is_first_named(secrets, name, i),
        0 <= other < secrets.len(),
        secrets[other].name@ == name,
    ensures
        0 <= i <= other,
        secrets[i].name@ == name,
{
}

} // verus!
