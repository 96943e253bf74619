//! What holds of messages on their way out, told by the messages themselves.

use vstd::prelude::*;

use super::outbound::{
    self, AckEffectView, AckEvent, AckEventView, AdapterEventType, AdapterOutboundMessageRecord,
    ClaimEffectView, ClaimEvent, ClaimView, DeliveredVia, WorkerCommand,
};
use super::types::AdapterAttachment;
use crate::text;

verus! {

/// Whether two attachments are the same, field by field.
pub open spec fn same_attachment(a: AdapterAttachment, b: AdapterAttachment) -> bool {
    &&& a.kind == b.kind
    &&& text::same_opt(a.path, b.path)
    &&& text::same_opt(a.url, b.url)
    &&& text::same_opt(a.data, b.data)
    &&& text::same_opt(a.sandbox_path, b.sandbox_path)
    &&& text::same_opt(a.mime_type, b.mime_type)
    &&& text::same_opt(a.file_name, b.file_name)
}

/// Whether two runs of attachments are the same.
pub open spec fn same_attachments(a: Seq<AdapterAttachment>, b: Seq<AdapterAttachment>) -> bool {
    a.len() == b.len() && forall|i: int|
        0 <= i < a.len() ==> same_attachment(#[trigger] a[i], b[i])
}

/// Attachments with the same contents are the same in every field, so a copy
/// leaves nothing out.
pub proof fn a_copied_attachment_keeps_every_field(a: AdapterAttachment, b: AdapterAttachment)
    requires
        a@ == b@,
    ensures
        same_attachment(a, b),
{
}

/// Copied attachments keep every field.
pub proof fn copied_attachments_keep_every_field(
    a: Seq<AdapterAttachment>,
    b: Seq<AdapterAttachment>,
)
    requires
        super::types::attachment_views(a) == super::types::attachment_views(b),
    ensures
        same_attachments(a, b),
{
    let left = super::types::attachment_views(a);
    let right = super::types::attachment_views(b);
    assert(left.len() == a.len() && right.len() == b.len());
    assert forall|i: int| 0 <= i < a.len() implies same_attachment(#[trigger] a[i], b[i]) by {
        assert(left[i] == a[i]@ && right[i] == b[i]@);
        a_copied_attachment_keeps_every_field(a[i], b[i]);
    }
}

/// Whether a command tells the worker to send a message: under its id, to its
/// target, with its text and its attachments.
pub open spec fn carries(command: WorkerCommand, message: AdapterOutboundMessageRecord) -> bool {
    command matches WorkerCommand::SendMessage { id, target, text, attachments } && id@
        == message.id@ && text::same_opt(target, message.target) && text@ == message.text@
        && same_attachments(attachments@, message.attachments@)
}

/// Whether some commands are those of the messages without a marker: `from`
/// gives the message of each, in outbox order, and leaves none out.
pub open spec fn dispatches(
    messages: Seq<AdapterOutboundMessageRecord>,
    marked: spec_fn(Seq<char>) -> bool,
    commands: Seq<WorkerCommand>,
    from: Seq<int>,
) -> bool {
    &&& from.len() == commands.len()
    &&& forall|k: int|
        0 <= k < from.len() ==> 0 <= (#[trigger] from[k]) < messages.len() && !marked(
            messages[from[k]].id@,
        ) && carries(commands[k], messages[from[k]])
    &&& forall|j: int, k: int|
        0 <= j < k < from.len() ==> (#[trigger] from[j]) < (#[trigger] from[k])
    &&& forall|i: int|
        0 <= i < messages.len() && !marked((#[trigger] messages[i]).id@) ==> from.contains(i)
}

/// Where the messages without a marker stand.
proof fn unsent_positions(
    messages: Seq<AdapterOutboundMessageRecord>,
    marked: spec_fn(Seq<char>) -> bool,
) -> (from: Seq<int>)
    ensures
        ({
            let unsent = outbound::unsent(messages, marked);
            &&& from.len() == unsent.len()
            &&& forall|k: int|
                0 <= k < from.len() ==> 0 <= (#[trigger] from[k]) < messages.len() && !marked(
                    messages[from[k]].id@,
                ) && unsent[k] == outbound::command_for(messages[from[k]])
            &&& forall|j: int, k: int|
                0 <= j < k < from.len() ==> (#[trigger] from[j]) < (#[trigger] from[k])
            &&& forall|i: int|
                0 <= i < messages.len() && !marked((#[trigger] messages[i]).id@)
                    ==> from.contains(i)
        }),
    decreases messages.len(),
{
    reveal(Seq::filter);
    let unsent = outbound::unsent(messages, marked);
    if messages.len() == 0 {
        assert(unsent =~= Seq::empty());
        Seq::empty()
    } else {
        let rest = messages.drop_last();
        let last = messages.last();
        let n = messages.len() - 1;
        let before = unsent_positions(rest, marked);
        let earlier = outbound::unsent(rest, marked);
        let from = if marked(last.id@) {
            assert(unsent =~= earlier);
            before
        } else {
            assert(unsent =~= earlier.push(outbound::command_for(last)));
            before.push(n)
        };
        assert forall|k: int| 0 <= k < from.len() implies 0 <= (#[trigger] from[k])
            < messages.len() && !marked(messages[from[k]].id@) && unsent[k]
            == outbound::command_for(messages[from[k]]) by {
            if k < before.len() {
                assert(from[k] == before[k]);
                assert(rest[before[k]] == messages[before[k]]);
            }
        }
        assert forall|j: int, k: int| 0 <= j < k < from.len() implies (#[trigger] from[j]) < (
        #[trigger] from[k]) by {
            assert(from[j] == before[j]);
            if k < before.len() {
                assert(from[k] == before[k]);
            }
        }
        assert forall|i: int|
            0 <= i < messages.len() && !marked((#[trigger] messages[i]).id@) implies from.contains(
            i,
        ) by {
            if i < n {
                assert(rest[i] == messages[i]);
                assert(before.contains(i));
                let k = choose|k: int| 0 <= k < before.len() && before[k] == i;
                assert(from[k] == i);
            } else {
                assert(from[before.len() as int] == i);
            }
        }
        from
    }
}

/// A command that stands for a message carries all of it.
proof fn a_command_carries_its_message(
    command: WorkerCommand,
    message: AdapterOutboundMessageRecord,
)
    requires
        command@ == outbound::command_for(message),
    ensures
        carries(command, message),
{
    match command {
        WorkerCommand::SendMessage { id, target, text, attachments } => {
            copied_attachments_keep_every_field(attachments@, message.attachments@);
        },
    }
}

/// The worker is told to send what is in the outbox: of the claimed messages,
/// exactly those without a marker are handed over, in outbox order, each once,
/// under its id, to its target, with its text and its attachments.
pub proof fn a_worker_is_told_what_the_outbox_holds(
    messages: Seq<AdapterOutboundMessageRecord>,
    marked: spec_fn(Seq<char>) -> bool,
    commands: Seq<WorkerCommand>,
)
    requires
        ({
            let run = ClaimView { messages, at: 0, commands: Seq::empty() };
            outbound::command_views(commands) == outbound::run_claim(
                run,
                outbound::turned(run),
                marked,
                2 * messages.len(),
            ).0.commands
        }),
    ensures
        exists|from: Seq<int>| #[trigger] dispatches(messages, marked, commands, from),
{
    outbound::only_unsent_messages_are_dispatched(messages, marked);
    let from = unsent_positions(messages, marked);
    let views = outbound::command_views(commands);
    assert(views == outbound::unsent(messages, marked));
    assert(views.len() == commands.len());
    assert forall|k: int| 0 <= k < from.len() implies 0 <= (#[trigger] from[k]) < messages.len()
        && !marked(messages[from[k]].id@) && carries(commands[k], messages[from[k]]) by {
        assert(views[k] == commands[k]@);
        a_command_carries_its_message(commands[k], messages[from[k]]);
    }
    assert(dispatches(messages, marked, commands, from));
}

/// Step by step: the marker that is looked for is that of the next message; a
/// message that has one is marked delivered and not handed over, and one that
/// has none is handed over whole, behind those before it, and not marked.
pub proof fn a_message_is_marked_or_handed_over(run: ClaimView, commands: Seq<WorkerCommand>)
    requires
        0 <= run.at < run.messages.len(),
        outbound::command_views(commands) == outbound::next_claim(
            run,
            ClaimEvent::Checked { marked: false },
        ).0.commands,
    ensures
        ({
            let message = run.messages[run.at];
            let (sent, mark) = outbound::next_claim(run, ClaimEvent::Checked { marked: true });
            let (handed, _) = outbound::next_claim(run, ClaimEvent::Checked { marked: false });
            let (passed, _) = outbound::next_claim(run, ClaimEvent::Marked);
            &&& outbound::turned(run) == (ClaimEffectView::CheckMarker { message_id: message.id@ })
            &&& mark == (ClaimEffectView::MarkDelivered { message_id: message.id@ })
            &&& sent == run
            &&& passed.commands == run.commands
            &&& passed.at == run.at + 1
            &&& handed.at == run.at + 1
            &&& passed.messages == run.messages && handed.messages == run.messages
            &&& commands.len() == run.commands.len() + 1
            &&& handed.commands.drop_last() == run.commands
            &&& carries(commands.last(), message)
        }),
{
    let message = run.messages[run.at];
    let handed = outbound::next_claim(run, ClaimEvent::Checked { marked: false }).0;
    let views = outbound::command_views(commands);
    assert(views.len() == commands.len());
    assert(handed.commands.drop_last() =~= run.commands);
    assert(views[commands.len() - 1] == commands.last()@);
    a_command_carries_its_message(commands.last(), message);
}

/// Whether every event answers what handling an acknowledgement was waiting for.
pub open spec fn is_ack_history(
    command_id: Seq<char>,
    reported: bool,
    events: Seq<AckEventView>,
) -> bool
    decreases events.len(),
{
    events.len() == 0 || (is_ack_history(command_id, reported, events.drop_last())
        && outbound::answers(
        outbound::after_ack_events(command_id, reported, events.drop_last()).0,
        events.last(),
    ))
}

/// What an event tells of a delivered message is its id and its attempt.
pub proof fn an_ack_tells_which_message_was_delivered(
    delivered: Option<AdapterOutboundMessageRecord>,
)
    ensures
        (AckEvent::Acknowledged { delivered })@ == (AckEventView::Acknowledged {
            delivered: match delivered {
                Some(message) => Some((message.id@, message.attempt)),
                None => None,
            },
        }),
{
}

/// An acknowledged message is counted once, as sent and not as a duplicate, and
/// recorded as an outbound event that names it and its attempt; then its marker
/// is looked for. One that had been delivered before is not counted or recorded
/// again.
pub proof fn an_ack_is_counted_and_recorded_once(
    command_id: Seq<char>,
    reported: bool,
    message_id: Seq<char>,
    attempt: u64,
    counted: AckEventView,
)
    requires
        counted is Counted || counted is Failed,
    ensures
        ({
            let first = seq![
                AckEventView::Acknowledged { delivered: Some((message_id, attempt)) },
            ];
            let second = first.push(counted);
            let third = second.push(AckEventView::Recorded);
            let again = seq![AckEventView::Acknowledged { delivered: None }];
            let record = outbound::after_ack_events(command_id, reported, second).2;
            &&& outbound::after_ack_events(command_id, reported, Seq::empty()).2 is Acknowledge
            &&& outbound::after_ack_events(command_id, reported, first).2 == (
            AckEffectView::CountDelivery { deduped: false })
            &&& record is RecordEvent
            &&& record->event_type == AdapterEventType::Outbound
            &&& text::is_within(message_id, record->summary)
            &&& text::is_within(text::decimal(attempt as nat), record->summary)
            &&& outbound::after_ack_events(command_id, reported, third).2 is CheckMarker
            &&& outbound::after_ack_events(command_id, reported, again).2 is CheckMarker
        }),
{
    let first = seq![AckEventView::Acknowledged { delivered: Some((message_id, attempt)) }];
    let second = first.push(counted);
    let third = second.push(AckEventView::Recorded);
    let again = seq![AckEventView::Acknowledged { delivered: None }];
    reveal_with_fuel(outbound::after_ack_events, 4);
    assert(first.drop_last() =~= Seq::empty());
    assert(again.drop_last() =~= Seq::empty());
    assert(second.drop_last() =~= first);
    assert(third.drop_last() =~= second);
    a_delivery_names_its_message(message_id, attempt, DeliveredVia::WorkerAck);
}

/// The audit of an acknowledged message: one with a marker is not reported, and
/// one without is, by its id and as an event of the worker's own life, unless
/// this worker run has been reported before. Nothing but that report makes a
/// worker run a reported one.
pub proof fn a_missing_marker_is_reported(
    command_id: Seq<char>,
    reported: bool,
    events: Seq<AckEventView>,
    marked: bool,
)
    requires
        is_ack_history(command_id, reported, events),
        outbound::after_ack_events(command_id, reported, events).2 is CheckMarker,
    ensures
        ({
            let (_, now_reported, effect) = outbound::after_ack_events(
                command_id,
                reported,
                events.push(AckEventView::Checked { marked }),
            );
            if marked || reported {
                effect == (AckEffectView::Finish { failed: false }) && now_reported == reported
            } else {
                effect is RecordEvent && effect->event_type == AdapterEventType::Lifecycle
                    && text::is_within(command_id, effect->summary) && now_reported
            }
        }),
{
    ack_phases_agree(command_id, reported, events);
    assert(events.push(AckEventView::Checked { marked }).drop_last() =~= events);
    text::a_part_is_within(
        "adapter message "@,
        command_id,
        " was acked without a sent marker"@,
    );
}

/// What handling an acknowledgement carries along.
proof fn ack_phases_agree(command_id: Seq<char>, reported: bool, events: Seq<AckEventView>)
    requires
        is_ack_history(command_id, reported, events),
    ensures
        ({
            let (phase, now_reported, effect) = outbound::after_ack_events(
                command_id,
                reported,
                events,
            );
            &&& effect is CheckMarker <==> phase is Checking
            &&& effect is Acknowledge <==> phase is Acknowledging
            &&& effect is CountDelivery <==> phase is Counting
            &&& effect is Finish <==> phase is Finished
            &&& phase is Acknowledging || phase is Counting || phase is Recording
                || phase is Checking ==> now_reported == reported
            &&& phase is Recording || phase is Counting ==> events.len() > 0
                && events[0] is Acknowledged
        }),
    decreases events.len(),
{
    if events.len() > 0 {
        let before = events.drop_last();
        ack_phases_agree(command_id, reported, before);
        if before.len() > 0 {
            assert(before[0] == events[0]);
        }
    }
}

/// An acknowledgement fails only where the outbox or the record of the delivery
/// failed, and then before the audit.
pub proof fn an_ack_fails_only_with_its_delivery(
    command_id: Seq<char>,
    reported: bool,
    events: Seq<AckEventView>,
)
    requires
        is_ack_history(command_id, reported, events),
        outbound::after_ack_events(command_id, reported, events).2 is Finish,
    ensures
        outbound::after_ack_events(command_id, reported, events).2 == (AckEffectView::Finish {
            failed: true,
        }) <==> events.last() is Failed && !(outbound::after_ack_events(
            command_id,
            reported,
            events.drop_last(),
        ).2 is CheckMarker) && !is_report(
            outbound::after_ack_events(command_id, reported, events.drop_last()).2,
        ),
{
    ack_phases_agree(command_id, reported, events);
    if events.len() > 0 {
        let before = events.drop_last();
        ack_phases_agree(command_id, reported, before);
        ack_records_agree(command_id, reported, before);
    }
}

/// Whether an operation is the report of a worker that leaves no markers.
pub open spec fn is_report(effect: AckEffectView) -> bool {
    effect matches AckEffectView::RecordEvent { event_type, .. } && event_type
        == AdapterEventType::Lifecycle
}

/// Which record an acknowledgement is at.
proof fn ack_records_agree(command_id: Seq<char>, reported: bool, events: Seq<AckEventView>)
    requires
        is_ack_history(command_id, reported, events),
    ensures
        ({
            let (phase, _, effect) = outbound::after_ack_events(command_id, reported, events);
            &&& phase is Reporting <==> is_report(effect)
            &&& phase is Recording <==> effect is RecordEvent && !is_report(effect)
        }),
{
    if events.len() > 0 {
        ack_phases_agree(command_id, reported, events.drop_last());
    }
}

/// The record of a delivery names the message and its attempt.
pub proof fn a_delivery_names_its_message(id: Seq<char>, attempt: u64, via: DeliveredVia)
    ensures
        text::is_within(id, outbound::delivered_summary(id, attempt, via)),
        text::is_within(
            text::decimal(attempt as nat),
            outbound::delivered_summary(id, attempt, via),
        ),
{
    let summary = outbound::delivered_summary(id, attempt, via);
    let digits = text::decimal(attempt as nat);
    let head = "delivered adapter message "@;
    let to_digits = head + id + " on attempt "@;
    assert(summary =~= head + id + summary.skip((head + id).len() as int));
    text::a_part_is_within(head, id, summary.skip((head + id).len() as int));
    assert(summary =~= to_digits + digits + summary.skip((to_digits + digits).len() as int));
    text::a_part_is_within(to_digits, digits, summary.skip((to_digits + digits).len() as int));
}

/// A suppressed redelivery never looks like a fresh send.
pub proof fn suppressed_redeliveries_look_different(id: Seq<char>, attempt: u64)
    ensures
        outbound::delivered_summary(id, attempt, DeliveredVia::WorkerAck)
            != outbound::delivered_summary(id, attempt, DeliveredVia::SentMarker),
        text::is_within(
            outbound::delivered_summary(id, attempt, DeliveredVia::WorkerAck),
            outbound::delivered_summary(id, attempt, DeliveredVia::SentMarker),
        ),
{
    let fresh = outbound::delivered_summary(id, attempt, DeliveredVia::WorkerAck);
    let deduped = outbound::delivered_summary(id, attempt, DeliveredVia::SentMarker);
    let note = " (deduped: sent marker present)"@;
    reveal_strlit(" (deduped: sent marker present)");
    assert(deduped =~= Seq::<char>::empty() + fresh + note);
    text::a_part_is_within(Seq::empty(), fresh, note);
    assert(deduped.len() == fresh.len() + note.len());
}

/// The record of a refused send names the message and its attempt, ends with the
/// reason, and tells a last attempt from one that is tried again.
pub proof fn a_refusal_names_its_message_and_reason(
    terminal: bool,
    id: Seq<char>,
    attempt: u64,
    reason: Seq<char>,
)
    ensures
        ({
            let summary = outbound::nack_summary(terminal, id, attempt, reason);
            &&& text::is_within(id, summary)
            &&& text::is_within(text::decimal(attempt as nat), summary)
            &&& summary.skip(summary.len() - reason.len()) == reason
            &&& summary != outbound::nack_summary(!terminal, id, attempt, reason)
        }),
{
    let summary = outbound::nack_summary(terminal, id, attempt, reason);
    let other = outbound::nack_summary(!terminal, id, attempt, reason);
    let digits = text::decimal(attempt as nat);
    let head = (if terminal {
        "failed"@
    } else {
        "retrying"@
    }) + " adapter message "@;
    let to_digits = head + id + " after attempt "@;
    reveal_strlit("failed");
    reveal_strlit("retrying");
    assert(summary =~= head + id + summary.skip((head + id).len() as int));
    text::a_part_is_within(head, id, summary.skip((head + id).len() as int));
    assert(summary =~= to_digits + digits + summary.skip((to_digits + digits).len() as int));
    text::a_part_is_within(to_digits, digits, summary.skip((to_digits + digits).len() as int));
    assert(summary.skip(summary.len() - reason.len()) =~= reason);
    assert(summary.len() != other.len());
}

/// The record of a queued message names the platform, the message and, where
/// there is one, the target.
pub proof fn a_queued_message_is_named(
    adapter_type: Seq<char>,
    message_id: Seq<char>,
    target: Option<Seq<char>>,
)
    ensures
        ({
            let summary = outbound::queued_summary(adapter_type, message_id, target);
            &&& text::is_within(adapter_type, summary)
            &&& text::is_within(message_id, summary)
            &&& target matches Some(held) ==> text::is_within(held, summary)
            &&& target is None ==> summary.skip(summary.len() - message_id.len()) == message_id
        }),
{
    let summary = outbound::queued_summary(adapter_type, message_id, target);
    let head = "queued "@;
    let to_id = head + adapter_type + " adapter message "@;
    assert(summary =~= head + adapter_type + summary.skip((head + adapter_type).len() as int));
    text::a_part_is_within(head, adapter_type, summary.skip((head + adapter_type).len() as int));
    assert(summary =~= to_id + message_id + summary.skip((to_id + message_id).len() as int));
    text::a_part_is_within(to_id, message_id, summary.skip((to_id + message_id).len() as int));
    match target {
        Some(held) => {
            let to_target = to_id + message_id + " to "@;
            assert(summary =~= to_target + held + Seq::empty());
            text::a_part_is_within(to_target, held, Seq::empty());
        },
        None => {
            assert(summary.skip(summary.len() - message_id.len()) =~= message_id);
        },
    }
}

/// Attachments go out on three platforms, and on no other.
pub proof fn attachments_go_out_on_three_platforms(adapter_type: Seq<char>)
    ensures
        outbound::takes_attachments(adapter_type) <==> seq![
            "whatsapp"@,
            "signal"@,
            "discord"@,
        ].contains(adapter_type),
{
    let platforms = seq!["whatsapp"@, "signal"@, "discord"@];
    assert(platforms[0] == "whatsapp"@ && platforms[1] == "signal"@ && platforms[2]
        == "discord"@);
}

/// A refusal names what is in the way: the adapter that is disabled, or the
/// platform that takes no attachments.
pub proof fn a_refusal_says_what_is_in_the_way(refusal: outbound::OutboundRefusal)
    ensures
        refusal matches outbound::OutboundRefusal::Disabled { adapter_id } ==> text::is_within(
            adapter_id@,
            outbound::refusal_words(refusal),
        ),
        refusal matches outbound::OutboundRefusal::NoRichAttachments { adapter_type }
            ==> text::is_within(adapter_type@, outbound::refusal_words(refusal)),
{
    match refusal {
        outbound::OutboundRefusal::Disabled { adapter_id } => {
            let head = "adapter is disabled: "@;
            assert(outbound::refusal_words(refusal) =~= head + adapter_id@ + Seq::empty());
            text::a_part_is_within(head, adapter_id@, Seq::empty());
        },
        outbound::OutboundRefusal::NoRichAttachments { adapter_type } => {
            text::a_part_is_within(
                "adapter "@,
                adapter_type@,
                " does not support rich attachments"@,
            );
        },
    }
}

} // verus!
