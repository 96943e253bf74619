//! What becomes of an inbound message, whatever happens on the way.

use vstd::prelude::*;

use super::inbound::{self, ImageView};
use super::message_run::{self, ContentView, InboundMessage, MessageEffectView, MessageEventView, MessagePhaseView};
use super::outbound::AdapterEventType;
use super::types::{AdapterAttachment, AdapterAttachmentView, AdapterConfig, AdapterRecord};
use crate::json::{self, Json};
use crate::text;

verus! {

/// Where the handling of a message stands after some events, and what it asks
/// for.
pub open spec fn after_events(
    config: AdapterConfig,
    adapter: AdapterRecord,
    message: InboundMessage,
    events: Seq<MessageEventView>,
) -> (MessagePhaseView, MessageEffectView)
    decreases events.len(),
{
    if events.len() == 0 {
        message_run::first_step(config, message)
    } else {
        message_run::next_message(
            config,
            adapter,
            message,
            after_events(config, adapter, message, events.drop_last()).0,
            events.last(),
        )
    }
}

/// Whether every event answers what the handling was waiting for.
pub open spec fn is_history(
    config: AdapterConfig,
    adapter: AdapterRecord,
    message: InboundMessage,
    events: Seq<MessageEventView>,
) -> bool
    decreases events.len(),
{
    events.len() == 0 || (is_history(config, adapter, message, events.drop_last())
        && message_run::answers(
        after_events(config, adapter, message, events.drop_last()).0,
        events.last(),
    ))
}

/// Whether the conversation was to be woken at some point.
pub open spec fn was_woken(
    config: AdapterConfig,
    adapter: AdapterRecord,
    message: InboundMessage,
    events: Seq<MessageEventView>,
) -> bool {
    exists|n: int|
        0 <= n <= events.len() && after_events(
            config,
            adapter,
            message,
            #[trigger] events.take(n),
        ).1 is Wake
}

/// What the handling hears of a message that is new, as far as it is asked.
pub open spec fn heard_new(message: InboundMessage) -> Seq<MessageEventView> {
    if message.message_id is Some {
        seq![MessageEventView::Once { fresh: true }]
    } else {
        Seq::empty()
    }
}

/// The prompt a conversation is woken with.
pub open spec fn prompt_of(content: ContentView) -> Seq<char> {
    match content {
        ContentView::Text { prompt } => prompt,
        ContentView::Parts { prompt, .. } => prompt,
    }
}

/// The images a conversation is woken with.
pub open spec fn images_of(content: ContentView) -> Seq<ImageView> {
    match content {
        ContentView::Text { .. } => Seq::empty(),
        ContentView::Parts { images, .. } => images,
    }
}

/// Whether a prompt shows a message: its text, with who sent it, where and
/// through which adapter before it, and how to answer behind it.
pub open spec fn shows(
    config: AdapterConfig,
    adapter: AdapterRecord,
    message: InboundMessage,
    prompt: Seq<char>,
) -> bool {
    exists|before: Seq<char>, after: Seq<char>|
        #![trigger before + message.text@ + after]
        {
            &&& prompt == before + message.text@ + after
            &&& text::is_within(config.adapter_type@, before)
            &&& text::is_within(message.target@, before)
            &&& text::is_within(adapter.name@, before)
            &&& message.sender matches Some(sender) ==> text::is_within(sender@, before)
            &&& text::is_within(adapter.id@, after)
            &&& text::is_within(message.target@, after)
            &&& forall|i: int|
                0 <= i < message.attachments@.len() ==> is_listed(
                    #[trigger] message.attachments@[i],
                    after,
                )
        }
}

/// Whether a text lists an attachment, by its name, type and URL.
pub open spec fn is_listed(attachment: AdapterAttachment, whole: Seq<char>) -> bool {
    &&& attachment.file_name matches Some(name) ==> text::is_within(name@, whole)
    &&& attachment.mime_type matches Some(kind) ==> text::is_within(kind@, whole)
    &&& attachment.url matches Some(url) ==> text::is_within(url@, whole)
}

/// An attachment's line lists it.
proof fn a_line_lists_its_attachment(attachment: AdapterAttachment)
    ensures
        is_listed(attachment, inbound::attachment_line(attachment@)),
{
    let view = attachment@;
    let line = inbound::attachment_line(view);
    let name = inbound::or_else(view.file_name, "(unnamed)"@);
    let kind = inbound::or_else(view.mime_type, "unknown type"@);
    let url = inbound::or_else(view.url, "no url"@);
    let head = "- "@ + inbound::kind_label(view.kind) + " `"@;
    assert(line =~= head + name + ("` ("@ + kind + ") — "@ + url + "\n"@));
    text::a_part_is_within(head, name, "` ("@ + kind + ") — "@ + url + "\n"@);
    assert(line =~= (head + name + "` ("@) + kind + (") — "@ + url + "\n"@));
    text::a_part_is_within(head + name + "` ("@, kind, ") — "@ + url + "\n"@);
    assert(line =~= (head + name + "` ("@ + kind + ") — "@) + url + "\n"@);
    text::a_part_is_within(head + name + "` ("@ + kind + ") — "@, url, "\n"@);
}

/// What lists an attachment lists it still with something around it.
proof fn listings_stay(
    attachment: AdapterAttachment,
    before: Seq<char>,
    whole: Seq<char>,
    after: Seq<char>,
)
    requires
        is_listed(attachment, whole),
    ensures
        is_listed(attachment, before + whole + after),
{
    if let Some(name) = attachment.file_name {
        text::parts_stay_within(name@, before, whole, after);
    }
    if let Some(kind) = attachment.mime_type {
        text::parts_stay_within(kind@, before, whole, after);
    }
    if let Some(url) = attachment.url {
        text::parts_stay_within(url@, before, whole, after);
    }
}

/// Every attachment is listed.
proof fn lines_list_every_attachment(attachments: Seq<AdapterAttachment>, i: int)
    requires
        0 <= i < attachments.len(),
    ensures
        is_listed(
            attachments[i],
            inbound::attachment_lines(super::types::attachment_views(attachments)),
        ),
    decreases attachments.len(),
{
    let views = super::types::attachment_views(attachments);
    let rest = attachments.drop_last();
    let head = inbound::attachment_lines(views.drop_last());
    let line = inbound::attachment_line(views.last());
    let all = inbound::attachment_lines(views);
    assert(views.drop_last() =~= super::types::attachment_views(rest));
    if i == attachments.len() - 1 {
        a_line_lists_its_attachment(attachments[i]);
        listings_stay(attachments[i], head, line, Seq::empty());
        assert(head + line + Seq::empty() =~= all);
    } else {
        lines_list_every_attachment(rest, i);
        listings_stay(attachments[i], Seq::empty(), head, line);
        assert(Seq::<char>::empty() + head + line =~= all);
    }
}

/// What stands before a message's text.
spec fn opening(kind: Seq<char>, target: Seq<char>, sender: Seq<char>, name: Seq<char>) -> Seq<char> {
    kind + " message received at target `"@ + target + "` from "@ + sender + " via adapter `"@
        + name + "`:\n\n"@
}

/// What stands before a message's text names where it came from.
proof fn an_opening_names_the_sender(
    kind: Seq<char>,
    target: Seq<char>,
    sender: Seq<char>,
    name: Seq<char>,
)
    ensures
        text::is_within(kind, opening(kind, target, sender, name)),
        text::is_within(target, opening(kind, target, sender, name)),
        text::is_within(sender, opening(kind, target, sender, name)),
        text::is_within(name, opening(kind, target, sender, name)),
{
    let all = opening(kind, target, sender, name);
    let to_target = kind + " message received at target `"@;
    let to_sender = to_target + target + "` from "@;
    let to_name = to_sender + sender + " via adapter `"@;
    assert(all =~= Seq::<char>::empty() + kind + all.skip(kind.len() as int));
    text::a_part_is_within(Seq::empty(), kind, all.skip(kind.len() as int));
    assert(all =~= to_target + target + all.skip((to_target + target).len() as int));
    text::a_part_is_within(to_target, target, all.skip((to_target + target).len() as int));
    assert(all =~= to_sender + sender + all.skip((to_sender + sender).len() as int));
    text::a_part_is_within(to_sender, sender, all.skip((to_sender + sender).len() as int));
    assert(all =~= to_name + name + "`:\n\n"@);
    text::a_part_is_within(to_name, name, "`:\n\n"@);
}

/// What is said of the attachments lists each.
proof fn a_note_lists_every_attachment(attachments: Seq<AdapterAttachment>, images: nat, i: int)
    requires
        0 <= i < attachments.len(),
    ensures
        is_listed(
            attachments[i],
            inbound::attachments_note(super::types::attachment_views(attachments), images),
        ),
{
    let views = super::types::attachment_views(attachments);
    let listed = inbound::attachments_note(views, images);
    let lines = inbound::attachment_lines(views);
    let head = "\n\nThe message includes these attachments:\n"@;
    let tail = listed.skip((head + lines).len() as int);
    lines_list_every_attachment(attachments, i);
    assert(listed =~= head + lines + tail);
    listings_stay(attachments[i], head, lines, tail);
}

/// The prompt of a message shows the message.
proof fn the_prompt_shows_the_message(
    config: AdapterConfig,
    adapter: AdapterRecord,
    message: InboundMessage,
    dm_target: Option<Seq<char>>,
    active_thread: bool,
    images: nat,
)
    ensures
        shows(
            config,
            adapter,
            message,
            inbound::inbound_prompt(
                config,
                adapter,
                message.target@,
                text::opt_view(message.sender),
                message.text@,
                dm_target,
                active_thread,
                super::types::attachment_views(message.attachments@),
                images,
            ),
        ),
{
    let target = message.target@;
    let sender = inbound::or_else(text::opt_view(message.sender), "unknown"@);
    let views = super::types::attachment_views(message.attachments@);
    let before = opening(config.adapter_type@, target, sender, adapter.name@);
    let slack = if config.adapter_type@ == "slack"@ {
        inbound::slack_note(dm_target, active_thread)
    } else {
        Seq::empty()
    };
    let listed = inbound::attachments_note(views, images);
    let reply = inbound::reply_note(adapter.id@, target);
    let after = slack + listed + reply;
    let prompt = inbound::inbound_prompt(
        config,
        adapter,
        target,
        text::opt_view(message.sender),
        message.text@,
        dm_target,
        active_thread,
        views,
        images,
    );
    assert(inbound::message_opening(
        config.adapter_type@,
        target,
        text::opt_view(message.sender),
        adapter.name@,
        message.text@,
    ) == before + message.text@);
    an_opening_names_the_sender(config.adapter_type@, target, sender, adapter.name@);
    a_reply_note_names_the_channel(adapter.id@, target);
    text::parts_stay_within(adapter.id@, slack + listed, reply, Seq::empty());
    text::parts_stay_within(target, slack + listed, reply, Seq::empty());
    sums_associate(before + message.text@, slack, listed, reply);
    assert forall|i: int| 0 <= i < message.attachments@.len() implies is_listed(
        #[trigger] message.attachments@[i],
        after,
    ) by {
        a_note_lists_every_attachment(message.attachments@, images, i);
        listings_stay(message.attachments@[i], slack, listed, reply);
    }
    assert(prompt == before + message.text@ + after);
}

/// How four texts join does not matter.
proof fn sums_associate(a: Seq<char>, b: Seq<char>, c: Seq<char>, d: Seq<char>)
    ensures
        a + b + c + d == a + (b + c + d),
        (b + c) + d + Seq::empty() == b + c + d,
{
    assert(a + b + c + d =~= a + (b + c + d));
    assert((b + c) + d + Seq::empty() =~= b + c + d);
}

/// How to answer names the adapter and the target.
proof fn a_reply_note_names_the_channel(adapter_id: Seq<char>, target: Seq<char>)
    ensures
        text::is_within(adapter_id, inbound::reply_note(adapter_id, target)),
        text::is_within(target, inbound::reply_note(adapter_id, target)),
{
    let note = inbound::reply_note(adapter_id, target);
    let head =
        "\n\nThis message came from an external adapter. If you answer this message, you MUST reply externally with send_adapter_message using adapterId `"@;
    let middle = "` and target `"@;
    let rest = note.skip((head + adapter_id).len() as int);
    let tail = note.skip((head + adapter_id + middle + target).len() as int);
    assert(note =~= head + adapter_id + rest);
    text::a_part_is_within(head, adapter_id, rest);
    assert(note =~= (head + adapter_id + middle) + target + tail);
    text::a_part_is_within(head + adapter_id + middle, target, tail);
}

/// What handling a message carries along agrees with what it was told.
proof fn phases_agree_with_history(
    config: AdapterConfig,
    adapter: AdapterRecord,
    message: InboundMessage,
    events: Seq<MessageEventView>,
)
    requires
        is_history(config, adapter, message, events),
    ensures
        ({
            let (phase, effect) = after_events(config, adapter, message, events);
            let h = heard_new(message).len();
            let failed = events.contains(MessageEventView::Failed);
            let seen = events.contains(MessageEventView::Once { fresh: false });
            &&& effect is Finish <==> phase is Finished
            &&& effect is RecordOnce <==> phase is RecordingOnce
            &&& effect is Download <==> phase is Downloading
            &&& effect is Wake <==> phase is Waking
            &&& !(phase is Finished) ==> !failed && !seen
            &&& phase is RecordingOnce ==> events.len() == 0 && message.message_id is Some
            &&& phase is RecordingEvent ==> events =~= heard_new(message)
            &&& phase is Downloading ==> events =~= heard_new(message).push(
                MessageEventView::Recorded,
            )
            &&& phase is Waking ==> events.len() == h + 2 && events.last() is Downloaded
                && events.drop_last() =~= heard_new(message).push(MessageEventView::Recorded)
            &&& phase matches MessagePhaseView::MarkingError { words } ==> events.len() == h + 3
                && events.last() is WakeFailed && was_woken(config, adapter, message, events)
            &&& phase is RecordingError ==> events.len() == h + 4 && was_woken(
                config,
                adapter,
                message,
                events,
            )
            &&& effect == (MessageEffectView::Finish { failed: true }) <==> failed
            &&& phase is Finished ==> failed || events =~= seq![
                MessageEventView::Once { fresh: false },
            ] || was_woken(config, adapter, message, events)
        }),
    decreases events.len(),
{
    if events.len() > 0 {
        let before = events.drop_last();
        phases_agree_with_history(config, adapter, message, before);
        let (phase, effect) = after_events(config, adapter, message, before);
        let last = events.last();
        assert(events =~= before.push(last));
        assert forall|event: MessageEventView| #[trigger] events.contains(event)
            == (before.contains(event) || event == last) by {
            if before.contains(event) {
                let i = choose|i: int| 0 <= i < before.len() && before[i] == event;
                assert(events[i] == event);
            }
            if events.contains(event) && event != last {
                let i = choose|i: int| 0 <= i < events.len() && events[i] == event;
                assert(before[i] == event);
            }
            assert(events[events.len() - 1] == last);
        }
        if effect is Wake {
            assert(events.take(before.len() as int) =~= before);
            assert(was_woken(config, adapter, message, events));
        }
        if was_woken(config, adapter, message, before) {
            let n = choose|n: int|
                0 <= n <= before.len() && after_events(
                    config,
                    adapter,
                    message,
                    #[trigger] before.take(n),
                ).1 is Wake;
            assert(events.take(n) =~= before.take(n));
            assert(was_woken(config, adapter, message, events));
        }
        if phase is RecordingOnce {
            assert(heard_new(message) =~= seq![MessageEventView::Once { fresh: true }]);
        }
    }
}

/// A new message reaches its conversation: where no operation fails, a message
/// whose platform id is new, like one without an id, is noted under that id,
/// recorded as received, its images are fetched, and the conversation is woken
/// with a prompt that shows the message, and with the images that were fetched.
pub proof fn a_new_message_wakes_its_conversation(
    config: AdapterConfig,
    adapter: AdapterRecord,
    message: InboundMessage,
    images: Seq<ImageView>,
)
    ensures
        ({
            let heard = heard_new(message);
            let recorded = heard.push(MessageEventView::Recorded);
            let fetched = recorded.push(MessageEventView::Downloaded { images });
            let woken = fetched.push(MessageEventView::Woken);
            let wake = after_events(config, adapter, message, fetched).1;
            let record = after_events(config, adapter, message, heard).1;
            &&& is_history(config, adapter, message, woken)
            &&& message.message_id matches Some(id) ==> after_events(
                config,
                adapter,
                message,
                Seq::empty(),
            ).1 == (MessageEffectView::RecordOnce { message_id: id@ })
            &&& record is RecordEvent
            &&& record->event_type == AdapterEventType::Inbound
            &&& text::is_within(message.target@, record->summary)
            &&& message.sender matches Some(sender) ==> text::is_within(sender@, record->summary)
            &&& after_events(config, adapter, message, recorded).1 is Download
            &&& wake is Wake
            &&& shows(config, adapter, message, prompt_of(wake->content))
            &&& images_of(wake->content) == images
            &&& after_events(config, adapter, message, woken).1 == (MessageEffectView::Finish {
                failed: false,
            })
        }),
{
    let heard = heard_new(message);
    let recorded = heard.push(MessageEventView::Recorded);
    let fetched = recorded.push(MessageEventView::Downloaded { images });
    let woken = fetched.push(MessageEventView::Woken);
    reveal_with_fuel(after_events, 6);
    reveal_with_fuel(is_history, 6);
    assert(woken.drop_last() =~= fetched);
    assert(fetched.drop_last() =~= recorded);
    assert(recorded.drop_last() =~= heard);
    if message.message_id is Some {
        assert(heard.drop_last() =~= Seq::empty());
        assert(heard.last() == MessageEventView::Once { fresh: true });
    }
    assert(after_events(config, adapter, message, heard) == message_run::recording(
        config,
        message,
    ));
    the_prompt_shows_the_message(
        config,
        adapter,
        message,
        inbound::dm_target_in(json::json(message.metadata)),
        inbound::is_active_thread(json::json(message.metadata)),
        images.len(),
    );
    let sender = inbound::or_else(text::opt_view(message.sender), "unknown"@);
    let kind = config.adapter_type@;
    let summary = inbound::inbound_summary(
        kind,
        text::opt_view(message.sender),
        message.target@,
        message.attachments@.len(),
    );
    let from = kind + " adapter message from "@;
    let to = from + sender + " to "@;
    let rest = summary.skip((from + sender).len() as int);
    let tail = summary.skip((to + message.target@).len() as int);
    assert(summary =~= from + sender + rest);
    text::a_part_is_within(from, sender, rest);
    assert(summary =~= to + message.target@ + tail);
    text::a_part_is_within(to, message.target@, tail);
    assert(images.len() == 0 ==> images =~= Seq::<ImageView>::empty());
}

/// No message is lost: the handling ends without waking the conversation only
/// where the platform id was noted before, or where an operation failed; and it
/// fails only where an operation failed.
pub proof fn a_message_is_dropped_only_if_seen_or_failed(
    config: AdapterConfig,
    adapter: AdapterRecord,
    message: InboundMessage,
    events: Seq<MessageEventView>,
)
    requires
        is_history(config, adapter, message, events),
        after_events(config, adapter, message, events).1 is Finish,
    ensures
        was_woken(config, adapter, message, events) || events.contains(MessageEventView::Failed)
            || events.contains(MessageEventView::Once { fresh: false }),
        after_events(config, adapter, message, events).1 == (MessageEffectView::Finish {
            failed: events.contains(MessageEventView::Failed),
        }),
{
    phases_agree_with_history(config, adapter, message, events);
    if events =~= seq![MessageEventView::Once { fresh: false }] {
        assert(events[0] == MessageEventView::Once { fresh: false });
    }
}

/// A conversation is woken at most once for a message, and only for one that is
/// new and recorded: a wake follows the fetching of the images, which follows
/// the record, and nothing was seen before or has failed.
pub proof fn a_message_wakes_once(
    config: AdapterConfig,
    adapter: AdapterRecord,
    message: InboundMessage,
    events: Seq<MessageEventView>,
)
    requires
        is_history(config, adapter, message, events),
        after_events(config, adapter, message, events).1 is Wake,
    ensures
        events.len() >= 2,
        events[events.len() - 1] is Downloaded,
        events[events.len() - 2] is Recorded,
        events.take(events.len() - 2) == heard_new(message),
        !events.contains(MessageEventView::Once { fresh: false }),
        !events.contains(MessageEventView::Failed),
{
    phases_agree_with_history(config, adapter, message, events);
    let before = events.drop_last();
    assert(before[before.len() - 1] == events[events.len() - 2]);
    assert(events.take(events.len() - 2) =~= heard_new(message)) by {
        assert(before.drop_last() =~= heard_new(message));
        assert(before.drop_last() =~= events.take(events.len() - 2));
    }
}

/// A message that was seen before is over at once: nothing was recorded, fetched
/// or woken before its id was asked for, and nothing is after.
pub proof fn a_seen_message_is_over_at_once(
    config: AdapterConfig,
    adapter: AdapterRecord,
    message: InboundMessage,
    events: Seq<MessageEventView>,
)
    requires
        is_history(config, adapter, message, events),
        events.contains(MessageEventView::Once { fresh: false }),
    ensures
        events == seq![MessageEventView::Once { fresh: false }],
        after_events(config, adapter, message, events).1 == (MessageEffectView::Finish {
            failed: false,
        }),
    decreases events.len(),
{
    phases_agree_with_history(config, adapter, message, events);
    let before = events.drop_last();
    phases_agree_with_history(config, adapter, message, before);
    let i = choose|i: int|
        0 <= i < events.len() && events[i] == MessageEventView::Once { fresh: false };
    if i < before.len() {
        assert(before[i] == MessageEventView::Once { fresh: false });
        a_seen_message_is_over_at_once(config, adapter, message, before);
    }
    assert(events =~= seq![MessageEventView::Once { fresh: false }]);
    reveal_with_fuel(after_events, 2);
}

/// A failed turn is told to the adapter and recorded, in words that end with the
/// error, and then the handling ends well.
pub proof fn a_failed_turn_is_noted(
    config: AdapterConfig,
    adapter: AdapterRecord,
    message: InboundMessage,
    events: Seq<MessageEventView>,
    error: Seq<char>,
)
    requires
        is_history(config, adapter, message, events),
        after_events(config, adapter, message, events).1 is Wake,
    ensures
        ({
            let failed = events.push(MessageEventView::WakeFailed { error });
            let marked = failed.push(MessageEventView::Marked);
            let mark = after_events(config, adapter, message, failed).1;
            let record = after_events(config, adapter, message, marked).1;
            &&& mark is MarkError
            &&& mark->words.len() >= error.len()
            &&& mark->words.skip(mark->words.len() - error.len()) == error
            &&& record == (MessageEffectView::RecordEvent {
                event_type: AdapterEventType::Error,
                summary: mark->words,
            })
            &&& after_events(
                config,
                adapter,
                message,
                marked.push(MessageEventView::Recorded),
            ).1 == (MessageEffectView::Finish { failed: false })
        }),
{
    let failed = events.push(MessageEventView::WakeFailed { error });
    let marked = failed.push(MessageEventView::Marked);
    let recorded = marked.push(MessageEventView::Recorded);
    phases_agree_with_history(config, adapter, message, events);
    reveal_with_fuel(after_events, 4);
    assert(failed.drop_last() =~= events);
    assert(marked.drop_last() =~= failed);
    assert(recorded.drop_last() =~= marked);
    let words = message_run::turn_failure(error);
    assert(words.skip(words.len() - error.len()) =~= error);
}

/// What a message's metadata says matters on Slack alone.
pub proof fn metadata_matters_on_slack_alone(
    config: AdapterConfig,
    adapter: AdapterRecord,
    target: Seq<char>,
    sender: Option<Seq<char>>,
    message: Seq<char>,
    a_dm: Option<Seq<char>>,
    a_active: bool,
    b_dm: Option<Seq<char>>,
    b_active: bool,
    attachments: Seq<AdapterAttachmentView>,
    images: nat,
)
    requires
        config.adapter_type@ != "slack"@,
    ensures
        inbound::inbound_prompt(
            config,
            adapter,
            target,
            sender,
            message,
            a_dm,
            a_active,
            attachments,
            images,
        ) == inbound::inbound_prompt(
            config,
            adapter,
            target,
            sender,
            message,
            b_dm,
            b_active,
            attachments,
            images,
        ),
{
}

/// On Slack, the prompt names where to reach the sender in private, where the
/// metadata says so in its `dmTarget`.
pub proof fn a_slack_prompt_names_the_private_target(
    config: AdapterConfig,
    adapter: AdapterRecord,
    target: Seq<char>,
    sender: Option<Seq<char>>,
    message: Seq<char>,
    fields: Map<Seq<char>, Json>,
    private: Seq<char>,
    attachments: Seq<AdapterAttachmentView>,
    images: nat,
)
    requires
        config.adapter_type@ == "slack"@,
        fields.contains_key("dmTarget"@),
        fields["dmTarget"@] == Json::Text(private),
    ensures
        text::is_within(
            private,
            inbound::inbound_prompt(
                config,
                adapter,
                target,
                sender,
                message,
                inbound::dm_target_in(Json::Object(fields)),
                inbound::is_active_thread(Json::Object(fields)),
                attachments,
                images,
            ),
        ),
{
    let active = inbound::is_active_thread(Json::Object(fields));
    let opening = inbound::message_opening(
        config.adapter_type@,
        target,
        sender,
        adapter.name@,
        message,
    );
    let note = inbound::slack_note(Some(private), active);
    let head = "\n\nSlack sender DM target: `"@;
    let rest = note.skip((head + private).len() as int);
    assert(note =~= head + private + rest);
    text::a_part_is_within(head, private, rest);
    text::parts_stay_within(
        private,
        opening,
        note,
        inbound::attachments_note(attachments, images) + inbound::reply_note(adapter.id@, target),
    );
    assert(opening + note + (inbound::attachments_note(attachments, images) + inbound::reply_note(
        adapter.id@,
        target,
    )) =~= inbound::inbound_prompt(
        config,
        adapter,
        target,
        sender,
        message,
        inbound::dm_target_in(Json::Object(fields)),
        active,
        attachments,
        images,
    ));
}

/// A thread counts as active exactly where the metadata's `isActiveThread` is
/// true.
pub proof fn only_true_marks_an_active_thread(metadata: Json)
    ensures
        inbound::is_active_thread(metadata) <==> (metadata matches Json::Object(fields)
            && fields.contains_key("isActiveThread"@) && fields["isActiveThread"@] == Json::Bool(
            true,
        )),
{
}

} // verus!
