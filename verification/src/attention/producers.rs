//! How the producers' facts become inbox items.

use serde_json::Value;
use vstd::prelude::*;

use super::types::{
    AdapterNative, AdapterNativeView, Attention, InboxItem, InboxItemView, ItemId, NativeContext,
    NativeView, ProducerKind, ProducerRef, ProducerView, SchedulerNative, SchedulerNativeView,
};
use crate::adapter::types::{AdapterAttachment, AdapterRecord};
use crate::json;
use crate::text;

verus! {

/// A scheduled task's fire: one slot of one task, run and ready to report.
#[derive(Debug)]
pub struct ScheduledFireRecord {
    pub task_id: String,
    pub task_name: String,
    pub slot_ms: u64,
    pub run_id: String,
    pub agent_id: String,
    pub conversation_id: String,
    pub prompt: String,
    pub fired_at_ms: u64,
}

/// One inbound platform message, borrowed from whatever the adapter runtime
/// received. The message id is required: without one there is no occurrence to
/// deduplicate on, and the message cannot become an inbox item.
#[derive(Debug, Clone, Copy)]
pub struct AdapterInboundMessage<'a> {
    pub target: &'a str,
    pub sender: Option<&'a str>,
    pub message_id: &'a str,
    pub text: &'a str,
    pub metadata: &'a Value,
    pub attachments: &'a [AdapterAttachment],
}

/// The dedupe key of a fire: task and slot.
pub open spec fn fire_key(task_id: Seq<char>, slot_ms: u64) -> Seq<char> {
    task_id + ":"@ + text::decimal(slot_ms as nat)
}

/// What stands for a character in a part of a key: itself, but for the colon
/// that parts are joined with and the percent sign that escapes it.
pub open spec fn escape(c: char) -> Seq<char> {
    if c == ':' {
        "%3A"@
    } else if c == '%' {
        "%25"@
    } else {
        seq![c]
    }
}

/// A text with its colons escaped.
pub open spec fn escaped(text: Seq<char>) -> Seq<char>
    decreases text.len(),
{
    if text.len() == 0 {
        Seq::empty()
    } else {
        escape(text[0]) + escaped(text.skip(1))
    }
}

/// The dedupe key of an adapter message: adapter, target and message, with the
/// colons escaped in all but the last.
pub open spec fn adapter_key(
    adapter_id: Seq<char>,
    target: Seq<char>,
    message_id: Seq<char>,
) -> Seq<char> {
    escaped(adapter_id) + ":"@ + escaped(target) + ":"@ + message_id
}

/// The dedupe key of a scheduled fire: task and slot. Keyed on the run instead,
/// a redelivery of one slot would become two items.
pub fn fire_dedupe_key(task_id: &str, slot_ms: u64) -> (key: String)
    ensures
        key@ == fire_key(task_id@, slot_ms),
{
    let mut key = task_id.to_string();
    key.append(":");
    text::push_decimal(&mut key, slot_ms);
    key
}

/// Appends a text with its colons escaped.
fn push_escaped(out: &mut String, part: &str)
    ensures
        final(out)@ == old(out)@ + escaped(part@),
{
    let length: usize = part.unicode_len();
    let mut i: usize = 0;
    assert(part@.skip(0) =~= part@);
    while i < length
        invariant
            i <= length,
            length == part@.len(),
            out@ + escaped(part@.skip(i as int)) == old(out)@ + escaped(part@),
        decreases length - i,
    {
        let c = part.get_char(i);
        let ghost before = out@;
        if c == ':' {
            out.append("%3A");
        } else if c == '%' {
            out.append("%25");
        } else {
            out.push(c);
        }
        proof {
            assert(out@ =~= before + escape(c));
            assert(part@.skip(i as int).skip(1) =~= part@.skip(i + 1));
            assert(out@ + escaped(part@.skip(i + 1)) =~= before + escaped(part@.skip(i as int)));
        }
        i += 1;
    }
    assert(out@ =~= out@ + escaped(part@.skip(i as int)));
}

/// The dedupe key of an adapter's inbound message. A platform message id is
/// unique only within its own adapter and target, so the key carries all three,
/// and a colon inside one is kept apart from those between them.
pub fn adapter_dedupe_key(adapter_id: &str, target: &str, message_id: &str) -> (key: String)
    ensures
        key@ == adapter_key(adapter_id@, target@, message_id@),
{
    let mut key = String::new();
    push_escaped(&mut key, adapter_id);
    key.append(":");
    push_escaped(&mut key, target);
    key.append(":");
    key.append(message_id);
    assert(key@ =~= adapter_key(adapter_id@, target@, message_id@));
    key
}

/// The item a fire becomes.
pub open spec fn fire_item(
    fire: ScheduledFireRecord,
    attention: Attention,
    now_ms: u64,
    item_id: ItemId,
) -> InboxItemView {
    InboxItemView {
        item_id,
        conversation_id: fire.conversation_id@,
        producer: ProducerView { kind: ProducerKind::Scheduler, id: fire.task_id@ },
        dedupe_key: fire_key(fire.task_id@, fire.slot_ms),
        attention,
        native: NativeView::Scheduler(
            SchedulerNativeView {
                task_id: fire.task_id@,
                task_name: fire.task_name@,
                slot_ms: fire.slot_ms,
                run_id: fire.run_id@,
                agent_id: fire.agent_id@,
                fired_at_ms: fire.fired_at_ms,
            },
        ),
        prompt: fire.prompt@,
        artifacts: Seq::empty(),
        appended_at_ms: now_ms,
    }
}

/// Maps a scheduled fire onto an inbox item, under a freshly minted id.
///
/// How a task's fires map to attention belongs with the task, so it is the
/// caller's to say. No artifacts: a fire carries its rendered prompt, and
/// redelivery must not run the command again.
pub fn inbox_item_from_fire(
    fire: &ScheduledFireRecord,
    attention: Attention,
    now_ms: u64,
    item_id: ItemId,
) -> (item: InboxItem)
    ensures
        item@ == fire_item(*fire, attention, now_ms, item_id),
{
    let native = SchedulerNative {
        task_id: fire.task_id.clone(),
        task_name: fire.task_name.clone(),
        slot_ms: fire.slot_ms,
        run_id: fire.run_id.clone(),
        agent_id: fire.agent_id.clone(),
        fired_at_ms: fire.fired_at_ms,
    };
    let item = InboxItem {
        item_id,
        conversation_id: fire.conversation_id.clone(),
        producer: ProducerRef { kind: ProducerKind::Scheduler, id: fire.task_id.clone() },
        dedupe_key: fire_dedupe_key(fire.task_id.as_str(), fire.slot_ms),
        attention,
        native: NativeContext::Scheduler(native),
        prompt: fire.prompt.clone(),
        artifacts: Vec::new(),
        appended_at_ms: now_ms,
    };
    assert(item@ =~= fire_item(*fire, attention, now_ms, item_id));
    item
}

/// The item an adapter message becomes.
pub open spec fn adapter_item(
    adapter: AdapterRecord,
    message: AdapterInboundMessage,
    attention: Attention,
    now_ms: u64,
    item_id: ItemId,
) -> InboxItemView {
    InboxItemView {
        item_id,
        conversation_id: adapter.conversation_id@,
        producer: ProducerView { kind: ProducerKind::Adapter, id: adapter.id@ },
        dedupe_key: adapter_key(adapter.id@, message.target@, message.message_id@),
        attention,
        native: NativeView::Adapter(
            AdapterNativeView {
                adapter_id: adapter.id@,
                adapter_type: adapter.config.adapter_type@,
                target: message.target@,
                sender: text::opt_str_view(message.sender),
                message_id: message.message_id@,
                metadata: *message.metadata,
                attachments: crate::adapter::types::attachment_views(message.attachments@),
            },
        ),
        prompt: message.text@,
        artifacts: Seq::empty(),
        appended_at_ms: now_ms,
    }
}

/// Maps an adapter's inbound platform message onto an inbox item, under a
/// freshly minted id. The prompt is the message as the platform sent it.
pub fn inbox_item_from_adapter_message(
    adapter: &AdapterRecord,
    message: AdapterInboundMessage<'_>,
    attention: Attention,
    now_ms: u64,
    item_id: ItemId,
) -> (item: InboxItem)
    ensures
        item@ == adapter_item(*adapter, message, attention, now_ms, item_id),
{
    let native = AdapterNative {
        adapter_id: adapter.id.clone(),
        adapter_type: adapter.config.adapter_type.clone(),
        target: message.target.to_string(),
        sender: text::opt_owned(message.sender),
        message_id: message.message_id.to_string(),
        metadata: json::copy_of(message.metadata),
        attachments: crate::adapter::types::copy_attachments(message.attachments),
    };
    let item = InboxItem {
        item_id,
        conversation_id: adapter.conversation_id.clone(),
        producer: ProducerRef { kind: ProducerKind::Adapter, id: adapter.id.clone() },
        dedupe_key: adapter_dedupe_key(adapter.id.as_str(), message.target, message.message_id),
        attention,
        native: NativeContext::Adapter(native),
        prompt: message.text.to_string(),
        artifacts: Vec::new(),
        appended_at_ms: now_ms,
    };
    assert(item@ =~= adapter_item(*adapter, message, attention, now_ms, item_id));
    item
}

/// A fire's key is its occurrence: two fires share a key exactly where they are
/// of one task and one slot.
pub proof fn fire_keys_are_occurrences(
    a_task: Seq<char>,
    a_slot: u64,
    b_task: Seq<char>,
    b_slot: u64,
)
    ensures
        fire_key(a_task, a_slot) == fire_key(b_task, b_slot) <==> a_task == b_task && a_slot
            == b_slot,
{
    let a = text::decimal(a_slot as nat);
    let b = text::decimal(b_slot as nat);
    reveal_strlit(":");
    if fire_key(a_task, a_slot) == fire_key(b_task, b_slot) {
        assert(fire_key(a_task, a_slot) =~= a_task.push(':') + a);
        assert(fire_key(b_task, b_slot) =~= b_task.push(':') + b);
        text::decimal_has_no(a_slot as nat, ':');
        text::decimal_has_no(b_slot as nat, ':');
        text::split_by_the_tail(a_task, a, b_task, b, ':');
        text::decimal_is_injective(a_slot as nat, b_slot as nat);
    }
}

/// No colon is left in an escaped text.
proof fn escaped_text_has_no_colon(part: Seq<char>)
    ensures
        text::count(escaped(part), ':') == 0,
    decreases part.len(),
{
    if part.len() > 0 {
        let head = escape(part[0]);
        let rest = escaped(part.skip(1));
        escaped_text_has_no_colon(part.skip(1));
        text::count_of_a_sum(head, rest, ':');
        reveal_strlit("%3A");
        reveal_strlit("%25");
        reveal_with_fuel(text::count, 4);
    }
}

/// Different texts are different once escaped.
proof fn escaping_keeps_texts_apart(a: Seq<char>, b: Seq<char>)
    requires
        escaped(a) == escaped(b),
    ensures
        a == b,
    decreases a.len(),
{
    reveal_strlit("%3A");
    reveal_strlit("%25");
    if a.len() == 0 || b.len() == 0 {
        if a.len() > 0 {
            assert(escaped(a)[0] == escape(a[0])[0]);
        }
        if b.len() > 0 {
            assert(escaped(b)[0] == escape(b[0])[0]);
        }
        assert(a =~= b);
    } else {
        let a_rest = escaped(a.skip(1));
        let b_rest = escaped(b.skip(1));
        assert(escaped(a)[0] == escape(a[0])[0]);
        assert(escaped(b)[0] == escape(b[0])[0]);
        if a[0] == ':' || a[0] == '%' {
            assert(escaped(a)[2] == escape(a[0])[2]);
            assert(escaped(b)[2] == escape(b[0])[2]);
        }
        assert(a[0] == b[0]);
        assert(escaped(a).skip(escape(a[0]).len() as int) =~= a_rest);
        assert(escaped(b).skip(escape(b[0]).len() as int) =~= b_rest);
        escaping_keeps_texts_apart(a.skip(1), b.skip(1));
        assert(a =~= seq![a[0]] + a.skip(1));
        assert(b =~= seq![b[0]] + b.skip(1));
    }
}

/// An adapter message's key is its occurrence: two messages share a key exactly
/// where adapter, target and message id are all the same.
pub proof fn adapter_keys_are_occurrences(
    a_adapter: Seq<char>,
    a_target: Seq<char>,
    a_message: Seq<char>,
    b_adapter: Seq<char>,
    b_target: Seq<char>,
    b_message: Seq<char>,
)
    ensures
        adapter_key(a_adapter, a_target, a_message) == adapter_key(b_adapter, b_target, b_message)
            <==> a_adapter == b_adapter && a_target == b_target && a_message == b_message,
{
    let a = adapter_key(a_adapter, a_target, a_message);
    let b = adapter_key(b_adapter, b_target, b_message);
    reveal_strlit(":");
    if a == b {
        let a_head = escaped(a_adapter);
        let b_head = escaped(b_adapter);
        let a_middle = escaped(a_target);
        let b_middle = escaped(b_target);
        let a_rest = a_middle.push(':') + a_message;
        let b_rest = b_middle.push(':') + b_message;
        assert(a =~= a_head.push(':') + a_rest);
        assert(b =~= b_head.push(':') + b_rest);
        escaped_text_has_no_colon(a_adapter);
        escaped_text_has_no_colon(b_adapter);
        escaped_text_has_no_colon(a_target);
        escaped_text_has_no_colon(b_target);
        text::split_by_the_head(a_head, a_rest, b_head, b_rest, ':');
        text::split_by_the_head(a_middle, a_message, b_middle, b_message, ':');
        escaping_keeps_texts_apart(a_adapter, b_adapter);
        escaping_keeps_texts_apart(a_target, b_target);
    }
}

/// A key without a colon or a percent sign in adapter and target is the three
/// parts as they are, with colons between.
pub proof fn plain_keys_are_their_parts(
    adapter_id: Seq<char>,
    target: Seq<char>,
    message_id: Seq<char>,
)
    requires
        !adapter_id.contains(':') && !adapter_id.contains('%'),
        !target.contains(':') && !target.contains('%'),
    ensures
        adapter_key(adapter_id, target, message_id) == adapter_id + ":"@ + target + ":"@
            + message_id,
{
    plain_text_needs_no_escape(adapter_id);
    plain_text_needs_no_escape(target);
}

/// A text without a colon or a percent sign is kept as it is.
proof fn plain_text_needs_no_escape(part: Seq<char>)
    requires
        !part.contains(':') && !part.contains('%'),
    ensures
        escaped(part) == part,
    decreases part.len(),
{
    if part.len() > 0 {
        let rest = part.skip(1);
        assert(part.contains(part[0]));
        assert forall|c: char| #[trigger] rest.contains(c) implies part.contains(c) by {
            let i = choose|i: int| 0 <= i < rest.len() && rest[i] == c;
            assert(part[i + 1] == c);
        }
        plain_text_needs_no_escape(rest);
    }
    assert(escaped(part) =~= part);
}

/// A redelivered fire is the same fact: its item has the key and conversation
/// of the first, whenever it is appended and whatever its id.
pub proof fn a_redelivered_fire_is_the_same_fact(
    fire: ScheduledFireRecord,
    again: ScheduledFireRecord,
    first_attention: Attention,
    again_attention: Attention,
    first_ms: u64,
    again_ms: u64,
    first_id: ItemId,
    again_id: ItemId,
)
    requires
        again.task_id@ == fire.task_id@,
        again.slot_ms == fire.slot_ms,
        again.conversation_id@ == fire.conversation_id@,
    ensures
        fire_item(again, again_attention, again_ms, again_id).dedupe_key == fire_item(
            fire,
            first_attention,
            first_ms,
            first_id,
        ).dedupe_key,
        fire_item(again, again_attention, again_ms, again_id).conversation_id == fire_item(
            fire,
            first_attention,
            first_ms,
            first_id,
        ).conversation_id,
{
}

} // verus!
