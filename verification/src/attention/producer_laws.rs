//! What becomes of a producer's facts, field by field.

use vstd::prelude::*;

use super::producers::{self, AdapterInboundMessage, ScheduledFireRecord};
use super::types::{Attention, ItemId, NativeView};
use crate::adapter::types::AdapterRecord;
use crate::text;

verus! {

/// A fire's item carries everything the fire does: it goes to the fire's
/// conversation with the fire's prompt, is of its task and slot, and keeps the
/// rest as context. It arrives when it is appended, not when it fired.
pub proof fn a_fire_becomes_its_item(
    fire: ScheduledFireRecord,
    attention: Attention,
    now_ms: u64,
    item_id: ItemId,
)
    ensures
        ({
            let item = producers::fire_item(fire, attention, now_ms, item_id);
            &&& item.item_id == item_id
            &&& item.conversation_id == fire.conversation_id@
            &&& item.producer.kind is Scheduler
            &&& item.producer.id == fire.task_id@
            &&& item.dedupe_key == fire.task_id@ + ":"@ + text::decimal(fire.slot_ms as nat)
            &&& item.attention == attention
            &&& item.prompt == fire.prompt@
            &&& item.artifacts.len() == 0
            &&& item.appended_at_ms == now_ms
            &&& item.native matches NativeView::Scheduler(native) && native.task_id
                == fire.task_id@ && native.task_name == fire.task_name@ && native.slot_ms
                == fire.slot_ms && native.run_id == fire.run_id@ && native.agent_id
                == fire.agent_id@ && native.fired_at_ms == fire.fired_at_ms
        }),
{
}

/// A message's item carries everything the message does: it goes to the
/// adapter's conversation with the text as it was sent, is of its adapter,
/// target and message id, and keeps the rest as context.
pub proof fn a_message_becomes_its_item(
    adapter: AdapterRecord,
    message: AdapterInboundMessage,
    attention: Attention,
    now_ms: u64,
    item_id: ItemId,
)
    ensures
        ({
            let item = producers::adapter_item(adapter, message, attention, now_ms, item_id);
            &&& item.item_id == item_id
            &&& item.conversation_id == adapter.conversation_id@
            &&& item.producer.kind is Adapter
            &&& item.producer.id == adapter.id@
            &&& item.dedupe_key == producers::adapter_key(
                adapter.id@,
                message.target@,
                message.message_id@,
            )
            &&& item.attention == attention
            &&& item.prompt == message.text@
            &&& item.artifacts.len() == 0
            &&& item.appended_at_ms == now_ms
            &&& item.native matches NativeView::Adapter(native) && native.adapter_id
                == adapter.id@ && native.adapter_type == adapter.config.adapter_type@
                && native.target == message.target@ && native.message_id == message.message_id@
                && native.metadata == *message.metadata && (match message.sender {
                Some(sender) => native.sender == Some(sender@),
                None => native.sender is None,
            }) && native.attachments.len() == message.attachments@.len() && (forall|i: int|
                0 <= i < message.attachments@.len() ==> #[trigger] native.attachments[i]
                    == message.attachments@[i]@)
        }),
{
}

/// A redelivered message is the same fact: its item has the key and the
/// conversation of the first, whenever it is appended and whatever its id; a
/// message with another id, at another target or of another adapter is another.
pub proof fn a_redelivered_message_is_the_same_fact(
    adapter: AdapterRecord,
    message: AdapterInboundMessage,
    other: AdapterRecord,
    again: AdapterInboundMessage,
    attention: Attention,
    first_ms: u64,
    again_ms: u64,
    first_id: ItemId,
    again_id: ItemId,
)
    ensures
        ({
            let first = producers::adapter_item(adapter, message, attention, first_ms, first_id);
            let second = producers::adapter_item(other, again, attention, again_ms, again_id);
            first.dedupe_key == second.dedupe_key <==> adapter.id@ == other.id@ && message.target@
                == again.target@ && message.message_id@ == again.message_id@
        }),
{
    producers::adapter_keys_are_occurrences(
        adapter.id@,
        message.target@,
        message.message_id@,
        other.id@,
        again.target@,
        again.message_id@,
    );
}

} // verus!
