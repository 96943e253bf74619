//! What the views of inbox items, their states and leases show.

use vstd::prelude::*;

use super::backend::StoredItem;
use super::types::{
    AdapterNative, ArtifactRef, DispatchLease, InboxItem, InboxItemStatus, InboxItemView,
    NativeContext, ProducerRef, SchedulerNative,
};
use crate::adapter::outbound_laws;
use crate::text;

verus! {

/// Whether two producers are the same.
pub open spec fn same_producer(a: ProducerRef, b: ProducerRef) -> bool {
    a.kind == b.kind && a.id@ == b.id@
}

/// Whether two fires' contexts are the same, field by field.
pub open spec fn same_fire(a: SchedulerNative, b: SchedulerNative) -> bool {
    &&& a.task_id@ == b.task_id@
    &&& a.task_name@ == b.task_name@
    &&& a.slot_ms == b.slot_ms
    &&& a.run_id@ == b.run_id@
    &&& a.agent_id@ == b.agent_id@
    &&& a.fired_at_ms == b.fired_at_ms
}

/// Whether two messages' contexts are the same, field by field.
pub open spec fn same_message(a: AdapterNative, b: AdapterNative) -> bool {
    &&& a.adapter_id@ == b.adapter_id@
    &&& a.adapter_type@ == b.adapter_type@
    &&& a.target@ == b.target@
    &&& text::same_opt(a.sender, b.sender)
    &&& a.message_id@ == b.message_id@
    &&& a.metadata == b.metadata
    &&& outbound_laws::same_attachments(a.attachments@, b.attachments@)
}

/// Whether two items carry the same context.
pub open spec fn same_native(a: NativeContext, b: NativeContext) -> bool {
    match (a, b) {
        (NativeContext::Opaque(x), NativeContext::Opaque(y)) => x == y,
        (NativeContext::Scheduler(x), NativeContext::Scheduler(y)) => same_fire(x, y),
        (NativeContext::Adapter(x), NativeContext::Adapter(y)) => same_message(x, y),
        _ => false,
    }
}

/// Whether two items refer to the same artifacts.
pub open spec fn same_artifacts(a: Seq<ArtifactRef>, b: Seq<ArtifactRef>) -> bool {
    a.len() == b.len() && forall|i: int| 0 <= i < a.len() ==> (#[trigger] a[i]).id@ == b[i].id@
}

/// Whether two items are the same, field by field.
pub open spec fn same_item(a: InboxItem, b: InboxItem) -> bool {
    &&& a.item_id == b.item_id
    &&& a.conversation_id@ == b.conversation_id@
    &&& same_producer(a.producer, b.producer)
    &&& a.dedupe_key@ == b.dedupe_key@
    &&& a.attention == b.attention
    &&& same_native(a.native, b.native)
    &&& a.prompt@ == b.prompt@
    &&& same_artifacts(a.artifacts@, b.artifacts@)
    &&& a.appended_at_ms == b.appended_at_ms
}

/// Whether two items are as far along, in the same turn.
pub open spec fn same_status(a: InboxItemStatus, b: InboxItemStatus) -> bool {
    match (a, b) {
        (InboxItemStatus::Pending, InboxItemStatus::Pending) => true,
        (
            InboxItemStatus::Drained { turn_ref: x },
            InboxItemStatus::Drained { turn_ref: y },
        ) => x@ == y@,
        (
            InboxItemStatus::Acknowledged { turn_ref: x },
            InboxItemStatus::Acknowledged { turn_ref: y },
        ) => x@ == y@,
        _ => false,
    }
}

/// An item's view shows every field of it: two items with one view, such as an
/// item and its copy, are the same field by field.
pub proof fn an_item_shows_every_field(a: InboxItem, b: InboxItem)
    requires
        a@ == b@,
    ensures
        same_item(a, b),
{
    a_context_shows_every_field(a.native, b.native);
    artifacts_are_told_by_their_ids(a.artifacts@, b.artifacts@);
}

/// A context's view shows every field of it.
pub proof fn a_context_shows_every_field(a: NativeContext, b: NativeContext)
    requires
        a@ == b@,
    ensures
        same_native(a, b),
{
    match (a, b) {
        (NativeContext::Adapter(x), NativeContext::Adapter(y)) => {
            outbound_laws::copied_attachments_keep_every_field(x.attachments@, y.attachments@);
        },
        _ => {},
    }
}

/// Artifacts are told apart by their ids, in order.
proof fn artifacts_are_told_by_their_ids(a: Seq<ArtifactRef>, b: Seq<ArtifactRef>)
    requires
        super::types::artifact_ids(a) == super::types::artifact_ids(b),
    ensures
        same_artifacts(a, b),
{
    let x = super::types::artifact_ids(a);
    let y = super::types::artifact_ids(b);
    assert(x.len() == a.len() && y.len() == b.len());
    assert forall|i: int| 0 <= i < a.len() implies (#[trigger] a[i]).id@ == b[i].id@ by {
        assert(x[i] == y[i]);
    }
}

/// The views that the decisions read are the items' own fields.
pub proof fn an_item_is_read_as_it_is(item: InboxItem)
    ensures
        item@.item_id == item.item_id,
        item@.conversation_id == item.conversation_id@,
        item@.dedupe_key == item.dedupe_key@,
        item@.attention == item.attention,
        item@.prompt == item.prompt@,
        item@.appended_at_ms == item.appended_at_ms,
        item@.producer.kind == item.producer.kind,
        item@.producer.id == item.producer.id@,
{
}

/// A stored item's view shows the item and how far along it is.
pub proof fn a_stored_item_shows_every_field(a: StoredItem, b: StoredItem)
    requires
        a@ == b@,
    ensures
        same_item(a.item, b.item),
        same_status(a.status, b.status),
        a@.item == a.item@,
        a@.status == a.status@,
        a@.status is Pending <==> a.status is Pending,
        a@.status is Drained <==> a.status is Drained,
{
    an_item_shows_every_field(a.item, b.item);
}

/// A lease's view shows its conversation and its token.
pub proof fn a_lease_shows_every_field(lease: DispatchLease)
    ensures
        lease@.conversation_id == lease.conversation_id@,
        lease@.token == lease.token@,
{
}

/// The ids of a run of items are theirs, one for one and in order.
pub proof fn ids_are_those_of_the_items(items: Seq<InboxItemView>)
    ensures
        super::types::item_ids(items).len() == items.len(),
        forall|k: int|
            0 <= k < items.len() ==> #[trigger] super::types::item_ids(items)[k]
                == items[k].item_id,
{
}

/// The contents of a run of items are theirs, one for one and in order.
pub proof fn contents_are_those_of_the_items(items: Seq<InboxItem>)
    ensures
        super::types::item_views(items).len() == items.len(),
        forall|k: int|
            0 <= k < items.len() ==> #[trigger] super::types::item_views(items)[k] == items[k]@,
{
}

} // verus!
