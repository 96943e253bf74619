//! Inbox items: what has happened and is owed the agent's attention.

use serde_json::Value;
use vstd::prelude::*;

use crate::adapter::types::{AdapterAttachment, AdapterAttachmentView};
use crate::ids::Uuid7;
use crate::json;
use crate::text;

verus! {

/// Identity of an inbox item, minted at append, so that ordering items by it is
/// ordering them by when they were minted.
pub type ItemId = Uuid7;

/// Who appended an item. A human arrives by way of an adapter, so there is no
/// kind for one.
#[derive(Debug, Clone, Copy, PartialEq, Eq, Structural)]
pub enum ProducerKind {
    Scheduler,
    Adapter,
    Agent,
}

/// The producer that appended an item, and which one of its kind.
#[derive(Debug)]
pub struct ProducerRef {
    pub kind: ProducerKind,
    /// Producer-scoped id: the task id for a fire, the adapter id for an
    /// inbound message.
    pub id: String,
}

/// What the runtime may mechanically do with a pending item. This is not a
/// rank: whatever else a producer means by priority stays in
/// [`InboxItem::native`], which the agent reads and the runtime never
/// interprets.
#[derive(Debug, Clone, Copy, PartialEq, Eq, Structural)]
pub enum Attention {
    /// May enter a running turn at its next round boundary.
    Interrupt,
    /// Opens a turn when the conversation is quiescent, first in first out
    /// among its peers.
    Wake,
    /// Held for coalescing: flushed with the next turn, or on its own once
    /// `max_wait_ms` has elapsed since the item was appended.
    Batch { max_wait_ms: u64 },
}

/// A conversation artifact an item's payload refers to.
#[derive(Debug)]
pub struct ArtifactRef {
    pub id: String,
}

/// A scheduled fire's own context, kept for the agent: which task fired, for
/// which slot, and how late.
#[derive(Debug)]
pub struct SchedulerNative {
    pub task_id: String,
    pub task_name: String,
    pub slot_ms: u64,
    pub run_id: String,
    pub agent_id: String,
    /// When the fire happened, as against [`InboxItem::appended_at_ms`].
    pub fired_at_ms: u64,
}

/// An adapter message's own context, kept for the agent: which adapter, which
/// platform target, who sent it, and what the platform attached.
#[derive(Debug)]
pub struct AdapterNative {
    pub adapter_id: String,
    pub adapter_type: String,
    pub target: String,
    pub sender: Option<String>,
    pub message_id: String,
    pub metadata: Value,
    pub attachments: Vec<AdapterAttachment>,
}

/// Producer-native context. It travels opaquely: nothing here reads it.
#[derive(Debug)]
pub enum NativeContext {
    /// Context already in the form it is stored in.
    Opaque(Value),
    Scheduler(SchedulerNative),
    Adapter(AdapterNative),
}

/// One thing that has happened and is owed the agent's attention.
///
/// Identity is the logical fact, not a delivery attempt: two appends of the
/// same fact carry the same `dedupe_key` and collapse to one item.
#[derive(Debug)]
pub struct InboxItem {
    pub item_id: ItemId,
    pub conversation_id: String,
    pub producer: ProducerRef,
    /// Key of one occurrence: task and slot for a scheduled fire, the platform
    /// message for adapter inbound.
    pub dedupe_key: String,
    pub attention: Attention,
    pub native: NativeContext,
    /// Rendered payload: the fire's report prompt, the message text.
    pub prompt: String,
    pub artifacts: Vec<ArtifactRef>,
    /// When the item entered the inbox. Drain order is append order.
    pub appended_at_ms: u64,
}

/// Where an item is in the drain lifecycle. Exactly-once delivery to the agent
/// is these transitions and nothing else.
#[derive(Debug)]
pub enum InboxItemStatus {
    Pending,
    /// A turn was opened over the item.
    Drained { turn_ref: String },
    /// That turn committed.
    Acknowledged { turn_ref: String },
}

/// Outcome of an append. On a duplicate, `item_id` is the id of the item
/// already in the inbox.
#[derive(Debug, Clone, Copy, PartialEq, Eq, Structural)]
pub struct AppendOutcome {
    pub item_id: ItemId,
    /// The conversation already held the key and the append changed nothing.
    pub deduplicated: bool,
}

/// A held per-conversation dispatch lease: the right to be the one dispatcher
/// deciding for this conversation.
#[derive(Debug)]
pub struct DispatchLease {
    pub conversation_id: String,
    /// Fencing token, minted per acquisition, so that a renew or release left
    /// over from an earlier acquisition cannot touch the live lease.
    pub token: String,
}

/// The contents of a [`ProducerRef`].
#[verifier::ext_equal]
pub struct ProducerView {
    pub kind: ProducerKind,
    pub id: Seq<char>,
}

/// The contents of a [`SchedulerNative`].
#[verifier::ext_equal]
pub struct SchedulerNativeView {
    pub task_id: Seq<char>,
    pub task_name: Seq<char>,
    pub slot_ms: u64,
    pub run_id: Seq<char>,
    pub agent_id: Seq<char>,
    pub fired_at_ms: u64,
}

/// The contents of an [`AdapterNative`].
#[verifier::ext_equal]
pub struct AdapterNativeView {
    pub adapter_id: Seq<char>,
    pub adapter_type: Seq<char>,
    pub target: Seq<char>,
    pub sender: Option<Seq<char>>,
    pub message_id: Seq<char>,
    pub metadata: Value,
    pub attachments: Seq<AdapterAttachmentView>,
}

/// The contents of a [`NativeContext`].
#[verifier::ext_equal]
pub enum NativeView {
    Opaque(Value),
    Scheduler(SchedulerNativeView),
    Adapter(AdapterNativeView),
}

/// The contents of an [`InboxItem`].
#[verifier::ext_equal]
pub struct InboxItemView {
    pub item_id: ItemId,
    pub conversation_id: Seq<char>,
    pub producer: ProducerView,
    pub dedupe_key: Seq<char>,
    pub attention: Attention,
    pub native: NativeView,
    pub prompt: Seq<char>,
    pub artifacts: Seq<Seq<char>>,
    pub appended_at_ms: u64,
}

/// The contents of an [`InboxItemStatus`].
#[verifier::ext_equal]
pub enum StatusView {
    Pending,
    Drained { turn_ref: Seq<char> },
    Acknowledged { turn_ref: Seq<char> },
}

/// The contents of a [`DispatchLease`].
#[verifier::ext_equal]
pub struct LeaseView {
    pub conversation_id: Seq<char>,
    pub token: Seq<char>,
}

impl View for ProducerRef {
    type V = ProducerView;

    open spec fn view(&self) -> ProducerView {
        ProducerView { kind: self.kind, id: self.id@ }
    }
}

impl View for SchedulerNative {
    type V = SchedulerNativeView;

    open spec fn view(&self) -> SchedulerNativeView {
        SchedulerNativeView {
            task_id: self.task_id@,
            task_name: self.task_name@,
            slot_ms: self.slot_ms,
            run_id: self.run_id@,
            agent_id: self.agent_id@,
            fired_at_ms: self.fired_at_ms,
        }
    }
}

impl View for AdapterNative {
    type V = AdapterNativeView;

    open spec fn view(&self) -> AdapterNativeView {
        AdapterNativeView {
            adapter_id: self.adapter_id@,
            adapter_type: self.adapter_type@,
            target: self.target@,
            sender: text::opt_view(self.sender),
            message_id: self.message_id@,
            metadata: self.metadata,
            attachments: crate::adapter::types::attachment_views(self.attachments@),
        }
    }
}

impl View for NativeContext {
    type V = NativeView;

    open spec fn view(&self) -> NativeView {
        match *self {
            NativeContext::Opaque(value) => NativeView::Opaque(value),
            NativeContext::Scheduler(native) => NativeView::Scheduler(native@),
            NativeContext::Adapter(native) => NativeView::Adapter(native@),
        }
    }
}

/// The ids of a run of artifacts.
pub open spec fn artifact_ids(artifacts: Seq<ArtifactRef>) -> Seq<Seq<char>> {
    artifacts.map_values(|artifact: ArtifactRef| artifact.id@)
}

impl View for InboxItem {
    type V = InboxItemView;

    open spec fn view(&self) -> InboxItemView {
        InboxItemView {
            item_id: self.item_id,
            conversation_id: self.conversation_id@,
            producer: self.producer@,
            dedupe_key: self.dedupe_key@,
            attention: self.attention,
            native: self.native@,
            prompt: self.prompt@,
            artifacts: artifact_ids(self.artifacts@),
            appended_at_ms: self.appended_at_ms,
        }
    }
}

impl View for InboxItemStatus {
    type V = StatusView;

    open spec fn view(&self) -> StatusView {
        match *self {
            InboxItemStatus::Pending => StatusView::Pending,
            InboxItemStatus::Drained { turn_ref } => StatusView::Drained { turn_ref: turn_ref@ },
            InboxItemStatus::Acknowledged { turn_ref } => StatusView::Acknowledged {
                turn_ref: turn_ref@,
            },
        }
    }
}

impl View for DispatchLease {
    type V = LeaseView;

    open spec fn view(&self) -> LeaseView {
        LeaseView { conversation_id: self.conversation_id@, token: self.token@ }
    }
}

/// The contents of a run of items.
pub open spec fn item_views(items: Seq<InboxItem>) -> Seq<InboxItemView> {
    items.map_values(|item: InboxItem| item@)
}

/// The ids of a run of items.
pub open spec fn item_ids(items: Seq<InboxItemView>) -> Seq<ItemId> {
    items.map_values(|item: InboxItemView| item.item_id)
}

impl Clone for ProducerRef {
    fn clone(&self) -> (copy: Self)
        ensures
            copy@ == self@,
    {
        ProducerRef { kind: self.kind, id: self.id.clone() }
    }
}

impl Clone for SchedulerNative {
    fn clone(&self) -> (copy: Self)
        ensures
            copy@ == self@,
    {
        SchedulerNative {
            task_id: self.task_id.clone(),
            task_name: self.task_name.clone(),
            slot_ms: self.slot_ms,
            run_id: self.run_id.clone(),
            agent_id: self.agent_id.clone(),
            fired_at_ms: self.fired_at_ms,
        }
    }
}

impl Clone for AdapterNative {
    fn clone(&self) -> (copy: Self)
        ensures
            copy@ == self@,
    {
        AdapterNative {
            adapter_id: self.adapter_id.clone(),
            adapter_type: self.adapter_type.clone(),
            target: self.target.clone(),
            sender: text::opt_copy(&self.sender),
            message_id: self.message_id.clone(),
            metadata: json::copy_of(&self.metadata),
            attachments: crate::adapter::types::copy_attachments(self.attachments.as_slice()),
        }
    }
}

impl Clone for NativeContext {
    fn clone(&self) -> (copy: Self)
        ensures
            copy@ == self@,
    {
        match self {
            NativeContext::Opaque(value) => NativeContext::Opaque(json::copy_of(value)),
            NativeContext::Scheduler(native) => NativeContext::Scheduler(native.clone()),
            NativeContext::Adapter(native) => NativeContext::Adapter(native.clone()),
        }
    }
}

/// An owned copy of a run of artifacts.
fn copy_artifacts(artifacts: &Vec<ArtifactRef>) -> (copies: Vec<ArtifactRef>)
    ensures
        artifact_ids(copies@) == artifact_ids(artifacts@),
{
    let mut copies: Vec<ArtifactRef> = Vec::new();
    let mut i: usize = 0;
    while i < artifacts.len()
        invariant
            i <= artifacts.len(),
            copies.len() == i,
            forall|j: int| 0 <= j < i ==> (#[trigger] copies@[j]).id@ == artifacts@[j].id@,
        decreases artifacts.len() - i,
    {
        copies.push(ArtifactRef { id: artifacts[i].id.clone() });
        i += 1;
    }
    assert(artifact_ids(copies@) =~= artifact_ids(artifacts@));
    copies
}

impl Clone for InboxItem {
    fn clone(&self) -> (copy: Self)
        ensures
            copy@ == self@,
    {
        InboxItem {
            item_id: self.item_id,
            conversation_id: self.conversation_id.clone(),
            producer: self.producer.clone(),
            dedupe_key: self.dedupe_key.clone(),
            attention: self.attention,
            native: self.native.clone(),
            prompt: self.prompt.clone(),
            artifacts: copy_artifacts(&self.artifacts),
            appended_at_ms: self.appended_at_ms,
        }
    }
}

impl Clone for InboxItemStatus {
    fn clone(&self) -> (copy: Self)
        ensures
            copy@ == self@,
    {
        match self {
            InboxItemStatus::Pending => InboxItemStatus::Pending,
            InboxItemStatus::Drained { turn_ref } => InboxItemStatus::Drained {
                turn_ref: turn_ref.clone(),
            },
            InboxItemStatus::Acknowledged { turn_ref } => InboxItemStatus::Acknowledged {
                turn_ref: turn_ref.clone(),
            },
        }
    }
}

impl Clone for DispatchLease {
    fn clone(&self) -> (copy: Self)
        ensures
            copy@ == self@,
    {
        DispatchLease { conversation_id: self.conversation_id.clone(), token: self.token.clone() }
    }
}

} // verus!
