//! The process-local attention backend: idempotent append, the drain
//! lifecycle, and one dispatch lease per conversation.

use vstd::prelude::*;

use super::dispatcher;
use super::types::{
    AppendOutcome, DispatchLease, InboxItem, InboxItemStatus, InboxItemView, ItemId, LeaseView,
    StatusView,
};
use crate::text;

verus! {

/// An item and where it is in the drain lifecycle.
#[derive(Debug)]
pub struct StoredItem {
    pub item: InboxItem,
    pub status: InboxItemStatus,
}

/// The contents of a [`StoredItem`].
#[verifier::ext_equal]
pub struct StoredView {
    pub item: InboxItemView,
    pub status: StatusView,
}

impl View for StoredItem {
    type V = StoredView;

    open spec fn view(&self) -> StoredView {
        StoredView { item: self.item@, status: self.status@ }
    }
}

/// What a backend holds: its items in append order, and for each leased
/// conversation the token of the live lease.
#[verifier::ext_equal]
pub struct BackendView {
    pub items: Seq<StoredView>,
    pub leases: Map<Seq<char>, Seq<char>>,
}

/// Whether a stored item claims the key `dedupe_key` of `conversation_id`.
pub open spec fn claims(
    stored: StoredView,
    conversation_id: Seq<char>,
    dedupe_key: Seq<char>,
) -> bool {
    stored.item.conversation_id == conversation_id && stored.item.dedupe_key == dedupe_key
}

/// Whether some item claims the key.
pub open spec fn is_claimed(
    items: Seq<StoredView>,
    conversation_id: Seq<char>,
    dedupe_key: Seq<char>,
) -> bool {
    exists|i: int| 0 <= i < items.len() && #[trigger] claims(items[i], conversation_id, dedupe_key)
}

/// The item that claims the key, where one does.
pub open spec fn claimant(
    items: Seq<StoredView>,
    conversation_id: Seq<char>,
    dedupe_key: Seq<char>,
) -> int {
    choose|i: int| 0 <= i < items.len() && #[trigger] claims(items[i], conversation_id, dedupe_key)
}

/// What an append leaves: the item at the end and pending, or nothing changed
/// where its key is claimed.
pub open spec fn appended(held: BackendView, item: InboxItemView) -> BackendView {
    if is_claimed(held.items, item.conversation_id, item.dedupe_key) {
        held
    } else {
        BackendView {
            items: held.items.push(StoredView { item, status: StatusView::Pending }),
            leases: held.leases,
        }
    }
}

/// What an append reports: the item now in the inbox under the key, and whether
/// it was there already.
pub open spec fn append_outcome(held: BackendView, item: InboxItemView) -> AppendOutcome {
    if is_claimed(held.items, item.conversation_id, item.dedupe_key) {
        AppendOutcome {
            item_id: held.items[claimant(
                held.items,
                item.conversation_id,
                item.dedupe_key,
            )].item.item_id,
            deduplicated: true,
        }
    } else {
        AppendOutcome { item_id: item.item_id, deduplicated: false }
    }
}

/// Whether an item is pending in a conversation.
pub open spec fn is_pending(stored: StoredView, conversation_id: Seq<char>) -> bool {
    stored.item.conversation_id == conversation_id && stored.status is Pending
}

/// A conversation's pending items in append order.
pub open spec fn pending_of(
    items: Seq<StoredView>,
    conversation_id: Seq<char>,
) -> Seq<InboxItemView> {
    items.filter(|stored: StoredView| is_pending(stored, conversation_id)).map_values(
        |stored: StoredView| stored.item,
    )
}

/// Whether a drain over `ids` moves an item.
pub open spec fn drains(stored: StoredView, ids: Seq<ItemId>) -> bool {
    ids.contains(stored.item.item_id) && stored.status is Pending
}

/// An item after a drain over `ids` into `turn_ref`.
pub open spec fn after_drain(
    stored: StoredView,
    ids: Seq<ItemId>,
    turn_ref: Seq<char>,
) -> StoredView {
    if drains(stored, ids) {
        StoredView { item: stored.item, status: StatusView::Drained { turn_ref } }
    } else {
        stored
    }
}

/// What a drain leaves.
pub open spec fn drained(held: BackendView, ids: Seq<ItemId>, turn_ref: Seq<char>) -> BackendView {
    BackendView {
        items: held.items.map_values(|stored: StoredView| after_drain(stored, ids, turn_ref)),
        leases: held.leases,
    }
}

/// What a drain reports: the ids it moved.
pub open spec fn drained_ids(items: Seq<StoredView>, ids: Seq<ItemId>) -> Seq<ItemId> {
    items.filter(|stored: StoredView| drains(stored, ids)).map_values(
        |stored: StoredView| stored.item.item_id,
    )
}

/// Whether an acknowledgement of `ids` moves an item.
pub open spec fn acknowledges(stored: StoredView, ids: Seq<ItemId>) -> bool {
    ids.contains(stored.item.item_id) && stored.status is Drained
}

/// An item after an acknowledgement of `ids`: the turn stays the one it was
/// drained into.
pub open spec fn after_acknowledge(stored: StoredView, ids: Seq<ItemId>) -> StoredView {
    match stored.status {
        StatusView::Drained { turn_ref } if ids.contains(stored.item.item_id) => StoredView {
            item: stored.item,
            status: StatusView::Acknowledged { turn_ref },
        },
        _ => stored,
    }
}

/// What an acknowledgement leaves.
pub open spec fn acknowledged(held: BackendView, ids: Seq<ItemId>) -> BackendView {
    BackendView {
        items: held.items.map_values(|stored: StoredView| after_acknowledge(stored, ids)),
        leases: held.leases,
    }
}

/// What an acknowledgement reports: the ids it moved.
pub open spec fn acknowledged_ids(items: Seq<StoredView>, ids: Seq<ItemId>) -> Seq<ItemId> {
    items.filter(|stored: StoredView| acknowledges(stored, ids)).map_values(
        |stored: StoredView| stored.item.item_id,
    )
}

/// What an acquisition with a freshly minted token leaves: the lease, unless
/// the conversation is leased already.
pub open spec fn acquired(
    held: BackendView,
    conversation_id: Seq<char>,
    token: Seq<char>,
) -> BackendView {
    if held.leases.contains_key(conversation_id) {
        held
    } else {
        BackendView { items: held.items, leases: held.leases.insert(conversation_id, token) }
    }
}

/// Whether a lease is the live one of its conversation.
pub open spec fn is_live(held: BackendView, lease: LeaseView) -> bool {
    held.leases.contains_key(lease.conversation_id) && held.leases[lease.conversation_id]
        == lease.token
}

/// What a release leaves.
pub open spec fn released(held: BackendView, lease: LeaseView) -> BackendView {
    if is_live(held, lease) {
        BackendView { items: held.items, leases: held.leases.remove(lease.conversation_id) }
    } else {
        held
    }
}

/// No two items claim one key.
pub open spec fn keys_are_unique(items: Seq<StoredView>) -> bool {
    forall|i: int, j: int|
        0 <= i < j < items.len() ==> !claims(
            #[trigger] items[i],
            (#[trigger] items[j]).item.conversation_id,
            items[j].item.dedupe_key,
        )
}

/// Whether `leases[i]` is the lease of a conversation.
spec fn leases_at(leases: Seq<DispatchLease>, i: int, conversation_id: Seq<char>) -> bool {
    0 <= i < leases.len() && leases[i].conversation_id@ == conversation_id
}

/// The leases by conversation.
spec fn lease_map(leases: Seq<DispatchLease>) -> Map<Seq<char>, Seq<char>> {
    Map::new(
        |conversation_id: Seq<char>| exists|i: int| #[trigger] leases_at(leases, i, conversation_id),
        |conversation_id: Seq<char>|
            leases[choose|i: int| #[trigger] leases_at(leases, i, conversation_id)].token@,
    )
}

/// Process-local attention backend: no durability, no scope beyond the process.
#[derive(Debug)]
pub struct InMemoryAttentionBackend {
    /// Append order, which is what breaks ties between items of one instant.
    items: Vec<StoredItem>,
    /// At most one per conversation.
    leases: Vec<DispatchLease>,
}

impl View for InMemoryAttentionBackend {
    type V = BackendView;

    closed spec fn view(&self) -> BackendView {
        BackendView {
            items: self.items@.map_values(|stored: StoredItem| stored@),
            leases: lease_map(self.leases@),
        }
    }
}

impl InMemoryAttentionBackend {
    /// No key is claimed twice, and no conversation is leased twice.
    pub closed spec fn wf(&self) -> bool {
        &&& keys_are_unique(self@.items)
        &&& forall|i: int, j: int|
            0 <= i < j < self.leases.len() ==> (#[trigger] self.leases@[i]).conversation_id@ != (
            #[trigger] self.leases@[j]).conversation_id@
    }

    /// What a caller may take from a backend's validity: no two of its items
    /// claim one key.
    pub proof fn keys_of_a_valid_backend_are_unique(&self)
        requires
            self.wf(),
        ensures
            keys_are_unique(self@.items),
    {
    }

    /// An empty backend.
    pub fn new() -> (backend: Self)
        ensures
            backend.wf(),
            backend@.items == Seq::<StoredView>::empty(),
            backend@.leases == Map::<Seq<char>, Seq<char>>::empty(),
    {
        let backend = InMemoryAttentionBackend { items: Vec::new(), leases: Vec::new() };
        proof {
            assert(backend@.items =~= Seq::<StoredView>::empty());
            assert forall|c: Seq<char>| !backend@.leases.contains_key(c) by {}
            assert(backend@.leases =~= Map::<Seq<char>, Seq<char>>::empty());
        }
        backend
    }

    /// Appends an item, idempotently on its conversation and dedupe key.
    pub fn append_inbox_item(&mut self, item: InboxItem) -> (outcome: AppendOutcome)
        requires
            old(self).wf(),
        ensures
            final(self).wf(),
            final(self)@ == appended(old(self)@, item@),
            outcome == append_outcome(old(self)@, item@),
    {
        let mut i: usize = 0;
        while i < self.items.len()
            invariant
                *self == *old(self),
                self.wf(),
                i <= self.items.len(),
                forall|j: int|
                    0 <= j < i ==> !claims(
                        #[trigger] self@.items[j],
                        item.conversation_id@,
                        item.dedupe_key@,
                    ),
            decreases self.items.len() - i,
        {
            proof {
                assert(self@.items[i as int] == self.items@[i as int]@);
            }
            let stored = &self.items[i].item;
            if stored.conversation_id == item.conversation_id && stored.dedupe_key
                == item.dedupe_key {
                proof {
                    assert(claims(self@.items[i as int], item@.conversation_id, item@.dedupe_key));
                    let at = claimant(self@.items, item@.conversation_id, item@.dedupe_key);
                    assert(claims(self@.items[at], item@.conversation_id, item@.dedupe_key));
                    if at != i {
                        assert(!claims(
                            self@.items[if at < i { at } else { i as int }],
                            self@.items[if at < i { i as int } else { at }].item.conversation_id,
                            self@.items[if at < i { i as int } else { at }].item.dedupe_key,
                        ));
                    }
                }
                return AppendOutcome { item_id: stored.item_id, deduplicated: true };
            }
            i += 1;
        }
        proof {
            assert(self@.items.len() == self.items.len());
        }
        let item_id = item.item_id;
        let ghost view = item@;
        self.items.push(StoredItem { item, status: InboxItemStatus::Pending });
        proof {
            assert(self@.items =~= appended(old(self)@, view).items);
            assert(self@.leases == old(self)@.leases);
        }
        AppendOutcome { item_id, deduplicated: false }
    }

    /// A conversation's undrained items, oldest first; items of one millisecond
    /// keep append order.
    pub fn list_pending(&self, conversation_id: &str) -> (pending: Vec<InboxItem>)
        requires
            self.wf(),
        ensures
            super::types::item_views(pending@) == dispatcher::oldest_first(
                pending_of(self@.items, conversation_id@),
            ),
    {
        let mut kept: Vec<InboxItem> = Vec::new();
        let mut i: usize = 0;
        proof {
            assert(self@.items.take(0) =~= Seq::empty());
            reveal(Seq::filter);
            assert(super::types::item_views(kept@) =~= pending_of(
                self@.items.take(0),
                conversation_id@,
            ));
        }
        while i < self.items.len()
            invariant
                i <= self.items.len(),
                super::types::item_views(kept@) == pending_of(
                    self@.items.take(i as int),
                    conversation_id@,
                ),
            decreases self.items.len() - i,
        {
            let stored = &self.items[i];
            let ghost before = kept@;
            proof {
                assert(self@.items[i as int] == stored@);
                assert(self@.items.take(i + 1).drop_last() =~= self@.items.take(i as int));
                assert(self@.items.take(i + 1).last() == stored@);
                reveal(Seq::filter);
            }
            let pending = match stored.status {
                InboxItemStatus::Pending => true,
                _ => false,
            };
            if pending && text::str_eq(stored.item.conversation_id.as_str(), conversation_id) {
                kept.push(stored.item.clone());
                assert(super::types::item_views(kept@) =~= super::types::item_views(before).push(
                    stored@.item,
                ));
            }
            proof {
                let now = pending_of(self@.items.take(i + 1), conversation_id@);
                if is_pending(stored@, conversation_id@) {
                    assert(now =~= pending_of(self@.items.take(i as int), conversation_id@).push(
                        stored@.item,
                    ));
                } else {
                    assert(now =~= pending_of(self@.items.take(i as int), conversation_id@));
                }
            }
            i += 1;
        }
        proof {
            assert(self@.items.take(i as int) =~= self@.items);
        }
        let positions = dispatcher::fifo(kept.as_slice());
        let ghost views = super::types::item_views(kept@);
        let mut pending: Vec<InboxItem> = Vec::new();
        let mut j: usize = 0;
        while j < positions.len()
            invariant
                j <= positions.len(),
                positions.len() == kept.len(),
                views == super::types::item_views(kept@),
                forall|k: int| 0 <= k < positions.len() ==> #[trigger] positions@[k] < kept.len(),
                pending.len() == j,
                forall|k: int|
                    0 <= k < j ==> (#[trigger] pending@[k])@ == views[positions@[k] as int],
            decreases positions.len() - j,
        {
            pending.push(kept[positions[j]].clone());
            j += 1;
        }
        proof {
            let order = super::ordering::order(dispatcher::arrivals(views));
            assert(order == positions@.map_values(|p: usize| p as int));
            assert forall|k: int| 0 <= k < pending.len() implies (#[trigger] pending@[k])@
                == dispatcher::oldest_first(views)[k] by {
                assert(order[k] == positions@[k] as int);
            }
            assert(super::types::item_views(pending@) =~= dispatcher::oldest_first(views));
        }
        pending
    }

    /// Moves pending items to drained as a turn opens over them. Returns the ids
    /// that made the transition: an id already drained is neither touched nor
    /// returned.
    pub fn mark_drained(&mut self, item_ids: &[ItemId], turn_ref: &str) -> (moved: Vec<ItemId>)
        requires
            old(self).wf(),
        ensures
            final(self).wf(),
            final(self)@ == drained(old(self)@, item_ids@, turn_ref@),
            moved@ == drained_ids(old(self)@.items, item_ids@),
    {
        let ghost before = self@.items;
        let ghost leases = self.leases@;
        let mut moved: Vec<ItemId> = Vec::new();
        let mut i: usize = 0;
        proof {
            assert(before.take(0) =~= Seq::empty());
            reveal(Seq::filter);
            assert(moved@ =~= drained_ids(before.take(0), item_ids@));
        }
        while i < self.items.len()
            invariant
                i <= self.items.len(),
                self.items.len() == before.len(),
                self.leases@ == leases,
                forall|j: int|
                    0 <= j < i ==> (#[trigger] self.items@[j])@ == after_drain(
                        before[j],
                        item_ids@,
                        turn_ref@,
                    ),
                forall|j: int| i <= j < before.len() ==> (#[trigger] self.items@[j])@ == before[j],
                moved@ == drained_ids(before.take(i as int), item_ids@),
            decreases self.items.len() - i,
        {
            let item_id = self.items[i].item.item_id;
            proof {
                assert(self.items@[i as int]@ == before[i as int]);
                assert(before.take(i + 1).drop_last() =~= before.take(i as int));
                assert(before.take(i + 1).last() == before[i as int]);
                reveal(Seq::filter);
            }
            let pending = match self.items[i].status {
                InboxItemStatus::Pending => true,
                _ => false,
            };
            if pending && holds_id(item_ids, item_id) {
                self.items[i].status = InboxItemStatus::Drained { turn_ref: turn_ref.to_string() };
                moved.push(item_id);
            }
            proof {
                assert(moved@ =~= drained_ids(before.take(i + 1), item_ids@));
            }
            i += 1;
        }
        proof {
            assert(before.take(i as int) =~= before);
            assert(self@.items =~= drained(old(self)@, item_ids@, turn_ref@).items);
            transitions_keep_keys_unique(before, self@.items);
        }
        moved
    }

    /// Moves drained items to acknowledged as their turn commits. Returns the
    /// ids that made the transition; an id that is not currently drained is left
    /// alone.
    pub fn mark_acknowledged(&mut self, item_ids: &[ItemId]) -> (moved: Vec<ItemId>)
        requires
            old(self).wf(),
        ensures
            final(self).wf(),
            final(self)@ == acknowledged(old(self)@, item_ids@),
            moved@ == acknowledged_ids(old(self)@.items, item_ids@),
    {
        let ghost before = self@.items;
        let ghost leases = self.leases@;
        let mut moved: Vec<ItemId> = Vec::new();
        let mut i: usize = 0;
        proof {
            assert(before.take(0) =~= Seq::empty());
            reveal(Seq::filter);
            assert(moved@ =~= acknowledged_ids(before.take(0), item_ids@));
        }
        while i < self.items.len()
            invariant
                i <= self.items.len(),
                self.items.len() == before.len(),
                self.leases@ == leases,
                forall|j: int|
                    0 <= j < i ==> (#[trigger] self.items@[j])@ == after_acknowledge(
                        before[j],
                        item_ids@,
                    ),
                forall|j: int| i <= j < before.len() ==> (#[trigger] self.items@[j])@ == before[j],
                moved@ == acknowledged_ids(before.take(i as int), item_ids@),
            decreases self.items.len() - i,
        {
            let item_id = self.items[i].item.item_id;
            proof {
                assert(self.items@[i as int]@ == before[i as int]);
                assert(before.take(i + 1).drop_last() =~= before.take(i as int));
                assert(before.take(i + 1).last() == before[i as int]);
                reveal(Seq::filter);
            }
            let turn = match &self.items[i].status {
                InboxItemStatus::Drained { turn_ref } => Some(turn_ref.clone()),
                _ => None,
            };
            if holds_id(item_ids, item_id) {
                if let Some(turn_ref) = turn {
                    self.items[i].status = InboxItemStatus::Acknowledged { turn_ref };
                    moved.push(item_id);
                }
            }
            proof {
                assert(moved@ =~= acknowledged_ids(before.take(i + 1), item_ids@));
            }
            i += 1;
        }
        proof {
            assert(before.take(i as int) =~= before);
            assert(self@.items =~= acknowledged(old(self)@, item_ids@).items);
            transitions_keep_keys_unique(before, self@.items);
        }
        moved
    }

    /// Where the lease of a conversation stands.
    fn lease_position(&self, conversation_id: &str) -> (found: Option<usize>)
        requires
            self.wf(),
        ensures
            match found {
                Some(i) => leases_at(self.leases@, i as int, conversation_id@)
                    && self@.leases.contains_key(conversation_id@)
                    && self@.leases[conversation_id@] == self.leases@[i as int].token@,
                None => !self@.leases.contains_key(conversation_id@),
            },
    {
        let mut i: usize = 0;
        while i < self.leases.len()
            invariant
                self.wf(),
                i <= self.leases.len(),
                forall|j: int|
                    0 <= j < i ==> (#[trigger] self.leases@[j]).conversation_id@ != conversation_id@,
            decreases self.leases.len() - i,
        {
            if text::str_eq(self.leases[i].conversation_id.as_str(), conversation_id) {
                assert(leases_at(self.leases@, i as int, conversation_id@));
                return Some(i);
            }
            i += 1;
        }
        None
    }

    /// Takes the conversation's dispatch lease under `token`, which is to be
    /// minted afresh for every call, or returns `None` when another holder has
    /// it.
    pub fn acquire_dispatch_lease(&mut self, conversation_id: &str, token: String) -> (lease: Option<
        DispatchLease,
    >)
        requires
            old(self).wf(),
        ensures
            final(self).wf(),
            final(self)@ == acquired(old(self)@, conversation_id@, token@),
            match lease {
                Some(granted) => !old(self)@.leases.contains_key(conversation_id@) && granted@ == (
                LeaseView { conversation_id: conversation_id@, token: token@ }),
                None => old(self)@.leases.contains_key(conversation_id@),
            },
    {
        if self.lease_position(conversation_id).is_some() {
            return None;
        }
        let granted = DispatchLease {
            conversation_id: conversation_id.to_string(),
            token: token.clone(),
        };
        let ghost before = self.leases@;
        self.leases.push(DispatchLease { conversation_id: conversation_id.to_string(), token });
        proof {
            let after = self.leases@;
            assert forall|c: Seq<char>|
                #![trigger lease_map(after).contains_key(c)]
                lease_map(after).contains_key(c) == lease_map(before).insert(
                    conversation_id@,
                    token@,
                ).contains_key(c) && (lease_map(after).contains_key(c) ==> lease_map(after)[c]
                    == lease_map(before).insert(conversation_id@, token@)[c]) by {
                if c == conversation_id@ {
                    assert(leases_at(after, before.len() as int, c));
                    let k = choose|k: int| #[trigger] leases_at(after, k, c);
                    if k < before.len() {
                        assert(leases_at(before, k, c));
                    }
                } else {
                    if lease_map(before).contains_key(c) {
                        let k = choose|k: int| #[trigger] leases_at(before, k, c);
                        assert(leases_at(after, k, c));
                        let l = choose|l: int| #[trigger] leases_at(after, l, c);
                        assert(leases_at(before, l, c));
                        assert(k == l);
                    }
                    if lease_map(after).contains_key(c) {
                        let k = choose|k: int| #[trigger] leases_at(after, k, c);
                        assert(leases_at(before, k, c));
                    }
                }
            }
            assert(lease_map(after) =~= lease_map(before).insert(conversation_id@, token@));
            assert forall|i: int, j: int| 0 <= i < j < after.len() implies (
            #[trigger] after[i]).conversation_id@ != (#[trigger] after[j]).conversation_id@ by {
                if j == before.len() && after[i].conversation_id@ == conversation_id@ {
                    assert(leases_at(before, i, conversation_id@));
                }
            }
        }
        Some(granted)
    }

    /// Whether a held lease is still the live one.
    pub fn renew_dispatch_lease(&self, lease: &DispatchLease) -> (held: bool)
        requires
            self.wf(),
        ensures
            held == is_live(self@, lease@),
    {
        match self.lease_position(lease.conversation_id.as_str()) {
            Some(i) => self.leases[i].token == lease.token,
            None => false,
        }
    }

    /// Gives the lease up. Returns false when the caller no longer held it.
    pub fn release_dispatch_lease(&mut self, lease: &DispatchLease) -> (held: bool)
        requires
            old(self).wf(),
        ensures
            final(self).wf(),
            final(self)@ == released(old(self)@, lease@),
            held == is_live(old(self)@, lease@),
    {
        let at = match self.lease_position(lease.conversation_id.as_str()) {
            Some(i) => i,
            None => {
                return false;
            },
        };
        if !(self.leases[at].token == lease.token) {
            return false;
        }
        let ghost before = self.leases@;
        let ghost gone = lease.conversation_id@;
        self.leases.remove(at);
        proof {
            let after = self.leases@;
            assert forall|c: Seq<char>|
                #![trigger lease_map(after).contains_key(c)]
                lease_map(after).contains_key(c) == lease_map(before).remove(gone).contains_key(c)
                    && (lease_map(after).contains_key(c) ==> lease_map(after)[c]
                    == lease_map(before).remove(gone)[c]) by {
                if lease_map(after).contains_key(c) {
                    let k = choose|k: int| #[trigger] leases_at(after, k, c);
                    let l: int = if k < at { k } else { k + 1 };
                    assert(leases_at(before, l, c));
                    let m = choose|m: int| #[trigger] leases_at(before, m, c);
                    assert(l == m);
                }
                if lease_map(before).contains_key(c) && c != gone {
                    let l = choose|l: int| #[trigger] leases_at(before, l, c);
                    let k: int = if l < at { l } else { l - 1 };
                    assert(leases_at(after, k, c));
                }
            }
            assert(lease_map(after) =~= lease_map(before).remove(gone));
        }
        true
    }
}

/// Whether an id is among others.
pub fn holds_id(ids: &[ItemId], id: ItemId) -> (held: bool)
    ensures
        held == ids@.contains(id),
{
    let mut i: usize = 0;
    while i < ids.len()
        invariant
            i <= ids.len(),
            forall|j: int| 0 <= j < i ==> ids@[j] != id,
        decreases ids.len() - i,
    {
        if ids[i] == id {
            assert(ids@[i as int] == id);
            return true;
        }
        i += 1;
    }
    false
}

/// Moving items along their lifecycle leaves the keys as they are.
proof fn transitions_keep_keys_unique(before: Seq<StoredView>, after: Seq<StoredView>)
    requires
        keys_are_unique(before),
        after.len() == before.len(),
        forall|i: int| 0 <= i < before.len() ==> (#[trigger] after[i]).item == before[i].item,
    ensures
        keys_are_unique(after),
{
    assert forall|i: int, j: int| 0 <= i < j < after.len() implies !claims(
        #[trigger] after[i],
        (#[trigger] after[j]).item.conversation_id,
        after[j].item.dedupe_key,
    ) by {
        assert(!claims(before[i], before[j].item.conversation_id, before[j].item.dedupe_key));
    }
}

} // verus!
