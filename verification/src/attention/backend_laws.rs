//! What each call of an attention backend does, told item by item.

use vstd::prelude::*;

use super::backend::{self, BackendView, StoredView};
use super::dispatcher;
use super::pass_laws;
use super::types::{InboxItemView, ItemId, LeaseView, StatusView};
use crate::filters;

verus! {

/// Whether an item is of the same fact as another: in the same conversation,
/// under the same key.
pub open spec fn is_same_fact(a: InboxItemView, b: InboxItemView) -> bool {
    a.conversation_id == b.conversation_id && a.dedupe_key == b.dedupe_key
}

/// Whether some stored item is of the same fact.
pub open spec fn is_known(items: Seq<StoredView>, item: InboxItemView) -> bool {
    exists|i: int| 0 <= i < items.len() && is_same_fact((#[trigger] items[i]).item, item)
}

/// Whether an id is that of a stored item of the same fact.
pub open spec fn is_known_as(items: Seq<StoredView>, item: InboxItemView, id: ItemId) -> bool {
    exists|i: int|
        0 <= i < items.len() && is_same_fact((#[trigger] items[i]).item, item)
            && items[i].item.item_id == id
}

/// An append of a new fact puts the item behind all others, pending, and
/// reports its own id; an append of a known fact changes nothing and reports
/// the id of an item of that fact. Neither touches a lease.
pub proof fn an_append_adds_what_is_new(held: BackendView, item: InboxItemView)
    ensures
        ({
            let after = backend::appended(held, item);
            let outcome = backend::append_outcome(held, item);
            &&& after.leases == held.leases
            &&& outcome.deduplicated <==> is_known(held.items, item)
            &&& if is_known(held.items, item) {
                &&& after.items == held.items
                &&& is_known_as(held.items, item, outcome.item_id)
            } else {
                &&& outcome.item_id == item.item_id
                &&& after.items.len() == held.items.len() + 1
                &&& after.items.take(held.items.len() as int) == held.items
                &&& after.items.last().item == item
                &&& after.items.last().status is Pending
            }
        }),
{
    let c = item.conversation_id;
    let k = item.dedupe_key;
    if is_known(held.items, item) {
        let i = choose|i: int|
            0 <= i < held.items.len() && is_same_fact((#[trigger] held.items[i]).item, item);
        assert(backend::claims(held.items[i], c, k));
        let at = backend::claimant(held.items, c, k);
        assert(backend::claims(held.items[at], c, k));
        assert(is_same_fact(held.items[at].item, item));
    } else {
        if backend::is_claimed(held.items, c, k) {
            let at = backend::claimant(held.items, c, k);
            assert(backend::claims(held.items[at], c, k));
            assert(is_same_fact(held.items[at].item, item));
        }
        assert(backend::appended(held, item).items.take(held.items.len() as int)
            =~= held.items);
    }
}

/// A drain moves the pending items it names into its turn, and leaves every
/// other item as it is; it touches no lease.
pub proof fn a_drain_moves_the_pending_items_it_names(
    held: BackendView,
    ids: Seq<ItemId>,
    turn_ref: Seq<char>,
)
    ensures
        ({
            let after = backend::drained(held, ids, turn_ref);
            &&& after.leases == held.leases
            &&& after.items.len() == held.items.len()
            &&& forall|i: int|
                0 <= i < held.items.len() ==> {
                    let was = #[trigger] held.items[i];
                    &&& after.items[i].item == was.item
                    &&& after.items[i].status == if was.status is Pending && ids.contains(
                        was.item.item_id,
                    ) {
                        StatusView::Drained { turn_ref }
                    } else {
                        was.status
                    }
                }
        }),
{
}

/// A drain reports exactly the items it moved, in append order.
pub proof fn a_drain_reports_what_it_moved(
    held: BackendView,
    ids: Seq<ItemId>,
    turn_ref: Seq<char>,
)
    ensures
        exists|from: Seq<int>| #[trigger]
            reports(
                held,
                backend::drained(held, ids, turn_ref),
                backend::drained_ids(held.items, ids),
                from,
            ),
{
    let keep = |stored: StoredView| backend::drains(stored, ids);
    let from = filters::kept_positions(held.items, keep);
    let after = backend::drained(held, ids, turn_ref);
    let moved = |i: int| after.items[i].status != held.items[i].status;
    assert forall|i: int| 0 <= i < held.items.len() && #[trigger] moved(i) implies from.contains(
        i,
    ) by {
        assert((|i: int| keep(held.items[i]))(i));
    }
    assert(backend::drained_ids(held.items, ids) =~= from.map_values(
        |i: int| held.items[i].item.item_id,
    ));
    assert(reports(held, after, backend::drained_ids(held.items, ids), from));
}

/// Whether ids are those of the items whose state changed, in append order, at
/// the positions `from`.
pub open spec fn reports(
    held: BackendView,
    after: BackendView,
    ids: Seq<ItemId>,
    from: Seq<int>,
) -> bool {
    &&& filters::picks(
        from,
        held.items.len() as int,
        |i: int| after.items[i].status != held.items[i].status,
    )
    &&& ids.len() == from.len()
    &&& forall|k: int|
        0 <= k < from.len() ==> ids[k] == held.items[#[trigger] from[k]].item.item_id
}

/// An acknowledgement moves the drained items it names, within their turn, and
/// leaves every other item as it is; it touches no lease.
pub proof fn an_acknowledgement_moves_the_drained_items_it_names(
    held: BackendView,
    ids: Seq<ItemId>,
)
    ensures
        ({
            let after = backend::acknowledged(held, ids);
            &&& after.leases == held.leases
            &&& after.items.len() == held.items.len()
            &&& forall|i: int|
                0 <= i < held.items.len() ==> {
                    let was = #[trigger] held.items[i];
                    &&& after.items[i].item == was.item
                    &&& match was.status {
                        StatusView::Drained { turn_ref } => after.items[i].status
                            == if ids.contains(was.item.item_id) {
                            StatusView::Acknowledged { turn_ref }
                        } else {
                            was.status
                        },
                        _ => after.items[i].status == was.status,
                    }
                }
        }),
{
}

/// An acknowledgement reports exactly the items it moved, in append order.
pub proof fn an_acknowledgement_reports_what_it_moved(held: BackendView, ids: Seq<ItemId>)
    ensures
        exists|from: Seq<int>| #[trigger]
            reports(
                held,
                backend::acknowledged(held, ids),
                backend::acknowledged_ids(held.items, ids),
                from,
            ),
{
    let keep = |stored: StoredView| backend::acknowledges(stored, ids);
    let from = filters::kept_positions(held.items, keep);
    let after = backend::acknowledged(held, ids);
    let moved = |i: int| after.items[i].status != held.items[i].status;
    assert forall|i: int| 0 <= i < held.items.len() && #[trigger] moved(i) implies from.contains(
        i,
    ) by {
        assert((|i: int| keep(held.items[i]))(i));
    }
    assert(backend::acknowledged_ids(held.items, ids) =~= from.map_values(
        |i: int| held.items[i].item.item_id,
    ));
    assert(reports(held, after, backend::acknowledged_ids(held.items, ids), from));
}

/// Whether items are those of a conversation that are pending, in append order,
/// at the positions `from`.
pub open spec fn are_pending(
    items: Seq<StoredView>,
    conversation_id: Seq<char>,
    pending: Seq<InboxItemView>,
    from: Seq<int>,
) -> bool {
    &&& filters::picks(
        from,
        items.len() as int,
        |i: int|
            items[i].item.conversation_id == conversation_id && items[i].status
                == StatusView::Pending,
    )
    &&& pending.len() == from.len()
    &&& forall|k: int| 0 <= k < from.len() ==> pending[k] == items[#[trigger] from[k]].item
}

/// A listing holds every pending item of its conversation once and no other
/// item, in the order of arrival, and those of one millisecond in append order.
pub proof fn a_listing_holds_what_is_pending(items: Seq<StoredView>, conversation_id: Seq<char>)
    ensures
        ({
            let pending = backend::pending_of(items, conversation_id);
            &&& exists|from: Seq<int>| #[trigger]
                are_pending(items, conversation_id, pending, from)
            &&& pass_laws::is_arrival_order(pending, dispatcher::oldest_first(pending))
        }),
{
    let pending = backend::pending_of(items, conversation_id);
    let keep = |stored: StoredView| backend::is_pending(stored, conversation_id);
    let from = filters::kept_positions(items, keep);
    let chosen = |i: int|
        items[i].item.conversation_id == conversation_id && items[i].status == StatusView::Pending;
    assert forall|i: int| 0 <= i < items.len() && #[trigger] chosen(i) implies from.contains(i) by {
        assert((|i: int| keep(items[i]))(i));
    }
    assert(pending =~= from.map_values(|i: int| items[i].item));
    assert(are_pending(items, conversation_id, pending, from));
    pass_laws::oldest_first_is_arrival_order(pending);
}

/// A conversation is leased to one holder at a time: an acquisition puts its
/// token where there was no lease, changes nothing where there was one, and
/// touches no item and no other conversation.
pub proof fn an_acquisition_takes_a_free_lease(
    held: BackendView,
    conversation_id: Seq<char>,
    token: Seq<char>,
)
    ensures
        ({
            let after = backend::acquired(held, conversation_id, token);
            &&& after.items == held.items
            &&& after.leases.contains_key(conversation_id)
            &&& after.leases[conversation_id] == if held.leases.contains_key(conversation_id) {
                held.leases[conversation_id]
            } else {
                token
            }
            &&& forall|other: Seq<char>|
                other != conversation_id ==> #[trigger] after.leases.contains_key(other)
                    == held.leases.contains_key(other) && after.leases[other]
                    == held.leases[other]
        }),
{
}

/// A release frees the conversation for its holder alone: under another token,
/// and in any other conversation, nothing changes, and no item is touched. A
/// lease is renewed by its holder alone too.
pub proof fn a_release_frees_what_its_holder_held(held: BackendView, lease: LeaseView)
    ensures
        ({
            let after = backend::released(held, lease);
            let holds = held.leases.contains_key(lease.conversation_id)
                && held.leases[lease.conversation_id] == lease.token;
            &&& backend::is_live(held, lease) <==> holds
            &&& after.items == held.items
            &&& after.leases.contains_key(lease.conversation_id) <==> held.leases.contains_key(
                lease.conversation_id,
            ) && !holds
            &&& forall|other: Seq<char>|
                other != lease.conversation_id || !holds ==> #[trigger] after.leases.contains_key(
                    other,
                ) == held.leases.contains_key(other) && after.leases[other]
                    == held.leases[other]
        }),
{
}

} // verus!
