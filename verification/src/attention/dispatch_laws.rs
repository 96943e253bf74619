//! What holds of every dispatch pass.

use vstd::prelude::*;

use super::backend::{BackendView, StoredView};
use super::dispatch::{PassEffectView, PassEnd, PassEventView, PassPhaseView};
use super::dispatcher::{self, ActionView, ConversationState};
use super::types::{InboxItemView, ItemId, LeaseView, StatusView};

verus! {

/// Where a pass stands after some events, and what it asks for.
pub open spec fn after_events(events: Seq<PassEventView>) -> (PassPhaseView, PassEffectView)
    decreases events.len(),
{
    if events.len() == 0 {
        (PassPhaseView::Acquiring, PassEffectView::Acquire)
    } else {
        super::dispatch::next_pass(after_events(events.drop_last()).0, events.last())
    }
}

/// Whether every event answers what the pass was waiting for.
pub open spec fn is_history(events: Seq<PassEventView>) -> bool
    decreases events.len(),
{
    events.len() == 0 || (is_history(events.drop_last()) && super::dispatch::answers(
        after_events(events.drop_last()).0,
        events.last(),
    ))
}

/// Whether, by what a pass was told, it has been granted the lease and has not
/// given it up since.
pub open spec fn holds_lease(events: Seq<PassEventView>) -> bool
    decreases events.len(),
{
    if events.len() == 0 {
        false
    } else {
        match events.last() {
            PassEventView::Acquired { granted } => granted,
            PassEventView::Released => false,
            _ => holds_lease(events.drop_last()),
        }
    }
}

/// The ids that the last drain moved.
pub open spec fn last_moved(events: Seq<PassEventView>) -> Seq<ItemId>
    decreases events.len(),
{
    if events.len() == 0 {
        Seq::empty()
    } else {
        match events.last() {
            PassEventView::Drained { moved } => moved,
            _ => last_moved(events.drop_last()),
        }
    }
}

/// Whether a phase is one of those in which the lease is held.
pub open spec fn is_under_lease(phase: PassPhaseView) -> bool {
    match phase {
        PassPhaseView::Acquiring | PassPhaseView::Relisting | PassPhaseView::Finished => false,
        _ => true,
    }
}

/// What a pass carries along agrees with what it was told.
proof fn phases_agree_with_history(events: Seq<PassEventView>)
    requires
        is_history(events),
    ensures
        is_under_lease(after_events(events).0) ==> holds_lease(events),
        after_events(events).0 matches PassPhaseView::Turning { moved } ==> moved == last_moved(
            events,
        ) && moved.len() > 0,
        (after_events(events).0 is Acquiring || after_events(events).0 is Relisting)
            ==> !holds_lease(events),
    decreases events.len(),
{
    if events.len() > 0 {
        phases_agree_with_history(events.drop_last());
    }
}

/// Items are drained, handed to a turn, acknowledged and waited for only while
/// the lease is held: one dispatcher at a time touches a conversation.
pub proof fn a_pass_acts_only_under_the_lease(events: Seq<PassEventView>)
    requires
        is_history(events),
        ({
            let effect = after_events(events).1;
            effect is MarkDrained || effect is OpenTurn || effect is Acknowledge || effect is Sleep
                || effect is Renew || effect is Release
        }),
    ensures
        holds_lease(events),
{
    phases_agree_with_history(events);
}

/// Only what a turn was opened over and came back from is acknowledged: the
/// acknowledged ids are those the last drain moved, and the turn over them has
/// just ended.
pub proof fn only_turned_items_are_acknowledged(events: Seq<PassEventView>, ids: Seq<ItemId>)
    requires
        is_history(events),
        after_events(events).1 == (PassEffectView::Acknowledge { ids }),
    ensures
        events.len() > 0,
        events.last() is Turned,
        ids == last_moved(events),
        ids.len() > 0,
{
    phases_agree_with_history(events.drop_last());
}

/// A turn is opened over exactly the drained ids that made the transition, in
/// drain order, each with the item that was listed under it.
pub proof fn a_turn_holds_what_was_moved(
    pending: Seq<InboxItemView>,
    drain: Seq<ItemId>,
    moved: Seq<ItemId>,
)
    requires
        super::dispatch::is_consistent(PassPhaseView::Draining { pending, drain }),
    ensures
        super::types::item_ids(super::dispatch::turn_items(pending, drain, moved)) == drain.filter(
            |id: ItemId| moved.contains(id),
        ),
        forall|k: int|
            0 <= k < super::dispatch::turn_items(pending, drain, moved).len() ==> pending.contains(
                #[trigger] super::dispatch::turn_items(pending, drain, moved)[k],
            ),
{
    let kept = drain.filter(|id: ItemId| moved.contains(id));
    let items = super::dispatch::turn_items(pending, drain, moved);
    let phase = PassPhaseView::Draining { pending, drain };
    assert forall|k: int| 0 <= k < items.len() implies pending.contains(#[trigger] items[k])
        && items[k].item_id == kept[k] by {
        let id = kept[k];
        assert(kept.contains(id));
        drain.lemma_filter_contains_rev(|id: ItemId| moved.contains(id), id);
        let d = choose|d: int| 0 <= d < drain.len() && drain[d] == id;
        assert(phase->drain[d] == id);
        assert(super::types::item_ids(pending).contains(drain[d]));
        let p = choose|p: int|
            0 <= p < super::types::item_ids(pending).len() && super::types::item_ids(pending)[p]
                == id;
        an_id_has_a_first_item(pending, id, p);
        assert(items[k] == super::dispatch::item_of(pending, id));
    }
    assert(super::types::item_ids(items) =~= kept);
}

/// Where an id occurs, it occurs a first time.
proof fn an_id_has_a_first_item(pending: Seq<InboxItemView>, id: ItemId, p: int)
    requires
        0 <= p < pending.len(),
        pending[p].item_id == id,
    ensures
        exists|i: int| super::dispatch::is_first_of(pending, id, i),
        pending.contains(super::dispatch::item_of(pending, id)),
        super::dispatch::item_of(pending, id).item_id == id,
    decreases p,
{
    if exists|j: int| 0 <= j < p && (#[trigger] pending[j]).item_id == id {
        let j = choose|j: int| 0 <= j < p && (#[trigger] pending[j]).item_id == id;
        an_id_has_a_first_item(pending, id, j);
    } else {
        assert(super::dispatch::is_first_of(pending, id, p));
    }
    let i = choose|i: int| super::dispatch::is_first_of(pending, id, i);
    assert(super::dispatch::is_first_of(pending, id, i));
    assert(pending[i] == super::dispatch::item_of(pending, id));
}

/// How a pass can end: drained only where nothing was pending once the lease
/// was given up, held elsewhere only where the lease was refused, and a failure
/// under the lease only once the lease is given up.
pub proof fn a_pass_ends_with_the_lease_given_up(events: Seq<PassEventView>, end: PassEnd)
    requires
        is_history(events),
        after_events(events).1 == (PassEffectView::Finish { end }),
    ensures
        events.len() > 0,
        end == PassEnd::Drained ==> events.last() == (PassEventView::Relisted { empty: true })
            && !holds_lease(events),
        end == PassEnd::HeldElsewhere ==> events.last() == (PassEventView::Acquired {
            granted: false,
        }) && !holds_lease(events),
        end == PassEnd::FailedUnderLease ==> events.last() is Released && !holds_lease(events),
        end == PassEnd::Failed ==> events.last() is Failed,
{
    phases_agree_with_history(events.drop_last());
}

/// What an outside operation of a pass does to a backend, and how it is
/// answered, where nobody else uses the conversation meanwhile and every turn
/// comes back.
pub open spec fn carried_out(
    held: BackendView,
    lease: LeaseView,
    turn_ref: Seq<char>,
    now_ms: u64,
    effect: PassEffectView,
) -> (BackendView, PassEventView) {
    let pending = super::backend::pending_of(held.items, lease.conversation_id);
    match effect {
        PassEffectView::Acquire => (
            super::backend::acquired(held, lease.conversation_id, lease.token),
            PassEventView::Acquired { granted: !held.leases.contains_key(lease.conversation_id) },
        ),
        PassEffectView::List => (
            held,
            PassEventView::Listed { pending: dispatcher::oldest_first(pending), now_ms },
        ),
        PassEffectView::MarkDrained { ids } => (
            super::backend::drained(held, ids, turn_ref),
            PassEventView::Drained { moved: super::backend::drained_ids(held.items, ids) },
        ),
        PassEffectView::OpenTurn { .. } => (held, PassEventView::Turned),
        PassEffectView::Acknowledge { ids } => (
            super::backend::acknowledged(held, ids),
            PassEventView::Acknowledged,
        ),
        PassEffectView::Sleep { .. } => (held, PassEventView::Slept),
        PassEffectView::Renew => (
            held,
            PassEventView::Renewed { held: super::backend::is_live(held, lease) },
        ),
        PassEffectView::Release => (
            super::backend::released(held, lease),
            PassEventView::Released,
        ),
        PassEffectView::Relist => (held, PassEventView::Relisted { empty: pending.len() == 0 }),
        PassEffectView::Finish { .. } => (held, PassEventView::Failed),
    }
}

/// The clock once an operation of a pass is done: a sleep ends at the instant it
/// was asked for, and nothing else takes time.
pub open spec fn clock_after(now_ms: u64, effect: PassEffectView) -> u64 {
    match effect {
        PassEffectView::Sleep { until_ms } => if until_ms > now_ms {
            until_ms
        } else {
            now_ms
        },
        _ => now_ms,
    }
}

/// A backend, the turns opened over it and the clock when a pass has run to its
/// end, given enough steps.
pub open spec fn run_pass(
    held: BackendView,
    lease: LeaseView,
    turn_ref: Seq<char>,
    now_ms: u64,
    phase: PassPhaseView,
    effect: PassEffectView,
    turns: Seq<Seq<InboxItemView>>,
    steps: nat,
) -> (BackendView, Seq<Seq<InboxItemView>>, u64, Option<PassEnd>)
    decreases steps,
{
    match effect {
        PassEffectView::Finish { end } => (held, turns, now_ms, Some(end)),
        _ => if steps == 0 {
            (held, turns, now_ms, None)
        } else {
            let (after, event) = carried_out(held, lease, turn_ref, now_ms, effect);
            let (next, wanted) = super::dispatch::next_pass(phase, event);
            let opened = match effect {
                PassEffectView::OpenTurn { items } => turns.push(items),
                _ => turns,
            };
            let later = clock_after(now_ms, effect);
            run_pass(after, lease, turn_ref, later, next, wanted, opened, (steps - 1) as nat)
        },
    }
}

/// No two items share an id.
pub open spec fn ids_are_unique(items: Seq<StoredView>) -> bool {
    forall|i: int, j: int|
        0 <= i < j < items.len() ==> (#[trigger] items[i]).item.item_id != (
        #[trigger] items[j]).item.item_id
}

/// An item once a pass has drained its conversation.
pub open spec fn after_pass(
    stored: StoredView,
    conversation_id: Seq<char>,
    turn_ref: Seq<char>,
) -> StoredView {
    if super::backend::is_pending(stored, conversation_id) {
        StoredView { item: stored.item, status: StatusView::Acknowledged { turn_ref } }
    } else {
        stored
    }
}

/// Whether an item is a stored one that is pending.
pub open spec fn is_stored_pending(
    items: Seq<StoredView>,
    conversation_id: Seq<char>,
    item: InboxItemView,
) -> bool {
    exists|i: int|
        0 <= i < items.len() && (#[trigger] items[i]).item == item && super::backend::is_pending(
            items[i],
            conversation_id,
        )
}

/// Where ids are unique, a pending item's id leads back to it, and what is
/// listed has unique ids too.
pub(crate) proof fn listed_ids_are_unique(items: Seq<StoredView>, conversation_id: Seq<char>)
    requires
        ids_are_unique(items),
    ensures
        ({
            let pending = super::backend::pending_of(items, conversation_id);
            &&& forall|p: int|
                0 <= p < pending.len() ==> is_stored_pending(
                    items,
                    conversation_id,
                    #[trigger] pending[p],
                )
            &&& forall|i: int|
                0 <= i < items.len() && super::backend::is_pending(
                    #[trigger] items[i],
                    conversation_id,
                ) ==> pending.contains(items[i].item)
            &&& forall|p: int, q: int|
                0 <= p < q < pending.len() ==> (#[trigger] pending[p]).item_id != (
                #[trigger] pending[q]).item_id
        }),
    decreases items.len(),
{
    reveal(Seq::filter);
    let pred = |stored: StoredView| super::backend::is_pending(stored, conversation_id);
    let pending = super::backend::pending_of(items, conversation_id);
    if items.len() > 0 {
        let rest = items.drop_last();
        let last = items.last();
        let before = super::backend::pending_of(rest, conversation_id);
        assert forall|i: int, j: int| 0 <= i < j < rest.len() implies (
        #[trigger] rest[i]).item.item_id != (#[trigger] rest[j]).item.item_id by {
            assert(rest[i] == items[i] && rest[j] == items[j]);
        }
        listed_ids_are_unique(rest, conversation_id);
        if pred(last) {
            assert(pending =~= before.push(last.item));
        } else {
            assert(pending =~= before);
        }
        assert forall|p: int| 0 <= p < pending.len() implies is_stored_pending(
            items,
            conversation_id,
            #[trigger] pending[p],
        ) by {
            if p < before.len() {
                assert(before[p] == pending[p]);
                let i = choose|i: int|
                    0 <= i < rest.len() && rest[i].item == before[p] && super::backend::is_pending(
                        rest[i],
                        conversation_id,
                    );
                assert(items[i] == rest[i]);
            } else {
                assert(items[items.len() - 1].item == pending[p]);
            }
        }
        assert forall|i: int|
            0 <= i < items.len() && super::backend::is_pending(
                #[trigger] items[i],
                conversation_id,
            ) implies pending.contains(items[i].item) by {
            if i < rest.len() {
                assert(rest[i] == items[i]);
                assert(before.contains(rest[i].item));
                let p = choose|p: int| 0 <= p < before.len() && before[p] == rest[i].item;
                assert(pending[p] == items[i].item);
            } else {
                assert(pending[before.len() as int] == items[i].item);
            }
        }
        assert forall|p: int, q: int| 0 <= p < q < pending.len() implies (
        #[trigger] pending[p]).item_id != (#[trigger] pending[q]).item_id by {
            assert(before[p] == pending[p]);
            if q < before.len() {
                assert(before[q] == pending[q]);
            } else {
                let i = choose|i: int|
                    0 <= i < rest.len() && rest[i].item == before[p] && super::backend::is_pending(
                        rest[i],
                        conversation_id,
                    );
                assert(items[i] == rest[i]);
                assert(items[i].item.item_id != items[items.len() - 1].item.item_id);
            }
        }
    } else {
        assert(pending =~= Seq::empty());
    }
}

/// Sorting what is already sorted changes nothing.
pub(crate) proof fn oldest_first_is_settled(pending: Seq<InboxItemView>)
    ensures
        dispatcher::oldest_first(dispatcher::oldest_first(pending)) == dispatcher::oldest_first(
            pending,
        ),
        dispatcher::oldest_first(pending).len() == pending.len(),
        forall|item: InboxItemView| #[trigger]
            dispatcher::oldest_first(pending).contains(item) <==> pending.contains(item),
        (forall|p: int, q: int|
            0 <= p < q < pending.len() ==> (#[trigger] pending[p]).item_id != (
            #[trigger] pending[q]).item_id) ==> (forall|p: int, q: int|
            0 <= p < q < pending.len() ==> (#[trigger] dispatcher::oldest_first(
                pending,
            )[p]).item_id != (#[trigger] dispatcher::oldest_first(pending)[q]).item_id),
{
    let keys = dispatcher::arrivals(pending);
    let order = super::ordering::order(keys);
    let sorted = dispatcher::oldest_first(pending);
    let again = dispatcher::arrivals(sorted);
    super::ordering::order_is_a_stable_sort(keys);
    assert forall|i: int| 0 <= i < order.len() implies 0 <= #[trigger] order[i] < pending.len()
        && sorted[i] == pending[order[i]] && again[i] == keys[order[i]] by {
        assert(order.contains(order[i]));
    }
    assert forall|i: int, j: int| 0 <= i < j < again.len() implies super::ordering::not_after(
        again[i],
        again[j],
    ) by {
        assert(super::ordering::goes_before(keys, order[i], order[j]));
    }
    super::ordering::ordered_keys_stay(again);
    assert(dispatcher::oldest_first(sorted) =~= sorted);
    assert forall|item: InboxItemView| #[trigger] sorted.contains(item) <==> pending.contains(
        item,
    ) by {
        if sorted.contains(item) {
            let i = choose|i: int| 0 <= i < sorted.len() && sorted[i] == item;
            assert(pending[order[i]] == item);
        }
        if pending.contains(item) {
            let p = choose|p: int| 0 <= p < pending.len() && pending[p] == item;
            assert(order.contains(p));
            let i = choose|i: int| 0 <= i < order.len() && order[i] == p;
            assert(sorted[i] == item);
        }
    }
    if forall|p: int, q: int|
        0 <= p < q < pending.len() ==> (#[trigger] pending[p]).item_id != (
        #[trigger] pending[q]).item_id {
        assert forall|p: int, q: int| 0 <= p < q < pending.len() implies (
        #[trigger] sorted[p]).item_id != (#[trigger] sorted[q]).item_id by {
            assert(order[p] != order[q]);
            if order[p] < order[q] {
                assert(pending[order[p]].item_id != pending[order[q]].item_id);
            } else {
                assert(pending[order[q]].item_id != pending[order[p]].item_id);
            }
        }
    }
}

/// With unique ids, draining everything listed hands every item to the turn.
pub(crate) proof fn everything_listed_is_turned(
    held: BackendView,
    conversation_id: Seq<char>,
    turn_ref: Seq<char>,
)
    requires
        ids_are_unique(held.items),
    ensures
        ({
            let pending = super::backend::pending_of(held.items, conversation_id);
            let listed = dispatcher::oldest_first(pending);
            let drain = super::types::item_ids(listed);
            let moved = super::backend::drained_ids(held.items, drain);
            let after = super::backend::acknowledged(
                super::backend::drained(held, drain, turn_ref),
                moved,
            );
            &&& moved == super::types::item_ids(pending)
            &&& super::dispatch::turn_items(listed, drain, moved) == listed
            &&& after.items == held.items.map_values(
                |stored: StoredView| after_pass(stored, conversation_id, turn_ref),
            )
            &&& after.leases == held.leases
            &&& super::backend::pending_of(after.items, conversation_id).len() == 0
        }),
{
    let pending = super::backend::pending_of(held.items, conversation_id);
    let listed = dispatcher::oldest_first(pending);
    let drain = super::types::item_ids(listed);
    let moved = super::backend::drained_ids(held.items, drain);
    let is_pending = |stored: StoredView| super::backend::is_pending(stored, conversation_id);
    let drains = |stored: StoredView| super::backend::drains(stored, drain);
    listed_ids_are_unique(held.items, conversation_id);
    oldest_first_is_settled(pending);
    // An id that is to be drained is that of a pending item.
    assert forall|i: int| 0 <= i < held.items.len() implies drain.contains(
        (#[trigger] held.items[i]).item.item_id,
    ) == is_pending(held.items[i]) by {
        let stored = held.items[i];
        if is_pending(stored) {
            assert(pending.contains(stored.item));
            assert(listed.contains(stored.item));
            let k = choose|k: int| 0 <= k < listed.len() && listed[k] == stored.item;
            assert(drain[k] == stored.item.item_id);
        }
        if drain.contains(stored.item.item_id) {
            let k = choose|k: int| 0 <= k < drain.len() && drain[k] == stored.item.item_id;
            assert(listed.contains(listed[k]));
            assert(pending.contains(listed[k]));
            let p = choose|p: int| 0 <= p < pending.len() && pending[p] == listed[k];
            let j = choose|j: int|
                0 <= j < held.items.len() && held.items[j].item == pending[p]
                    && super::backend::is_pending(held.items[j], conversation_id);
            assert(held.items[j].item.item_id == held.items[i].item.item_id);
            if i < j {
                assert(held.items[i].item.item_id != held.items[j].item.item_id);
            } else if j < i {
                assert(held.items[j].item.item_id != held.items[i].item.item_id);
            }
        }
    }
    assert forall|i: int| 0 <= i < held.items.len() implies is_pending(#[trigger] held.items[i])
        == drains(held.items[i]) by {
        assert(drain.contains(held.items[i].item.item_id) == is_pending(held.items[i]));
    }
    crate::filters::equal_filters(held.items, is_pending, drains);
    assert(moved =~= super::types::item_ids(pending));
    // Everything to be drained is moved.
    let in_moved = |id: ItemId| moved.contains(id);
    assert forall|k: int| 0 <= k < drain.len() implies in_moved(#[trigger] drain[k]) by {
        assert(listed.contains(listed[k]));
        assert(pending.contains(listed[k]));
        let p = choose|p: int| 0 <= p < pending.len() && pending[p] == listed[k];
        assert(moved[p] == drain[k]);
    }
    crate::filters::keeping_all(drain, in_moved);
    assert(drain.filter(in_moved) == drain);
    let turned = super::dispatch::turn_items(listed, drain, moved);
    assert(turned.len() == listed.len());
    assert forall|k: int| 0 <= k < listed.len() implies turned[k] == listed[k] by {
        assert(super::dispatch::is_first_of(listed, drain[k], k)) by {
            assert forall|j: int| 0 <= j < k implies (#[trigger] listed[j]).item_id
                != drain[k] by {
                assert(listed[j].item_id != listed[k].item_id);
            }
        }
        let chosen = choose|i: int| super::dispatch::is_first_of(listed, drain[k], i);
        assert(super::dispatch::is_first_of(listed, drain[k], chosen));
        if chosen < k {
            assert(listed[chosen].item_id != listed[k].item_id);
        } else if k < chosen {
            assert(listed[k].item_id != drain[k]);
        }
        assert(turned[k] == super::dispatch::item_of(listed, drain[k]));
    }
    assert(turned =~= listed);
    // What is moved is what was pending, and it is acknowledged.
    let drained = super::backend::drained(held, drain, turn_ref);
    let after = super::backend::acknowledged(drained, moved);
    assert forall|i: int| 0 <= i < held.items.len() implies #[trigger] after.items[i]
        == after_pass(held.items[i], conversation_id, turn_ref) by {
        let stored = held.items[i];
        assert(drain.contains(stored.item.item_id) == is_pending(stored));
        if is_pending(stored) {
            assert(pending.contains(stored.item));
            let p = choose|p: int| 0 <= p < pending.len() && pending[p] == stored.item;
            assert(moved[p] == stored.item.item_id);
        } else {
            if moved.contains(stored.item.item_id) {
                let p = choose|p: int| 0 <= p < moved.len() && moved[p] == stored.item.item_id;
                assert(listed.contains(pending[p])) by {
                    assert(pending.contains(pending[p]));
                }
                let k = choose|k: int| 0 <= k < listed.len() && listed[k] == pending[p];
                assert(drain[k] == stored.item.item_id);
            }
        }
    }
    assert(after.items =~= held.items.map_values(
        |stored: StoredView| after_pass(stored, conversation_id, turn_ref),
    ));
    assert forall|i: int| 0 <= i < after.items.len() implies !is_pending(
        #[trigger] after.items[i],
    ) by {
        assert(after.items[i] == after_pass(held.items[i], conversation_id, turn_ref));
    }
    after.items.lemma_all_neg_filter_empty(is_pending);
}

/// Coalescing: an undisturbed pass over a free conversation with a wake or an
/// interrupt pending opens one turn, over everything pending, oldest first,
/// acknowledges it all, gives the lease back and ends with an empty inbox.
pub proof fn a_pass_drains_everything_into_one_turn(
    held: BackendView,
    lease: LeaseView,
    turn_ref: Seq<char>,
    now_ms: u64,
)
    requires
        ids_are_unique(held.items),
        !held.leases.contains_key(lease.conversation_id),
        exists|i: int|
            0 <= i < super::backend::pending_of(held.items, lease.conversation_id).len()
                && dispatcher::opens_a_turn(
                #[trigger] super::backend::pending_of(held.items, lease.conversation_id)[i],
            ),
    ensures
        run_pass(
            held,
            lease,
            turn_ref,
            now_ms,
            PassPhaseView::Acquiring,
            PassEffectView::Acquire,
            Seq::empty(),
            8,
        ) == (
            BackendView {
                items: held.items.map_values(
                    |stored: StoredView| after_pass(stored, lease.conversation_id, turn_ref),
                ),
                leases: held.leases,
            },
            seq![
                dispatcher::oldest_first(
                    super::backend::pending_of(held.items, lease.conversation_id),
                ),
            ],
            now_ms,
            Some(PassEnd::Drained),
        ),
{
    let conversation_id = lease.conversation_id;
    let pending = super::backend::pending_of(held.items, conversation_id);
    let listed = dispatcher::oldest_first(pending);
    let drain = super::types::item_ids(listed);
    let leased = super::backend::acquired(held, conversation_id, lease.token);
    oldest_first_is_settled(pending);
    let w = choose|i: int|
        0 <= i < pending.len() && dispatcher::opens_a_turn(#[trigger] pending[i]);
    assert(pending.contains(pending[w]));
    assert(listed.contains(pending[w]));
    let v = choose|i: int| 0 <= i < listed.len() && listed[i] == pending[w];
    assert(dispatcher::opens_a_turn(listed[v]));
    let opened = ActionView::OpenTurn { drain };
    assert(dispatcher::is_decision(ConversationState::Quiescent, listed, now_ms, opened));
    let first = dispatcher::decision(ConversationState::Quiescent, listed, now_ms);
    dispatcher::decisions_replay(ConversationState::Quiescent, listed, now_ms, opened, first);
    everything_listed_is_turned(leased, conversation_id, turn_ref);
    let moved = super::backend::drained_ids(leased.items, drain);
    let after = super::backend::acknowledged(
        super::backend::drained(leased, drain, turn_ref),
        moved,
    );
    let left = dispatcher::oldest_first(super::backend::pending_of(after.items, conversation_id));
    oldest_first_is_settled(super::backend::pending_of(after.items, conversation_id));
    assert(left.len() == 0);
    assert(dispatcher::is_decision(
        ConversationState::Quiescent,
        left,
        now_ms,
        ActionView::Nothing,
    ));
    let second = dispatcher::decision(ConversationState::Quiescent, left, now_ms);
    dispatcher::decisions_replay(
        ConversationState::Quiescent,
        left,
        now_ms,
        ActionView::Nothing,
        second,
    );
    reveal_with_fuel(run_pass, 9);
    let released = super::backend::released(after, lease);
    assert(released.leases =~= held.leases);
    assert(Seq::<Seq<InboxItemView>>::empty().push(listed) =~= seq![listed]);
}

} // verus!
