//! What a dispatch pass does with what it lists, told by the items themselves.

use vstd::prelude::*;

use super::backend::{BackendView, StoredView};
use super::dispatch::{PassEffectView, PassEnd, PassEventView, PassPhaseView};
use super::dispatch_laws;
use super::dispatcher::{self, ActionView, ConversationState};
use super::types::{Attention, InboxItemView, ItemId, LeaseView, StatusView};

verus! {

/// Whether an item is held for coalescing and may be held past an instant.
pub open spec fn may_wait(item: InboxItemView, now_ms: u64) -> bool {
    item.attention matches Attention::Batch { max_wait_ms } && item.appended_at_ms + max_wait_ms
        > now_ms && now_ms < u64::MAX
}

/// Whether every pending item is held and may be held on.
pub open spec fn all_may_wait(pending: Seq<InboxItemView>, now_ms: u64) -> bool {
    pending.len() > 0 && forall|i: int|
        0 <= i < pending.len() ==> may_wait(#[trigger] pending[i], now_ms)
}

/// Whether an instant is the last at which an item may be held: its arrival plus
/// its longest wait, or the end of time where that comes first.
pub open spec fn is_bound_of(item: InboxItemView, instant: u64) -> bool {
    item.attention matches Attention::Batch { max_wait_ms } && if item.appended_at_ms + max_wait_ms
        < u64::MAX {
        instant == item.appended_at_ms + max_wait_ms
    } else {
        instant == u64::MAX
    }
}

/// Whether an instant is the earliest bound of some held items: the bound of one
/// of them, and behind the bound of none.
pub open spec fn is_earliest_bound(pending: Seq<InboxItemView>, instant: u64) -> bool {
    &&& exists|i: int| 0 <= i < pending.len() && is_bound_of(#[trigger] pending[i], instant)
    &&& forall|i: int|
        0 <= i < pending.len() ==> ((#[trigger] pending[i]).attention matches Attention::Batch {
            max_wait_ms,
        } ==> instant <= pending[i].appended_at_ms + max_wait_ms)
}

/// Whether `sorted` is `pending` in the order of arrival: the same items, each
/// once, no later one before an earlier one, and those of one millisecond as
/// they stood.
pub open spec fn is_arrival_order(pending: Seq<InboxItemView>, sorted: Seq<InboxItemView>) -> bool {
    exists|order: Seq<int>| #[trigger] sorts_by_arrival(pending, sorted, order)
}

/// Whether `sorted` is `pending` in the order of arrival, rearranged by `order`.
pub open spec fn sorts_by_arrival(
    pending: Seq<InboxItemView>,
    sorted: Seq<InboxItemView>,
    order: Seq<int>,
) -> bool {
    &&& sorted.len() == pending.len()
    &&& order.len() == pending.len()
    &&& forall|k: int|
        0 <= k < order.len() ==> 0 <= (#[trigger] order[k]) < pending.len() && sorted[k]
            == pending[order[k]]
    &&& forall|j: int, k: int|
        0 <= j < k < order.len() ==> {
            let earlier = pending[#[trigger] order[j]].appended_at_ms;
            let later = pending[#[trigger] order[k]].appended_at_ms;
            earlier < later || (earlier == later && order[j] < order[k])
        }
}

/// The dispatcher's sort is by arrival.
pub(crate) proof fn oldest_first_is_arrival_order(pending: Seq<InboxItemView>)
    ensures
        is_arrival_order(pending, dispatcher::oldest_first(pending)),
{
    let keys = dispatcher::arrivals(pending);
    let order = super::ordering::order(keys);
    let sorted = dispatcher::oldest_first(pending);
    super::ordering::order_is_a_stable_sort(keys);
    assert forall|k: int| 0 <= k < order.len() implies 0 <= (#[trigger] order[k]) < pending.len()
        && sorted[k] == pending[order[k]] by {
        assert(order.contains(order[k]));
    }
    assert forall|j: int, k: int| 0 <= j < k < order.len() implies ({
        let earlier = pending[#[trigger] order[j]].appended_at_ms;
        let later = pending[#[trigger] order[k]].appended_at_ms;
        earlier < later || (earlier == later && order[j] < order[k])
    }) by {
        assert(super::ordering::goes_before(keys, order[j], order[k]));
    }
    assert(sorts_by_arrival(pending, sorted, order));
}

/// What a pass asks for tells where it stands.
proof fn effects_tell_phases(events: Seq<PassEventView>)
    requires
        dispatch_laws::is_history(events),
    ensures
        ({
            let (phase, effect) = dispatch_laws::after_events(events);
            &&& effect is Acquire <==> phase is Acquiring
            &&& effect is List <==> phase is Listing
            &&& effect is MarkDrained <==> phase is Draining
            &&& effect is OpenTurn <==> phase is Turning
            &&& effect is Acknowledge <==> phase is Acknowledging
            &&& effect is Sleep <==> phase is Sleeping
            &&& effect is Renew <==> phase is Renewing
            &&& effect is Release <==> phase is Releasing
            &&& effect is Relist <==> phase is Relisting
            &&& effect is Finish <==> phase is Finished
            &&& phase matches PassPhaseView::Draining { pending, drain } ==> pending
                == last_listed(events) && effect == (PassEffectView::MarkDrained { ids: drain })
                && drain == super::types::item_ids(dispatcher::oldest_first(pending))
        }),
    decreases events.len(),
{
    if events.len() > 0 {
        let before = events.drop_last();
        effects_tell_phases(before);
        let (phase, _) = dispatch_laws::after_events(before);
        if phase is Listing {
            if let PassEventView::Listed { pending, now_ms } = events.last() {
                a_decision_is_made(pending, now_ms);
            }
        }
    }
}

/// The items that were listed last.
pub open spec fn last_listed(events: Seq<PassEventView>) -> Seq<InboxItemView>
    decreases events.len(),
{
    if events.len() == 0 {
        Seq::empty()
    } else {
        match events.last() {
            PassEventView::Listed { pending, .. } => pending,
            _ => last_listed(events.drop_last()),
        }
    }
}

/// A held item and its bound.
proof fn bounds_agree(item: InboxItemView)
    ensures
        dispatcher::opens_a_turn(item) <==> !(item.attention is Batch),
        dispatcher::batch_deadline(item) is Some <==> item.attention is Batch,
        item.attention is Batch ==> is_bound_of(item, dispatcher::batch_deadline(item)->0),
{
}

/// Some bound is the earliest.
proof fn some_bound_is_the_earliest(pending: Seq<InboxItemView>) -> (until_ms: u64)
    requires
        pending.len() > 0,
        forall|i: int| 0 <= i < pending.len() ==> (#[trigger] pending[i]).attention is Batch,
    ensures
        is_earliest_bound(pending, until_ms),
        dispatcher::is_earliest_deadline(pending, until_ms),
    decreases pending.len(),
{
    let rest = pending.drop_last();
    let last = pending[pending.len() - 1];
    let own = dispatcher::batch_deadline(last)->0;
    bounds_agree(last);
    let until_ms = if rest.len() == 0 {
        own
    } else {
        assert forall|i: int| 0 <= i < rest.len() implies (#[trigger] rest[i]).attention is Batch by {
            assert(rest[i] == pending[i]);
        }
        let before = some_bound_is_the_earliest(rest);
        if before < own {
            before
        } else {
            own
        }
    };
    if until_ms == own {
        assert(is_bound_of(pending[pending.len() - 1], until_ms));
        assert(dispatcher::batch_deadline(pending[pending.len() - 1]) == Some(until_ms));
    } else {
        let i = choose|i: int|
            0 <= i < rest.len() && #[trigger] dispatcher::batch_deadline(rest[i]) == Some(
                until_ms,
            );
        assert(dispatcher::batch_deadline(pending[i]) == Some(until_ms));
        bounds_agree(pending[i]);
        assert(is_bound_of(pending[i], until_ms));
    }
    assert forall|i: int|
        0 <= i < pending.len() && #[trigger] dispatcher::batch_deadline(
            pending[i],
        ) is Some implies until_ms <= dispatcher::batch_deadline(pending[i])->0 by {
        if i < rest.len() {
            assert(rest[i] == pending[i]);
            assert(dispatcher::batch_deadline(rest[i]) is Some);
        }
    }
    assert forall|i: int| 0 <= i < pending.len() implies ((
    #[trigger] pending[i]).attention matches Attention::Batch { max_wait_ms } ==> until_ms
        <= pending[i].appended_at_ms + max_wait_ms) by {
        bounds_agree(pending[i]);
        assert(dispatcher::batch_deadline(pending[i]) is Some);
    }
    until_ms
}

/// The decision over what was listed, told by the items.
proof fn a_decision_is_made(pending: Seq<InboxItemView>, now_ms: u64)
    ensures
        ({
            let decided = dispatcher::decision(ConversationState::Quiescent, pending, now_ms);
            let drain = super::types::item_ids(dispatcher::oldest_first(pending));
            &&& pending.len() == 0 ==> decided is Nothing
            &&& all_may_wait(pending, now_ms) ==> decided is Wait && is_earliest_bound(
                pending,
                decided->until_ms,
            ) && decided->until_ms > now_ms
            &&& pending.len() > 0 && !all_may_wait(pending, now_ms) ==> decided
                == (ActionView::OpenTurn { drain }) || decided == (ActionView::FlushBatch { drain })
            &&& decided is Wait ==> all_may_wait(pending, now_ms)
            &&& !(decided is OfferInterrupt)
        }),
{
    let state = ConversationState::Quiescent;
    let decided = dispatcher::decision(state, pending, now_ms);
    let drain = super::types::item_ids(dispatcher::oldest_first(pending));
    assert forall|i: int| 0 <= i < pending.len() implies dispatcher::opens_a_turn(
        #[trigger] pending[i],
    ) == !(pending[i].attention is Batch) by {
        bounds_agree(pending[i]);
    }
    if pending.len() == 0 {
        assert(dispatcher::is_decision(state, pending, now_ms, ActionView::Nothing));
    } else if exists|i: int| 0 <= i < pending.len() && #[trigger] dispatcher::opens_a_turn(
        pending[i],
    ) {
        let i = choose|i: int|
            0 <= i < pending.len() && #[trigger] dispatcher::opens_a_turn(pending[i]);
        assert(!may_wait(pending[i], now_ms));
        assert(dispatcher::is_decision(state, pending, now_ms, ActionView::OpenTurn { drain }));
        dispatcher::decisions_replay(
            state,
            pending,
            now_ms,
            ActionView::OpenTurn { drain },
            decided,
        );
    } else if exists|i: int|
        0 <= i < pending.len() && (#[trigger] dispatcher::batch_deadline(pending[i])) is Some
            && dispatcher::batch_deadline(pending[i])->0 <= now_ms {
        let i = choose|i: int|
            0 <= i < pending.len() && (#[trigger] dispatcher::batch_deadline(pending[i])) is Some
                && dispatcher::batch_deadline(pending[i])->0 <= now_ms;
        bounds_agree(pending[i]);
        assert(!may_wait(pending[i], now_ms));
        assert(dispatcher::is_decision(state, pending, now_ms, ActionView::FlushBatch { drain }));
        dispatcher::decisions_replay(
            state,
            pending,
            now_ms,
            ActionView::FlushBatch { drain },
            decided,
        );
    } else {
        assert forall|i: int| 0 <= i < pending.len() implies (#[trigger] pending[i]).attention
            is Batch && may_wait(pending[i], now_ms) by {
            assert(!dispatcher::opens_a_turn(pending[i]));
            bounds_agree(pending[i]);
            assert(dispatcher::batch_deadline(pending[i]) is Some);
        }
        let until_ms = some_bound_is_the_earliest(pending);
        assert(dispatcher::is_decision(state, pending, now_ms, ActionView::Wait { until_ms }));
        dispatcher::decisions_replay(
            state,
            pending,
            now_ms,
            ActionView::Wait { until_ms },
            decided,
        );
        let w = choose|i: int|
            0 <= i < pending.len() && is_bound_of(#[trigger] pending[i], until_ms);
        assert(may_wait(pending[w], now_ms));
    }
}

/// Held items are waited for no longer than they may be held: where every
/// listed item may still wait, the pass sleeps until the earliest of their
/// bounds, and until no other instant.
pub proof fn a_pass_sleeps_until_the_earliest_bound(
    events: Seq<PassEventView>,
    pending: Seq<InboxItemView>,
    now_ms: u64,
)
    requires
        dispatch_laws::is_history(events),
        dispatch_laws::after_events(events).1 is List,
        all_may_wait(pending, now_ms),
    ensures
        ({
            let effect = dispatch_laws::after_events(
                events.push(PassEventView::Listed { pending, now_ms }),
            ).1;
            &&& effect is Sleep
            &&& is_earliest_bound(pending, effect->until_ms)
            &&& effect->until_ms > now_ms
        }),
{
    let listed = PassEventView::Listed { pending, now_ms };
    effects_tell_phases(events);
    a_decision_is_made(pending, now_ms);
    assert(events.push(listed).drop_last() =~= events);
}

/// Whatever opens a turn opens it over the whole inbox: where any listed item
/// may not be held on, everything listed is drained, in the order of arrival.
/// An empty inbox is given up.
pub proof fn a_pass_drains_what_may_not_wait(
    events: Seq<PassEventView>,
    pending: Seq<InboxItemView>,
    now_ms: u64,
)
    requires
        dispatch_laws::is_history(events),
        dispatch_laws::after_events(events).1 is List,
        !all_may_wait(pending, now_ms),
    ensures
        ({
            let effect = dispatch_laws::after_events(
                events.push(PassEventView::Listed { pending, now_ms }),
            ).1;
            if pending.len() == 0 {
                effect is Release
            } else {
                exists|sorted: Seq<InboxItemView>|
                    is_arrival_order(pending, sorted) && effect == (PassEffectView::MarkDrained {
                        ids: #[trigger] super::types::item_ids(sorted),
                    })
            }
        }),
{
    let listed = PassEventView::Listed { pending, now_ms };
    effects_tell_phases(events);
    a_decision_is_made(pending, now_ms);
    assert(events.push(listed).drop_last() =~= events);
    oldest_first_is_arrival_order(pending);
    let sorted = dispatcher::oldest_first(pending);
    assert(super::types::item_ids(sorted) == super::types::item_ids(sorted));
}

/// A turn is opened over the drained items that this pass moved, and over no
/// others: every item of it was listed and moved, every moved id that was asked
/// for is in it, and they stand in the order in which they were drained. Where
/// nothing was moved, the inbox is listed again.
pub proof fn a_turn_is_opened_over_what_was_moved(
    events: Seq<PassEventView>,
    ids: Seq<ItemId>,
    moved: Seq<ItemId>,
)
    requires
        dispatch_laws::is_history(events),
        dispatch_laws::after_events(events).1 == (PassEffectView::MarkDrained { ids }),
    ensures
        ({
            let effect = dispatch_laws::after_events(
                events.push(PassEventView::Drained { moved }),
            ).1;
            if moved.len() == 0 {
                effect is List
            } else {
                &&& effect is OpenTurn
                &&& super::types::item_ids(effect->items) == ids.filter(
                    |id: ItemId| moved.contains(id),
                )
                &&& forall|k: int|
                    0 <= k < effect->items.len() ==> last_listed(events).contains(
                        #[trigger] effect->items[k],
                    ) && moved.contains(effect->items[k].item_id)
            }
        }),
{
    let drained = PassEventView::Drained { moved };
    effects_tell_phases(events);
    assert(events.push(drained).drop_last() =~= events);
    let (phase, _) = dispatch_laws::after_events(events);
    let pending = last_listed(events);
    let sorted = dispatcher::oldest_first(pending);
    dispatch_laws::oldest_first_is_settled(pending);
    assert(super::dispatch::is_consistent(phase)) by {
        assert forall|k: int| 0 <= k < ids.len() implies super::types::item_ids(pending).contains(
            #[trigger] ids[k],
        ) by {
            assert(sorted.contains(sorted[k]));
            let p = choose|p: int| 0 <= p < pending.len() && pending[p] == sorted[k];
            assert(super::types::item_ids(pending)[p] == ids[k]);
        }
    }
    if moved.len() > 0 {
        dispatch_laws::a_turn_holds_what_was_moved(pending, ids, moved);
        let items = super::dispatch::turn_items(pending, ids, moved);
        let kept = ids.filter(|id: ItemId| moved.contains(id));
        assert forall|k: int| 0 <= k < items.len() implies last_listed(events).contains(
            #[trigger] items[k],
        ) && moved.contains(items[k].item_id) by {
            assert(super::types::item_ids(items)[k] == kept[k]);
            assert((|id: ItemId| moved.contains(id))(kept[k]));
        }
    }
}

/// Whether, by what a pass was told, it holds the lease: it was granted, and
/// neither given up nor found to be lost since.
pub open spec fn keeps_lease(events: Seq<PassEventView>) -> bool
    decreases events.len(),
{
    if events.len() == 0 {
        false
    } else {
        match events.last() {
            PassEventView::Acquired { granted } => granted,
            PassEventView::Renewed { held } => held,
            PassEventView::Released => false,
            _ => keeps_lease(events.drop_last()),
        }
    }
}

/// A pass whose lease ran out while it slept touches nothing any more: items
/// are drained, handed to a turn, acknowledged and waited for only under a lease
/// that was not lost.
pub proof fn a_lost_lease_stops_the_pass(events: Seq<PassEventView>)
    requires
        dispatch_laws::is_history(events),
        ({
            let effect = dispatch_laws::after_events(events).1;
            effect is List || effect is MarkDrained || effect is OpenTurn || effect is Acknowledge
                || effect is Sleep || effect is Renew
        }),
    ensures
        keeps_lease(events),
    decreases events.len(),
{
    effects_tell_phases(events);
    if events.len() > 0 {
        let before = events.drop_last();
        effects_tell_phases(before);
        let effect = dispatch_laws::after_events(before).1;
        if effect is List || effect is MarkDrained || effect is OpenTurn || effect is Acknowledge
            || effect is Sleep || effect is Renew {
            a_lost_lease_stops_the_pass(before);
        }
    }
}

/// Nothing ends a pass while it has the lease, and nothing makes it give up a
/// lease that it keeps but an empty listing or a failure: after each operation
/// that went well it goes on, after a sleep it makes sure of the lease and lists
/// again, and once the lease is given up it looks for what came meanwhile.
pub proof fn a_pass_goes_on(events: Seq<PassEventView>, event: PassEventView)
    requires
        dispatch_laws::is_history(events.push(event)),
    ensures
        ({
            let effect = dispatch_laws::after_events(events).1;
            let next = dispatch_laws::after_events(events.push(event)).1;
            &&& effect is Acquire && event == (PassEventView::Acquired { granted: true })
                ==> next is List
            &&& effect is OpenTurn && event is Turned ==> next is Acknowledge
            &&& effect is Acknowledge && event is Acknowledged ==> next is List
            &&& effect is Sleep ==> next is Renew
            &&& effect is Renew && event == (PassEventView::Renewed { held: true })
                ==> next is List
            &&& effect is Renew && event == (PassEventView::Renewed { held: false })
                ==> next is Release
            &&& effect is Release && event is Released ==> next is Relist || next == (
            PassEffectView::Finish { end: PassEnd::FailedUnderLease })
            &&& effect is Relist && event == (PassEventView::Relisted { empty: false })
                ==> next is Acquire
            &&& event is Failed && dispatch_laws::holds_lease(events) && !(effect is Release)
                ==> next is Release
            &&& next is Finish ==> !dispatch_laws::holds_lease(events) || effect is Release
            &&& next == (PassEffectView::Finish { end: PassEnd::FailedUnderLease })
                ==> exists|i: int| 0 <= i < events.len() && #[trigger] events[i] is Failed
        }),
{
    let all = events.push(event);
    assert(all.drop_last() =~= events);
    effects_tell_phases(events);
    effects_tell_phases(all);
    phases_tell_failures(events);
    phases_tell_leases(events);
}

/// The phases under the lease.
proof fn phases_tell_leases(events: Seq<PassEventView>)
    requires
        dispatch_laws::is_history(events),
    ensures
        ({
            let phase = dispatch_laws::after_events(events).0;
            &&& phase is Acquiring || phase is Relisting ==> !dispatch_laws::holds_lease(events)
            &&& phase is Finished || dispatch_laws::is_under_lease(phase)
                == dispatch_laws::holds_lease(events)
        }),
    decreases events.len(),
{
    if events.len() > 0 {
        phases_tell_leases(events.drop_last());
    }
}

/// A pass counts as failed only where something failed.
proof fn phases_tell_failures(events: Seq<PassEventView>)
    requires
        dispatch_laws::is_history(events),
    ensures
        dispatch_laws::after_events(events).0 == (PassPhaseView::Releasing { failed: true })
            ==> exists|i: int| 0 <= i < events.len() && #[trigger] events[i] is Failed,
{
    if events.len() > 0 {
        effects_tell_phases(events.drop_last());
        assert(events[events.len() - 1] == events.last());
        let (phase, _) = dispatch_laws::after_events(events.drop_last());
        if phase is Listing {
            if let PassEventView::Listed { pending, now_ms } = events.last() {
                a_decision_is_made(pending, now_ms);
            }
        }
    }
}

/// Whether an item that was pending in a conversation is acknowledged in a turn,
/// and every other is as it was.
pub open spec fn is_drained_inbox(
    before: Seq<StoredView>,
    after: Seq<StoredView>,
    conversation_id: Seq<char>,
    turn_ref: Seq<char>,
) -> bool {
    &&& after.len() == before.len()
    &&& forall|i: int|
        0 <= i < before.len() ==> (#[trigger] after[i]).item == before[i].item && after[i].status
            == if before[i].item.conversation_id == conversation_id
            && before[i].status is Pending {
            StatusView::Acknowledged { turn_ref }
        } else {
            before[i].status
        }
}

/// What a pass makes of a backend whose lease it has, once the inbox may not be
/// held on: one turn over everything, and the lease given back.
proof fn a_leased_inbox_is_drained(
    leased: BackendView,
    lease: LeaseView,
    turn_ref: Seq<char>,
    now_ms: u64,
)
    requires
        dispatch_laws::ids_are_unique(leased.items),
        super::backend::is_live(leased, lease),
        super::backend::pending_of(leased.items, lease.conversation_id).len() > 0,
        !all_may_wait(
            dispatcher::oldest_first(
                super::backend::pending_of(leased.items, lease.conversation_id),
            ),
            now_ms,
        ),
    ensures
        dispatch_laws::run_pass(
            leased,
            lease,
            turn_ref,
            now_ms,
            PassPhaseView::Listing,
            PassEffectView::List,
            Seq::empty(),
            7,
        ) == (
            BackendView {
                items: leased.items.map_values(
                    |stored: StoredView|
                        dispatch_laws::after_pass(stored, lease.conversation_id, turn_ref),
                ),
                leases: leased.leases.remove(lease.conversation_id),
            },
            seq![
                dispatcher::oldest_first(
                    super::backend::pending_of(leased.items, lease.conversation_id),
                ),
            ],
            now_ms,
            Some(PassEnd::Drained),
        ),
{
    let conversation_id = lease.conversation_id;
    let pending = super::backend::pending_of(leased.items, conversation_id);
    let listed = dispatcher::oldest_first(pending);
    let drain = super::types::item_ids(listed);
    dispatch_laws::oldest_first_is_settled(pending);
    a_decision_is_made(listed, now_ms);
    dispatch_laws::everything_listed_is_turned(leased, conversation_id, turn_ref);
    let moved = super::backend::drained_ids(leased.items, drain);
    let after = super::backend::acknowledged(
        super::backend::drained(leased, drain, turn_ref),
        moved,
    );
    let left = dispatcher::oldest_first(super::backend::pending_of(after.items, conversation_id));
    dispatch_laws::oldest_first_is_settled(
        super::backend::pending_of(after.items, conversation_id),
    );
    assert(left.len() == 0);
    a_decision_is_made(left, now_ms);
    assert(moved.len() > 0) by {
        assert(moved == super::types::item_ids(pending));
    }
    reveal_with_fuel(dispatch_laws::run_pass, 8);
    assert(Seq::<Seq<InboxItemView>>::empty().push(listed) =~= seq![listed]);
}

/// What holds of every listed item holds of every pending one.
proof fn sorting_keeps_the_bounds(pending: Seq<InboxItemView>, now_ms: u64)
    ensures
        all_may_wait(dispatcher::oldest_first(pending), now_ms) == all_may_wait(pending, now_ms),
        forall|until_ms: u64| #[trigger]
            is_earliest_bound(dispatcher::oldest_first(pending), until_ms)
                ==> is_earliest_bound(pending, until_ms),
{
    let listed = dispatcher::oldest_first(pending);
    dispatch_laws::oldest_first_is_settled(pending);
    assert forall|i: int| 0 <= i < listed.len() implies exists|p: int|
        0 <= p < pending.len() && pending[p] == #[trigger] listed[i] by {
        assert(listed.contains(listed[i]));
        assert(pending.contains(listed[i]));
    }
    assert forall|p: int| 0 <= p < pending.len() implies exists|i: int|
        0 <= i < listed.len() && listed[i] == #[trigger] pending[p] by {
        assert(pending.contains(pending[p]));
        assert(listed.contains(pending[p]));
    }
    if all_may_wait(listed, now_ms) {
        assert forall|p: int| 0 <= p < pending.len() implies may_wait(
            #[trigger] pending[p],
            now_ms,
        ) by {
            let i = choose|i: int| 0 <= i < listed.len() && listed[i] == pending[p];
            assert(may_wait(listed[i], now_ms));
        }
    }
    if all_may_wait(pending, now_ms) {
        assert forall|i: int| 0 <= i < listed.len() implies may_wait(#[trigger] listed[i], now_ms) by {
            let p = choose|p: int| 0 <= p < pending.len() && pending[p] == listed[i];
            assert(may_wait(pending[p], now_ms));
        }
    }
    assert forall|until_ms: u64| #[trigger]
        is_earliest_bound(listed, until_ms) implies is_earliest_bound(pending, until_ms) by {
        let w = choose|i: int| 0 <= i < listed.len() && is_bound_of(#[trigger] listed[i], until_ms);
        let v = choose|p: int| 0 <= p < pending.len() && pending[p] == listed[w];
        assert(is_bound_of(pending[v], until_ms));
        assert forall|p: int| 0 <= p < pending.len() implies ((
        #[trigger] pending[p]).attention matches Attention::Batch { max_wait_ms } ==> until_ms
            <= pending[p].appended_at_ms + max_wait_ms) by {
            let k = choose|k: int| 0 <= k < listed.len() && listed[k] == pending[p];
            assert(listed[k] == pending[p]);
        }
    }
}

/// An inbox is drained when its time has come: an undisturbed pass over a free
/// conversation with something pending opens one turn, over everything pending
/// in the order of arrival, acknowledges it all, gives the lease back and ends
/// with an empty inbox. It does so at once, unless everything pending may still
/// wait: then it sleeps first, until the earliest of the bounds.
pub proof fn an_inbox_is_drained_when_its_time_has_come(
    held: BackendView,
    lease: LeaseView,
    turn_ref: Seq<char>,
    now_ms: u64,
)
    requires
        dispatch_laws::ids_are_unique(held.items),
        !held.leases.contains_key(lease.conversation_id),
        super::backend::pending_of(held.items, lease.conversation_id).len() > 0,
    ensures
        ({
            let pending = super::backend::pending_of(held.items, lease.conversation_id);
            let (left, turns, clock, end) = dispatch_laws::run_pass(
                held,
                lease,
                turn_ref,
                now_ms,
                PassPhaseView::Acquiring,
                PassEffectView::Acquire,
                Seq::empty(),
                if all_may_wait(pending, now_ms) {
                    11
                } else {
                    8
                },
            );
            &&& end == Some(PassEnd::Drained)
            &&& if all_may_wait(pending, now_ms) {
                is_earliest_bound(pending, clock)
            } else {
                clock == now_ms
            }
            &&& turns.len() == 1
            &&& is_arrival_order(pending, turns[0])
            &&& is_drained_inbox(held.items, left.items, lease.conversation_id, turn_ref)
            &&& left.leases == held.leases
        }),
{
    let conversation_id = lease.conversation_id;
    let state = ConversationState::Quiescent;
    let pending = super::backend::pending_of(held.items, conversation_id);
    let listed = dispatcher::oldest_first(pending);
    let leased = super::backend::acquired(held, conversation_id, lease.token);
    let drained = BackendView {
        items: held.items.map_values(
            |stored: StoredView| dispatch_laws::after_pass(stored, conversation_id, turn_ref),
        ),
        leases: leased.leases.remove(conversation_id),
    };
    sorting_keeps_the_bounds(pending, now_ms);
    oldest_first_is_arrival_order(pending);
    a_decision_is_made(listed, now_ms);
    dispatch_laws::oldest_first_is_settled(pending);
    if all_may_wait(pending, now_ms) {
        let until_ms = dispatcher::decision(state, listed, now_ms)->until_ms;
        assert(is_earliest_bound(pending, until_ms));
        // At the bound nothing may wait any more.
        let w = choose|i: int| 0 <= i < listed.len() && is_bound_of(#[trigger] listed[i], until_ms);
        assert(!may_wait(listed[w], until_ms));
        a_leased_inbox_is_drained(leased, lease, turn_ref, until_ms);
        reveal_with_fuel(dispatch_laws::run_pass, 5);
    } else {
        a_leased_inbox_is_drained(leased, lease, turn_ref, now_ms);
        reveal_with_fuel(dispatch_laws::run_pass, 2);
    }
    assert(drained.leases =~= held.leases);
    assert(is_drained_inbox(held.items, drained.items, conversation_id, turn_ref));
}

} // verus!
