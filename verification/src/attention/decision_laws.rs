//! What the dispatcher decides, told by the items themselves.

use vstd::prelude::*;

use super::dispatcher::{self, ActionView, ConversationState};
use super::pass_laws;
use super::types::{Attention, InboxItemView, ItemId};
use crate::filters;

verus! {

/// Whether an item arrived before another: at an earlier time, or at the same
/// and handed over before it.
pub open spec fn arrived_before(pending: Seq<InboxItemView>, i: int, j: int) -> bool {
    pending[i].appended_at_ms < pending[j].appended_at_ms || (pending[i].appended_at_ms
        == pending[j].appended_at_ms && i < j)
}

/// Whether ids are those of the pending interrupts, each once, in the order of
/// arrival: `from` says where in the pending items each stands.
pub open spec fn are_the_interrupts(
    pending: Seq<InboxItemView>,
    ids: Seq<ItemId>,
    from: Seq<int>,
) -> bool {
    &&& ids.len() == from.len()
    &&& forall|k: int|
        0 <= k < from.len() ==> 0 <= (#[trigger] from[k]) < pending.len()
            && pending[from[k]].attention is Interrupt && ids[k] == pending[from[k]].item_id
    &&& forall|j: int, k: int|
        0 <= j < k < from.len() ==> arrived_before(
            pending,
            #[trigger] from[j],
            #[trigger] from[k],
        )
    &&& forall|i: int|
        0 <= i < pending.len() && (#[trigger] pending[i]).attention is Interrupt ==> from.contains(
            i,
        )
}

/// Whether ids are those of all pending items, each once, in the order of
/// arrival.
pub open spec fn are_all(
    pending: Seq<InboxItemView>,
    ids: Seq<ItemId>,
    sorted: Seq<InboxItemView>,
) -> bool {
    &&& pass_laws::is_arrival_order(pending, sorted)
    &&& ids.len() == sorted.len()
    &&& forall|k: int| 0 <= k < ids.len() ==> #[trigger] ids[k] == sorted[k].item_id
}

/// Whether some pending item interrupts.
pub open spec fn has_interrupt(pending: Seq<InboxItemView>) -> bool {
    exists|i: int| 0 <= i < pending.len() && (#[trigger] pending[i]).attention is Interrupt
}

/// Whether all pending items are held for coalescing.
pub open spec fn all_are_held(pending: Seq<InboxItemView>) -> bool {
    forall|i: int| 0 <= i < pending.len() ==> (#[trigger] pending[i]).attention is Batch
}

/// While a round runs nothing is done; at its boundary the interrupts are
/// offered, all of them, in the order of arrival, and nothing where there are
/// none.
pub proof fn a_running_turn_is_offered_the_interrupts(
    state: ConversationState,
    pending: Seq<InboxItemView>,
    now_ms: u64,
    action: ActionView,
)
    requires
        dispatcher::is_decision(state, pending, now_ms, action),
        state != ConversationState::Quiescent,
    ensures
        if state == ConversationState::TurnRunning || !has_interrupt(pending) {
            action == ActionView::Nothing
        } else {
            exists|ids: Seq<ItemId>, from: Seq<int>|
                action == (ActionView::OfferInterrupt { items: ids })
                    && #[trigger] are_the_interrupts(pending, ids, from)
        },
{
    let keys = dispatcher::arrivals(pending);
    let order = super::ordering::order(keys);
    let sorted = dispatcher::oldest_first(pending);
    super::ordering::order_is_a_stable_sort(keys);
    let keep = |item: InboxItemView| dispatcher::interrupts(item);
    let at = filters::kept_positions(sorted, keep);
    let ids = super::types::item_ids(sorted.filter(keep));
    let from = at.map_values(|m: int| order[m]);
    assert forall|k: int| 0 <= k < from.len() implies 0 <= (#[trigger] from[k]) < pending.len()
        && pending[from[k]].attention is Interrupt && ids[k] == pending[from[k]].item_id by {
        assert(0 <= at[k] < sorted.len());
        assert(order.contains(order[at[k]]));
        assert(sorted[at[k]] == pending[order[at[k]]]);
    }
    assert forall|j: int, k: int| 0 <= j < k < from.len() implies arrived_before(
        pending,
        #[trigger] from[j],
        #[trigger] from[k],
    ) by {
        assert(at[j] < at[k]);
        assert(0 <= at[j] < sorted.len() && 0 <= at[k] < sorted.len());
        assert(super::ordering::goes_before(keys, order[at[j]], order[at[k]]));
    }
    assert forall|i: int|
        0 <= i < pending.len() && (
        #[trigger] pending[i]).attention is Interrupt implies from.contains(i) by {
        assert(order.contains(i));
        let m = choose|m: int| 0 <= m < order.len() && order[m] == i;
        assert(sorted[m] == pending[i]);
        assert((|i: int| keep(sorted[i]))(m));
        assert(at.contains(m));
        let k = choose|k: int| 0 <= k < at.len() && at[k] == m;
        assert(from[k] == i);
    }
    assert(are_the_interrupts(pending, ids, from));
    if ids.len() > 0 {
        assert(pending[from[0]].attention is Interrupt);
    }
    if has_interrupt(pending) {
        let i = choose|i: int| 0 <= i < pending.len() && (#[trigger] pending[i]).attention is Interrupt;
        assert(from.contains(i));
    }
}

/// A quiescent conversation with nothing pending has nothing to do. With
/// anything pending that is not held it opens a turn over everything; with held
/// items alone it flushes them all once a bound has come, and before that waits
/// for the earliest bound.
pub proof fn a_quiescent_conversation_drains_or_waits(
    pending: Seq<InboxItemView>,
    now_ms: u64,
    action: ActionView,
)
    requires
        dispatcher::is_decision(ConversationState::Quiescent, pending, now_ms, action),
    ensures
        if pending.len() == 0 {
            action == ActionView::Nothing
        } else if !all_are_held(pending) {
            exists|ids: Seq<ItemId>, sorted: Seq<InboxItemView>|
                action == (ActionView::OpenTurn { drain: ids }) && #[trigger] are_all(
                    pending,
                    ids,
                    sorted,
                )
        } else if !pass_laws::all_may_wait(pending, now_ms) {
            exists|ids: Seq<ItemId>, sorted: Seq<InboxItemView>|
                action == (ActionView::FlushBatch { drain: ids }) && #[trigger] are_all(
                    pending,
                    ids,
                    sorted,
                )
        } else {
            action is Wait && pass_laws::is_earliest_bound(pending, action->until_ms)
        },
{
    let sorted = dispatcher::oldest_first(pending);
    let ids = super::types::item_ids(sorted);
    pass_laws::oldest_first_is_arrival_order(pending);
    assert(are_all(pending, ids, sorted));
    if pending.len() > 0 {
        if !all_are_held(pending) {
            let i = choose|i: int|
                0 <= i < pending.len() && !((#[trigger] pending[i]).attention is Batch);
            assert(dispatcher::opens_a_turn(pending[i]));
        } else {
            assert forall|i: int| 0 <= i < pending.len() implies !(
            #[trigger] dispatcher::opens_a_turn(pending[i])) by {
                assert(pending[i].attention is Batch);
            }
            if !pass_laws::all_may_wait(pending, now_ms) {
                let i = choose|i: int|
                    0 <= i < pending.len() && !pass_laws::may_wait(#[trigger] pending[i], now_ms);
                assert(pending[i].attention is Batch);
                assert(dispatcher::batch_deadline(pending[i]) is Some);
            } else {
                assert forall|i: int|
                    0 <= i < pending.len() && (#[trigger] dispatcher::batch_deadline(
                        pending[i],
                    )) is Some implies dispatcher::batch_deadline(pending[i])->0 > now_ms by {
                    assert(pass_laws::may_wait(pending[i], now_ms));
                }
                let until_ms = action->until_ms;
                let w = choose|i: int|
                    0 <= i < pending.len() && #[trigger] dispatcher::batch_deadline(pending[i])
                        == Some(until_ms);
                assert(pass_laws::is_bound_of(pending[w], until_ms));
                assert forall|i: int| 0 <= i < pending.len() implies ((
                #[trigger] pending[i]).attention matches Attention::Batch { max_wait_ms }
                    ==> until_ms <= pending[i].appended_at_ms + max_wait_ms) by {
                    assert(dispatcher::batch_deadline(pending[i]) is Some
                        || !(pending[i].attention is Batch));
                }
            }
        }
    }
}

} // verus!
