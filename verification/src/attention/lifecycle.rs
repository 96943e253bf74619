//! What holds of an attention backend across any run of calls.

use vstd::prelude::*;

use super::backend::{BackendView, StoredView};
use super::types::{InboxItemView, ItemId, LeaseView, StatusView};

verus! {

/// One call of a backend.
pub enum BackendCall {
    Append { item: InboxItemView },
    Drain { ids: Seq<ItemId>, turn_ref: Seq<char> },
    Acknowledge { ids: Seq<ItemId> },
    Acquire { conversation_id: Seq<char>, token: Seq<char> },
    Release { lease: LeaseView },
}

/// What a call leaves.
pub open spec fn after_call(held: BackendView, call: BackendCall) -> BackendView {
    match call {
        BackendCall::Append { item } => super::backend::appended(held, item),
        BackendCall::Drain { ids, turn_ref } => super::backend::drained(held, ids, turn_ref),
        BackendCall::Acknowledge { ids } => super::backend::acknowledged(held, ids),
        BackendCall::Acquire { conversation_id, token } => super::backend::acquired(
            held,
            conversation_id,
            token,
        ),
        BackendCall::Release { lease } => super::backend::released(held, lease),
    }
}

/// What a run of calls leaves.
pub open spec fn after_calls(held: BackendView, calls: Seq<BackendCall>) -> BackendView
    decreases calls.len(),
{
    if calls.len() == 0 {
        held
    } else {
        after_call(after_calls(held, calls.drop_last()), calls.last())
    }
}

/// How far along the lifecycle a status is.
pub open spec fn progress(status: StatusView) -> nat {
    match status {
        StatusView::Pending => 0,
        StatusView::Drained { .. } => 1,
        StatusView::Acknowledged { .. } => 2,
    }
}

/// The turn an item was drained into.
pub open spec fn turn_of(status: StatusView) -> Option<Seq<char>> {
    match status {
        StatusView::Pending => None,
        StatusView::Drained { turn_ref } => Some(turn_ref),
        StatusView::Acknowledged { turn_ref } => Some(turn_ref),
    }
}

/// Whether `later` is `earlier` with nothing lost: every item is still there,
/// unchanged, no less far along, and in the turn it was drained into.
pub open spec fn extends(earlier: Seq<StoredView>, later: Seq<StoredView>) -> bool {
    &&& earlier.len() <= later.len()
    &&& forall|i: int|
        0 <= i < earlier.len() ==> {
            let was = #[trigger] earlier[i];
            let is = later[i];
            &&& is.item == was.item
            &&& progress(was.status) <= progress(is.status)
            &&& turn_of(was.status) is Some ==> turn_of(is.status) == turn_of(was.status)
        }
}

/// One call only moves items forward.
proof fn a_call_extends(held: BackendView, call: BackendCall)
    ensures
        extends(held.items, after_call(held, call).items),
{
}

/// Items are never lost, never change and never move back, whatever is called:
/// an item stays in the turn it was drained into.
pub proof fn items_only_move_forward(held: BackendView, calls: Seq<BackendCall>)
    ensures
        extends(held.items, after_calls(held, calls).items),
    decreases calls.len(),
{
    if calls.len() > 0 {
        let before = after_calls(held, calls.drop_last());
        items_only_move_forward(held, calls.drop_last());
        a_call_extends(before, calls.last());
        assert forall|i: int| 0 <= i < held.items.len() implies ({
            let was = #[trigger] held.items[i];
            let is = after_calls(held, calls).items[i];
            &&& is.item == was.item
            &&& progress(was.status) <= progress(is.status)
            &&& turn_of(was.status) is Some ==> turn_of(is.status) == turn_of(was.status)
        }) by {
            assert(before.items[i].item == held.items[i].item);
        }
    }
}

/// No two items ever claim one key.
pub proof fn keys_stay_unique(held: BackendView, calls: Seq<BackendCall>)
    requires
        super::backend::keys_are_unique(held.items),
    ensures
        super::backend::keys_are_unique(after_calls(held, calls).items),
    decreases calls.len(),
{
    if calls.len() > 0 {
        let before = after_calls(held, calls.drop_last());
        let after = after_call(before, calls.last());
        keys_stay_unique(held, calls.drop_last());
        assert forall|i: int, j: int| 0 <= i < j < after.items.len() implies !super::backend::claims(
            #[trigger] after.items[i],
            (#[trigger] after.items[j]).item.conversation_id,
            after.items[j].item.dedupe_key,
        ) by {
            if j < before.items.len() {
                assert(!super::backend::claims(
                    before.items[i],
                    before.items[j].item.conversation_id,
                    before.items[j].item.dedupe_key,
                ));
            } else {
                let item = calls.last()->item;
                assert(!super::backend::claims(
                    before.items[i],
                    item.conversation_id,
                    item.dedupe_key,
                ));
            }
        }
    }
}

/// Identity at append: once an item is in, any later append of the same fact,
/// whatever was called in between, changes nothing and names the item that is
/// there. A redelivery after the drain is still the one item.
pub proof fn a_fact_is_appended_once(
    held: BackendView,
    first: InboxItemView,
    between: Seq<BackendCall>,
    again: InboxItemView,
)
    requires
        super::backend::keys_are_unique(held.items),
        again.conversation_id == first.conversation_id,
        again.dedupe_key == first.dedupe_key,
    ensures
        ({
            let later = after_calls(super::backend::appended(held, first), between);
            &&& super::backend::appended(later, again) == later
            &&& super::backend::append_outcome(later, again).deduplicated
            &&& super::backend::append_outcome(later, again).item_id
                == super::backend::append_outcome(held, first).item_id
        }),
{
    let c = first.conversation_id;
    let k = first.dedupe_key;
    let started = super::backend::appended(held, first);
    let later = after_calls(started, between);
    keys_stay_unique(held, seq![BackendCall::Append { item: first }]);
    assert(seq![BackendCall::Append { item: first }].drop_last() =~= Seq::empty());
    assert(after_calls(held, seq![BackendCall::Append { item: first }]) == started) by {
        reveal_with_fuel(after_calls, 2);
    }
    keys_stay_unique(started, between);
    items_only_move_forward(started, between);
    let at: int = if super::backend::is_claimed(held.items, c, k) {
        super::backend::claimant(held.items, c, k)
    } else {
        held.items.len() as int
    };
    assert(super::backend::claims(started.items[at], c, k));
    assert(super::backend::claims(later.items[at], c, k));
    let found = super::backend::claimant(later.items, c, k);
    assert(super::backend::claims(later.items[found], c, k));
    if found < at {
        assert(!super::backend::claims(
            later.items[found],
            later.items[at].item.conversation_id,
            later.items[at].item.dedupe_key,
        ));
    } else if at < found {
        assert(!super::backend::claims(
            later.items[at],
            later.items[found].item.conversation_id,
            later.items[found].item.dedupe_key,
        ));
    }
}

/// A key is scoped to its conversation: an append is deduplicated by another
/// item only where both conversation and key agree.
pub proof fn keys_are_scoped_to_their_conversation(
    held: BackendView,
    first: InboxItemView,
    second: InboxItemView,
)
    requires
        first.conversation_id != second.conversation_id || first.dedupe_key != second.dedupe_key,
    ensures
        super::backend::append_outcome(
            super::backend::appended(held, first),
            second,
        ).deduplicated == super::backend::append_outcome(held, second).deduplicated,
{
    let c = second.conversation_id;
    let k = second.dedupe_key;
    let after = super::backend::appended(held, first);
    if super::backend::is_claimed(held.items, c, k) {
        let i = super::backend::claimant(held.items, c, k);
        assert(super::backend::claims(held.items[i], c, k));
        assert(super::backend::claims(after.items[i], c, k));
    }
    if super::backend::is_claimed(after.items, c, k) {
        let i = super::backend::claimant(after.items, c, k);
        assert(super::backend::claims(after.items[i], c, k));
        if i < held.items.len() {
            assert(super::backend::claims(held.items[i], c, k));
        }
    }
}

/// Exactly-once delivery: an item that a drain moved is moved by no later
/// drain, whatever is called in between.
pub proof fn an_item_is_drained_once(
    held: BackendView,
    ids: Seq<ItemId>,
    turn_ref: Seq<char>,
    between: Seq<BackendCall>,
    later_ids: Seq<ItemId>,
    i: int,
)
    requires
        0 <= i < held.items.len(),
        super::backend::drains(held.items[i], ids),
    ensures
        ({
            let later = after_calls(super::backend::drained(held, ids, turn_ref), between);
            &&& i < later.items.len()
            &&& later.items[i].item == held.items[i].item
            &&& turn_of(later.items[i].status) == Some(turn_ref)
            &&& !super::backend::drains(later.items[i], later_ids)
            &&& !super::backend::is_pending(later.items[i], later.items[i].item.conversation_id)
        }),
{
    let started = super::backend::drained(held, ids, turn_ref);
    items_only_move_forward(started, between);
    assert(started.items[i].status == (StatusView::Drained { turn_ref }));
}

/// An acknowledgement moves only drained items, and each once: an item it moved
/// is moved by no later acknowledgement, and an item that is pending is moved
/// by none.
pub proof fn an_item_is_acknowledged_once(
    held: BackendView,
    ids: Seq<ItemId>,
    between: Seq<BackendCall>,
    later_ids: Seq<ItemId>,
    i: int,
)
    requires
        0 <= i < held.items.len(),
        super::backend::acknowledges(held.items[i], ids),
    ensures
        held.items[i].status is Drained,
        ({
            let later = after_calls(super::backend::acknowledged(held, ids), between);
            &&& i < later.items.len()
            &&& later.items[i].status is Acknowledged
            &&& turn_of(later.items[i].status) == turn_of(held.items[i].status)
            &&& !super::backend::acknowledges(later.items[i], later_ids)
            &&& !super::backend::drains(later.items[i], later_ids)
        }),
{
    let started = super::backend::acknowledged(held, ids);
    items_only_move_forward(started, between);
    assert(started.items[i].status is Acknowledged);
}

/// Replaying a drain is a no-op: it moves nothing and reports nothing.
pub proof fn replaying_a_drain_changes_nothing(
    held: BackendView,
    ids: Seq<ItemId>,
    turn_ref: Seq<char>,
    later_turn: Seq<char>,
)
    ensures
        ({
            let once = super::backend::drained(held, ids, turn_ref);
            &&& super::backend::drained(once, ids, later_turn) == once
            &&& super::backend::drained_ids(once.items, ids).len() == 0
        }),
{
    let once = super::backend::drained(held, ids, turn_ref);
    assert(super::backend::drained(once, ids, later_turn).items =~= once.items);
    let pred = |stored: StoredView| super::backend::drains(stored, ids);
    assert forall|i: int| 0 <= i < once.items.len() implies !pred(once.items[i]) by {}
    once.items.lemma_all_neg_filter_empty(pred);
}

/// Replaying an acknowledgement is a no-op: it moves nothing and reports
/// nothing.
pub proof fn replaying_an_acknowledgement_changes_nothing(held: BackendView, ids: Seq<ItemId>)
    ensures
        ({
            let once = super::backend::acknowledged(held, ids);
            &&& super::backend::acknowledged(once, ids) == once
            &&& super::backend::acknowledged_ids(once.items, ids).len() == 0
        }),
{
    let once = super::backend::acknowledged(held, ids);
    assert(super::backend::acknowledged(once, ids).items =~= once.items);
    let pred = |stored: StoredView| super::backend::acknowledges(stored, ids);
    assert forall|i: int| 0 <= i < once.items.len() implies !pred(once.items[i]) by {}
    once.items.lemma_all_neg_filter_empty(pred);
}

/// A call that is no release of the live lease leaves the lease in place.
pub open spec fn spares(call: BackendCall, lease: LeaseView) -> bool {
    call matches BackendCall::Release { lease: given } ==> given != lease
}

/// A granted lease stays the live one of its conversation until it is itself
/// released: no acquisition, and no release with another token, touches it.
pub proof fn a_lease_is_exclusive_until_released(
    held: BackendView,
    lease: LeaseView,
    calls: Seq<BackendCall>,
)
    requires
        super::backend::is_live(held, lease),
        forall|i: int| 0 <= i < calls.len() ==> spares(#[trigger] calls[i], lease),
    ensures
        super::backend::is_live(after_calls(held, calls), lease),
    decreases calls.len(),
{
    if calls.len() > 0 {
        let rest = calls.drop_last();
        assert forall|i: int| 0 <= i < rest.len() implies spares(#[trigger] rest[i], lease) by {
            assert(rest[i] == calls[i]);
        }
        a_lease_is_exclusive_until_released(held, lease, rest);
        let last = calls[calls.len() - 1];
        assert(spares(last, lease));
        if last is Release {
            let given = last->lease;
            let before = after_calls(held, rest);
            if super::backend::is_live(before, given) && given.conversation_id
                == lease.conversation_id {
                assert(given == lease);
            }
        }
    }
}

/// Fencing: a lease whose token is not the live one can neither renew nor
/// release, so a holder that lost its lease cannot touch its successor's.
pub proof fn a_stale_lease_is_powerless(held: BackendView, live: LeaseView, stale: LeaseView)
    requires
        super::backend::is_live(held, live),
        stale.conversation_id == live.conversation_id,
        stale.token != live.token,
    ensures
        !super::backend::is_live(held, stale),
        super::backend::released(held, stale) == held,
        super::backend::is_live(super::backend::released(held, stale), live),
{
}

/// A released conversation can be leased again, under the new token.
pub proof fn a_released_lease_can_be_taken(held: BackendView, lease: LeaseView, token: Seq<char>)
    requires
        super::backend::is_live(held, lease),
    ensures
        ({
            let free = super::backend::released(held, lease);
            let taken = super::backend::acquired(free, lease.conversation_id, token);
            &&& !free.leases.contains_key(lease.conversation_id)
            &&& super::backend::is_live(
                taken,
                LeaseView { conversation_id: lease.conversation_id, token },
            )
        }),
{
}

} // verus!
