//! The dispatcher's decision.

use vstd::prelude::*;

use super::ordering;
use super::types::{Attention, InboxItem, InboxItemView, ItemId};

verus! {

/// Where the conversation is, from the dispatcher's point of view.
#[derive(Debug, Clone, Copy, PartialEq, Eq, Structural)]
pub enum ConversationState {
    /// A turn is executing and is mid-round. Nothing can enter it, and no new
    /// turn may open.
    TurnRunning,
    /// A turn is executing and has reached a round boundary, the one point at
    /// which an [`Attention::Interrupt`] item may join it.
    AtRoundBoundary,
    /// No turn is running.
    Quiescent,
}

/// What the dispatcher should do next.
#[derive(Debug, PartialEq, Eq)]
pub enum Action {
    /// Open one turn draining these items, oldest first. All pending items go
    /// in, whatever their attention value.
    OpenTurn { drain: Vec<ItemId> },
    /// Offer these interrupt items to the running turn at its round boundary.
    OfferInterrupt { items: Vec<ItemId> },
    /// Open one turn because a batch item reached its bound. The same as
    /// [`Action::OpenTurn`] but for what triggered it.
    FlushBatch { drain: Vec<ItemId> },
    /// Nothing to do until this instant, when a batch bound expires.
    Wait { until_ms: u64 },
    /// Nothing to do, and no clock will change that.
    Nothing,
}

/// The contents of an [`Action`].
#[verifier::ext_equal]
pub enum ActionView {
    OpenTurn { drain: Seq<ItemId> },
    OfferInterrupt { items: Seq<ItemId> },
    FlushBatch { drain: Seq<ItemId> },
    Wait { until_ms: u64 },
    Nothing,
}

impl View for Action {
    type V = ActionView;

    open spec fn view(&self) -> ActionView {
        match *self {
            Action::OpenTurn { drain } => ActionView::OpenTurn { drain: drain@ },
            Action::OfferInterrupt { items } => ActionView::OfferInterrupt { items: items@ },
            Action::FlushBatch { drain } => ActionView::FlushBatch { drain: drain@ },
            Action::Wait { until_ms } => ActionView::Wait { until_ms },
            Action::Nothing => ActionView::Nothing,
        }
    }
}

/// When each item arrived.
pub open spec fn arrivals(items: Seq<InboxItemView>) -> Seq<ordering::ArrivalKey> {
    items.map_values(|item: InboxItemView| (item.appended_at_ms, 0u64, 0u128))
}

/// Items oldest first; items of one millisecond keep their order.
pub open spec fn oldest_first(items: Seq<InboxItemView>) -> Seq<InboxItemView> {
    ordering::arranged(items, ordering::order(arrivals(items)))
}

/// Whether an item asks to interrupt a running turn.
pub open spec fn interrupts(item: InboxItemView) -> bool {
    item.attention is Interrupt
}

/// Whether an item opens a turn by itself once the conversation is quiescent.
pub open spec fn opens_a_turn(item: InboxItemView) -> bool {
    item.attention is Interrupt || item.attention is Wake
}

/// When a batch item must be flushed by; a bound past the end of time is the
/// end of time. `None` for anything else.
pub open spec fn batch_deadline(item: InboxItemView) -> Option<u64> {
    match item.attention {
        Attention::Batch { max_wait_ms } => Some(
            if item.appended_at_ms + max_wait_ms > u64::MAX {
                u64::MAX
            } else {
                (item.appended_at_ms + max_wait_ms) as u64
            },
        ),
        _ => None,
    }
}

/// Whether `deadline` is the earliest of the batch deadlines.
pub open spec fn is_earliest_deadline(items: Seq<InboxItemView>, deadline: u64) -> bool {
    &&& exists|i: int| 0 <= i < items.len() && #[trigger] batch_deadline(items[i]) == Some(deadline)
    &&& forall|i: int|
        0 <= i < items.len() && #[trigger] batch_deadline(items[i]) is Some ==> deadline
            <= batch_deadline(items[i])->0
}

/// The action the dispatcher owes.
pub open spec fn is_decision(
    state: ConversationState,
    pending: Seq<InboxItemView>,
    now_ms: u64,
    action: ActionView,
) -> bool {
    let everything = super::types::item_ids(oldest_first(pending));
    let interrupts = super::types::item_ids(
        oldest_first(pending).filter(|item: InboxItemView| interrupts(item)),
    );
    if pending.len() == 0 {
        action == ActionView::Nothing
    } else {
        match state {
            ConversationState::TurnRunning => action == ActionView::Nothing,
            ConversationState::AtRoundBoundary => if interrupts.len() == 0 {
                action == ActionView::Nothing
            } else {
                action == (ActionView::OfferInterrupt { items: interrupts })
            },
            ConversationState::Quiescent => if exists|i: int|
                0 <= i < pending.len() && #[trigger] opens_a_turn(pending[i]) {
                action == (ActionView::OpenTurn { drain: everything })
            } else if exists|i: int|
                0 <= i < pending.len() && (#[trigger] batch_deadline(pending[i])) is Some
                    && batch_deadline(pending[i])->0 <= now_ms {
                action == (ActionView::FlushBatch { drain: everything })
            } else {
                action matches ActionView::Wait { until_ms } && is_earliest_deadline(
                    pending,
                    until_ms,
                )
            },
        }
    }
}

/// The action the dispatcher owes, which [`decisions_replay`] shows there is
/// only one of.
pub open spec fn decision(
    state: ConversationState,
    pending: Seq<InboxItemView>,
    now_ms: u64,
) -> ActionView {
    choose|action: ActionView| is_decision(state, pending, now_ms, action)
}

/// When a batch item must be flushed by; `None` for anything else.
fn batch_deadline_ms(item: &InboxItem) -> (deadline: Option<u64>)
    ensures
        deadline == batch_deadline(item@),
{
    match item.attention {
        Attention::Batch { max_wait_ms } => Some(item.appended_at_ms.saturating_add(max_wait_ms)),
        _ => None,
    }
}

/// The positions of `pending`, oldest first.
pub fn fifo(pending: &[InboxItem]) -> (positions: Vec<usize>)
    ensures
        positions.len() == pending.len(),
        forall|i: int| 0 <= i < positions.len() ==> #[trigger] positions@[i] < pending.len(),
        positions@.map_values(|p: usize| p as int) == ordering::order(
            arrivals(super::types::item_views(pending@)),
        ),
{
    let mut keys: Vec<ordering::ArrivalKey> = Vec::new();
    let mut i: usize = 0;
    while i < pending.len()
        invariant
            i <= pending.len(),
            keys.len() == i,
            forall|j: int|
                0 <= j < i ==> #[trigger] keys@[j] == (pending@[j].appended_at_ms, 0u64, 0u128),
        decreases pending.len() - i,
    {
        keys.push((pending[i].appended_at_ms, 0u64, 0u128));
        i += 1;
    }
    assert(keys@ =~= arrivals(super::types::item_views(pending@)));
    ordering::arrival_order(&keys)
}

/// The whole dispatcher decision, as a function of the state, what is pending
/// and the time.
///
/// A running turn admits interrupts, and only at a round boundary. A quiescent
/// conversation with a wake or an interrupt pending drains everything into one
/// turn; with only batch items pending it waits for the earliest bound and then
/// flushes.
pub fn decide(state: ConversationState, pending: &[InboxItem], now_ms: u64) -> (action: Action)
    ensures
        is_decision(state, super::types::item_views(pending@), now_ms, action@),
{
    if pending.len() == 0 {
        return Action::Nothing;
    }
    let ghost views = super::types::item_views(pending@);
    let ghost sorted = oldest_first(views);
    match state {
        ConversationState::TurnRunning => Action::Nothing,
        ConversationState::AtRoundBoundary => {
            let positions = fifo(pending);
            let mut items: Vec<ItemId> = Vec::new();
            let mut i: usize = 0;
            proof {
                assert(sorted.take(0) =~= Seq::empty());
                reveal(Seq::filter);
                assert(items@ =~= super::types::item_ids(
                    sorted.take(0).filter(|item: InboxItemView| interrupts(item)),
                ));
            }
            while i < positions.len()
                invariant
                    i <= positions.len(),
                    positions.len() == pending.len(),
                    views == super::types::item_views(pending@),
                    sorted == oldest_first(views),
                    forall|j: int|
                        0 <= j < positions.len() ==> #[trigger] positions@[j] < pending.len(),
                    positions@.map_values(|p: usize| p as int) == ordering::order(arrivals(views)),
                    items@ == super::types::item_ids(
                        sorted.take(i as int).filter(|item: InboxItemView| interrupts(item)),
                    ),
                decreases positions.len() - i,
            {
                let item = &pending[positions[i]];
                proof {
                    let order = positions@.map_values(|p: usize| p as int);
                    assert(order[i as int] == positions@[i as int] as int);
                    assert(sorted[i as int] == item@);
                    assert(sorted.take(i + 1).drop_last() =~= sorted.take(i as int));
                    assert(sorted.take(i + 1).last() == item@);
                    reveal(Seq::filter);
                }
                if item.attention == Attention::Interrupt {
                    items.push(item.item_id);
                }
                assert(items@ =~= super::types::item_ids(
                    sorted.take(i + 1).filter(|item: InboxItemView| interrupts(item)),
                ));
                i += 1;
            }
            assert(sorted.take(positions.len() as int) =~= sorted);
            if items.len() == 0 {
                Action::Nothing
            } else {
                Action::OfferInterrupt { items }
            }
        },
        ConversationState::Quiescent => {
            let positions = fifo(pending);
            let mut drain: Vec<ItemId> = Vec::new();
            let mut opens = false;
            let mut earliest: Option<u64> = None;
            let mut i: usize = 0;
            while i < positions.len()
                invariant
                    i <= positions.len(),
                    positions.len() == pending.len(),
                    views == super::types::item_views(pending@),
                    sorted == oldest_first(views),
                    forall|j: int|
                        0 <= j < positions.len() ==> #[trigger] positions@[j] < pending.len(),
                    positions@.map_values(|p: usize| p as int) == ordering::order(arrivals(views)),
                    drain@ == super::types::item_ids(sorted.take(i as int)),
                decreases positions.len() - i,
            {
                proof {
                    let order = positions@.map_values(|p: usize| p as int);
                    assert(order[i as int] == positions@[i as int] as int);
                    assert(sorted[i as int] == pending@[positions@[i as int] as int]@);
                }
                drain.push(pending[positions[i]].item_id);
                assert(drain@ =~= super::types::item_ids(sorted.take(i + 1)));
                i += 1;
            }
            assert(sorted.take(positions.len() as int) =~= sorted);
            let mut j: usize = 0;
            while j < pending.len()
                invariant
                    j <= pending.len(),
                    views == super::types::item_views(pending@),
                    opens == (exists|k: int| 0 <= k < j && #[trigger] opens_a_turn(views[k])),
                    j > 0 && !opens ==> earliest is Some,
                    match earliest {
                        None => forall|k: int| 0 <= k < j ==> (#[trigger] batch_deadline(
                            views[k],
                        )) is None,
                        Some(deadline) => is_earliest_deadline(views.take(j as int), deadline),
                    },
                decreases pending.len() - j,
            {
                let ghost before = views.take(j as int);
                let ghost after = views.take(j + 1);
                proof {
                    assert(views[j as int] == pending@[j as int]@);
                    assert(after[j as int] == views[j as int]);
                    assert forall|k: int| 0 <= k < j implies before[k] == after[k] by {}
                }
                match batch_deadline_ms(&pending[j]) {
                    Some(deadline) => {
                        let ghost held = earliest;
                        match earliest {
                            Some(known) => {
                                if deadline < known {
                                    earliest = Some(deadline);
                                }
                            },
                            None => {
                                earliest = Some(deadline);
                            },
                        }
                        proof {
                            if held is Some && held == earliest {
                                let w = choose|k: int|
                                    0 <= k < before.len() && #[trigger] batch_deadline(before[k])
                                        == Some(held->0);
                                assert(batch_deadline(after[w]) == Some(held->0));
                            } else {
                                assert(batch_deadline(after[j as int]) == earliest);
                            }
                            assert forall|k: int|
                                0 <= k < after.len() && (#[trigger] batch_deadline(
                                    after[k],
                                )) is Some implies earliest->0 <= batch_deadline(after[k])->0 by {
                                if k < j {
                                    assert(batch_deadline(before[k]) == batch_deadline(after[k]));
                                    assert(batch_deadline(views[k]) == batch_deadline(after[k]));
                                }
                            }
                        }
                    },
                    None => {
                        proof {
                            assert(opens_a_turn(views[j as int]));
                            if earliest is Some {
                                let w = choose|k: int|
                                    0 <= k < before.len() && #[trigger] batch_deadline(before[k])
                                        == Some(earliest->0);
                                assert(batch_deadline(after[w]) == Some(earliest->0));
                                assert forall|k: int|
                                    0 <= k < after.len() && (#[trigger] batch_deadline(
                                        after[k],
                                    )) is Some implies earliest->0 <= batch_deadline(after[k])->0 by {
                                    if k < j {
                                        assert(batch_deadline(before[k]) == batch_deadline(after[k]));
                                    }
                                }
                            }
                        }
                        opens = true;
                    },
                }
                j += 1;
            }
            assert(views.take(j as int) =~= views);
            if opens {
                return Action::OpenTurn { drain };
            }
            match earliest {
                Some(deadline) => {
                    if deadline <= now_ms {
                        Action::FlushBatch { drain }
                    } else {
                        Action::Wait { until_ms: deadline }
                    }
                },
                None => Action::Nothing,
            }
        },
    }
}

/// What a turn opened by an action drains.
pub open spec fn drained_by(action: ActionView) -> Option<Seq<ItemId>> {
    match action {
        ActionView::OpenTurn { drain } => Some(drain),
        ActionView::FlushBatch { drain } => Some(drain),
        _ => None,
    }
}

/// The decision is a function of its inputs: a recorded state, inbox and time
/// replays to the same action.
pub proof fn decisions_replay(
    state: ConversationState,
    pending: Seq<InboxItemView>,
    now_ms: u64,
    first: ActionView,
    second: ActionView,
)
    requires
        is_decision(state, pending, now_ms, first),
        is_decision(state, pending, now_ms, second),
    ensures
        first == second,
{
    if first is Wait && second is Wait {
        let a = choose|i: int|
            0 <= i < pending.len() && #[trigger] batch_deadline(pending[i]) == Some(
                first->until_ms,
            );
        let b = choose|i: int|
            0 <= i < pending.len() && #[trigger] batch_deadline(pending[i]) == Some(
                second->until_ms,
            );
        assert(batch_deadline(pending[a]) is Some);
        assert(batch_deadline(pending[b]) is Some);
    }
}

/// Items that arrived at different times are sorted alike, whatever order they
/// are handed over in.
proof fn sorting_ignores_the_order_given(pending: Seq<InboxItemView>, positions: Seq<int>)
    requires
        ordering::covers(positions, pending.len()),
        positions.len() == pending.len(),
        forall|i: int, j: int|
            0 <= i < j < pending.len() ==> (#[trigger] pending[i]).appended_at_ms != (
            #[trigger] pending[j]).appended_at_ms,
    ensures
        oldest_first(ordering::arranged(pending, positions)) == oldest_first(pending),
{
    let shuffled = ordering::arranged(pending, positions);
    let keys = arrivals(pending);
    let given = arrivals(shuffled);
    let order = ordering::order(given);
    let composed = order.map_values(|p: int| positions[p]);
    ordering::order_is_a_stable_sort(given);
    assert forall|i: int| 0 <= i < order.len() implies 0 <= #[trigger] order[i] < pending.len() by {
        assert(order.contains(order[i]));
    }
    assert forall|p: int| 0 <= p < positions.len() implies 0 <= #[trigger] positions[p]
        < pending.len() by {
        assert(positions.contains(positions[p]));
    }
    assert forall|p: int| #[trigger] composed.contains(p) <==> 0 <= p < pending.len() by {
        if composed.contains(p) {
            let i = choose|i: int| 0 <= i < composed.len() && composed[i] == p;
            assert(composed[i] == positions[order[i]]);
        }
        if 0 <= p < pending.len() {
            assert(positions.contains(p));
            let q = choose|q: int| 0 <= q < positions.len() && positions[q] == p;
            assert(order.contains(q));
            let i = choose|i: int| 0 <= i < order.len() && order[i] == q;
            assert(composed[i] == p);
        }
    }
    assert forall|i: int, j: int| 0 <= i < composed.len() && 0 <= j < composed.len() && i
        != j implies composed[i] != composed[j] by {
        assert(order[i] != order[j]);
        assert(positions[order[i]] != positions[order[j]]);
    }
    assert forall|i: int, j: int| 0 <= i < j < composed.len() implies ordering::goes_before(
        keys,
        #[trigger] composed[i],
        #[trigger] composed[j],
    ) by {
        assert(ordering::goes_before(given, order[i], order[j]));
        let a = positions[order[i]];
        let b = positions[order[j]];
        assert(composed[i] == a && composed[j] == b);
        assert(shuffled[order[i]] == pending[a]);
        assert(shuffled[order[j]] == pending[b]);
        assert(a != b);
        if a < b {
            assert(pending[a].appended_at_ms != pending[b].appended_at_ms);
        } else {
            assert(pending[b].appended_at_ms != pending[a].appended_at_ms);
        }
    }
    ordering::order_is_unique(keys, composed);
    assert forall|i: int| 0 <= i < order.len() implies #[trigger] oldest_first(shuffled)[i]
        == oldest_first(pending)[i] by {
        assert(composed[i] == positions[order[i]]);
    }
    assert(oldest_first(shuffled) =~= oldest_first(pending));
}

/// A decision does not depend on the order in which the pending items are
/// handed over, where their arrival times differ. Items of one millisecond keep
/// the order they are given in, so among those it does.
pub proof fn decisions_ignore_the_order_given(
    state: ConversationState,
    pending: Seq<InboxItemView>,
    positions: Seq<int>,
    now_ms: u64,
    first: ActionView,
    second: ActionView,
)
    requires
        ordering::covers(positions, pending.len()),
        positions.len() == pending.len(),
        forall|i: int, j: int|
            0 <= i < j < pending.len() ==> (#[trigger] pending[i]).appended_at_ms != (
            #[trigger] pending[j]).appended_at_ms,
        is_decision(state, pending, now_ms, first),
        is_decision(state, ordering::arranged(pending, positions), now_ms, second),
    ensures
        first == second,
{
    let shuffled = ordering::arranged(pending, positions);
    sorting_ignores_the_order_given(pending, positions);
    assert forall|i: int| 0 <= i < shuffled.len() implies 0 <= #[trigger] positions[i]
        < pending.len() && shuffled[i] == pending[positions[i]] by {
        assert(positions.contains(positions[i]));
    }
    assert forall|i: int|
        #![trigger pending[i]]
        0 <= i < pending.len() implies shuffled.contains(pending[i]) by {
        assert(positions.contains(i));
        let k = choose|k: int| 0 <= k < positions.len() && positions[k] == i;
        assert(shuffled[k] == pending[i]);
    }
    if exists|i: int| 0 <= i < pending.len() && #[trigger] opens_a_turn(pending[i]) {
        let i = choose|i: int| 0 <= i < pending.len() && #[trigger] opens_a_turn(pending[i]);
        let k = choose|k: int| 0 <= k < shuffled.len() && shuffled[k] == pending[i];
        assert(opens_a_turn(shuffled[k]));
    }
    if exists|k: int| 0 <= k < shuffled.len() && #[trigger] opens_a_turn(shuffled[k]) {
        let k = choose|k: int| 0 <= k < shuffled.len() && #[trigger] opens_a_turn(shuffled[k]);
        assert(opens_a_turn(pending[positions[k]]));
    }
    if exists|i: int|
        0 <= i < pending.len() && (#[trigger] batch_deadline(pending[i])) is Some
            && batch_deadline(pending[i])->0 <= now_ms {
        let i = choose|i: int|
            0 <= i < pending.len() && (#[trigger] batch_deadline(pending[i])) is Some
                && batch_deadline(pending[i])->0 <= now_ms;
        let k = choose|k: int| 0 <= k < shuffled.len() && shuffled[k] == pending[i];
        assert(batch_deadline(shuffled[k]) is Some);
    }
    if exists|k: int|
        0 <= k < shuffled.len() && (#[trigger] batch_deadline(shuffled[k])) is Some
            && batch_deadline(shuffled[k])->0 <= now_ms {
        let k = choose|k: int|
            0 <= k < shuffled.len() && (#[trigger] batch_deadline(shuffled[k])) is Some
                && batch_deadline(shuffled[k])->0 <= now_ms;
        assert(batch_deadline(pending[positions[k]]) is Some);
    }
    if second is Wait {
        let until_ms = second->until_ms;
        if is_earliest_deadline(shuffled, until_ms) {
            let k = choose|k: int|
                0 <= k < shuffled.len() && #[trigger] batch_deadline(shuffled[k]) == Some(
                    until_ms,
                );
            assert(batch_deadline(pending[positions[k]]) == Some(until_ms));
            assert forall|i: int|
                0 <= i < pending.len() && #[trigger] batch_deadline(
                    pending[i],
                ) is Some implies until_ms <= batch_deadline(pending[i])->0 by {
                let m = choose|m: int| 0 <= m < shuffled.len() && shuffled[m] == pending[i];
                assert(batch_deadline(shuffled[m]) is Some);
            }
            assert(is_earliest_deadline(pending, until_ms));
        }
    }
    assert(is_decision(state, pending, now_ms, second));
    decisions_replay(state, pending, now_ms, first, second);
}

/// A turn that opens drains every pending item once, in arrival order: `drain`
/// is the pending ids rearranged, times never fall along it, and items of one
/// millisecond keep the order they were given in.
pub proof fn a_turn_drains_everything_in_arrival_order(
    state: ConversationState,
    pending: Seq<InboxItemView>,
    now_ms: u64,
    action: ActionView,
)
    requires
        is_decision(state, pending, now_ms, action),
        drained_by(action) is Some,
    ensures
        state == ConversationState::Quiescent,
        ({
            let order = ordering::order(arrivals(pending));
            let drain = drained_by(action)->0;
            &&& ordering::covers(order, pending.len())
            &&& drain.len() == pending.len()
            &&& forall|i: int|
                0 <= i < drain.len() ==> #[trigger] drain[i] == pending[order[i]].item_id
            &&& forall|i: int, j: int|
                0 <= i < j < drain.len() ==> {
                    let earlier = pending[#[trigger] order[i]].appended_at_ms;
                    let later = pending[#[trigger] order[j]].appended_at_ms;
                    earlier < later || (earlier == later && order[i] < order[j])
                }
        }),
{
    let keys = arrivals(pending);
    let order = ordering::order(keys);
    let drain = drained_by(action)->0;
    ordering::order_is_a_stable_sort(keys);
    assert forall|i: int| 0 <= i < drain.len() implies #[trigger] drain[i]
        == pending[order[i]].item_id by {
        assert(oldest_first(pending)[i] == pending[order[i]]);
    }
    assert forall|i: int, j: int| 0 <= i < j < drain.len() implies ({
        let earlier = pending[#[trigger] order[i]].appended_at_ms;
        let later = pending[#[trigger] order[j]].appended_at_ms;
        earlier < later || (earlier == later && order[i] < order[j])
    }) by {
        assert(order.contains(order[i]) && order.contains(order[j]));
        assert(ordering::goes_before(keys, order[i], order[j]));
    }
}

/// Everything pending is in what a turn drains.
proof fn drained_holds_everything(pending: Seq<InboxItemView>, i: int)
    requires
        0 <= i < pending.len(),
    ensures
        super::types::item_ids(oldest_first(pending)).contains(pending[i].item_id),
{
    let order = ordering::order(arrivals(pending));
    ordering::order_is_a_stable_sort(arrivals(pending));
    assert(order.contains(i));
    let k = choose|k: int| 0 <= k < order.len() && order[k] == i;
    assert(oldest_first(pending)[k] == pending[i]);
    assert(super::types::item_ids(oldest_first(pending))[k] == pending[i].item_id);
}

/// Liveness of wakes and interrupts: the next quiescent decision opens a turn
/// that drains them.
pub proof fn a_quiescent_decision_drains_every_wake(
    pending: Seq<InboxItemView>,
    now_ms: u64,
    action: ActionView,
    i: int,
)
    requires
        is_decision(ConversationState::Quiescent, pending, now_ms, action),
        0 <= i < pending.len(),
        opens_a_turn(pending[i]),
    ensures
        action is OpenTurn,
        action->OpenTurn_drain.contains(pending[i].item_id),
{
    drained_holds_everything(pending, i);
}

/// Liveness of batch items: a quiescent decision at or after an item's bound
/// opens a turn that drains it.
pub proof fn a_batch_is_drained_by_its_bound(
    pending: Seq<InboxItemView>,
    now_ms: u64,
    action: ActionView,
    i: int,
)
    requires
        is_decision(ConversationState::Quiescent, pending, now_ms, action),
        0 <= i < pending.len(),
        batch_deadline(pending[i]) is Some,
        batch_deadline(pending[i])->0 <= now_ms,
    ensures
        drained_by(action) is Some,
        (drained_by(action)->0).contains(pending[i].item_id),
{
    drained_holds_everything(pending, i);
}

/// A wait is computed from the bounds: it ends after now, no later than any
/// pending item's bound, and deciding again when it ends flushes the inbox.
pub proof fn a_wait_ends_at_the_earliest_bound(
    state: ConversationState,
    pending: Seq<InboxItemView>,
    now_ms: u64,
    until_ms: u64,
    later: ActionView,
)
    requires
        is_decision(state, pending, now_ms, ActionView::Wait { until_ms }),
        is_decision(state, pending, until_ms, later),
    ensures
        now_ms < until_ms,
        forall|i: int|
            0 <= i < pending.len() ==> (#[trigger] batch_deadline(pending[i])) is Some && until_ms
                <= batch_deadline(pending[i])->0,
        later is FlushBatch,
{
    let w = choose|i: int|
        0 <= i < pending.len() && #[trigger] batch_deadline(pending[i]) == Some(until_ms);
    assert(batch_deadline(pending[w]) is Some);
    assert forall|i: int| 0 <= i < pending.len() implies (#[trigger] batch_deadline(
        pending[i],
    )) is Some && until_ms <= batch_deadline(pending[i])->0 by {
        assert(!opens_a_turn(pending[i]));
    }
}

/// Whether `id` is that of a pending interrupt.
pub open spec fn is_pending_interrupt(pending: Seq<InboxItemView>, id: ItemId) -> bool {
    exists|i: int|
        0 <= i < pending.len() && #[trigger] interrupts(pending[i]) && pending[i].item_id == id
}

/// A running turn opens no other turn, and admits interrupt items alone and
/// only at a round boundary: mid-round nothing enters, and at the boundary
/// exactly the ids of the pending interrupts are offered.
pub proof fn only_interrupts_enter_a_running_turn(
    state: ConversationState,
    pending: Seq<InboxItemView>,
    now_ms: u64,
    action: ActionView,
)
    requires
        is_decision(state, pending, now_ms, action),
        state != ConversationState::Quiescent,
    ensures
        action is Nothing || action is OfferInterrupt,
        state == ConversationState::TurnRunning ==> action is Nothing,
        forall|i: int|
            #![trigger pending[i]]
            state == ConversationState::AtRoundBoundary && 0 <= i < pending.len() && interrupts(
                pending[i],
            ) ==> action is OfferInterrupt && action->items.contains(pending[i].item_id),
        action is OfferInterrupt ==> forall|id: ItemId| #[trigger]
            action->items.contains(id) ==> is_pending_interrupt(pending, id),
{
    let sorted = oldest_first(pending);
    let order = ordering::order(arrivals(pending));
    let pred = |item: InboxItemView| interrupts(item);
    let kept = sorted.filter(pred);
    ordering::order_is_a_stable_sort(arrivals(pending));
    assert forall|i: int|
        #![trigger pending[i]]
        state == ConversationState::AtRoundBoundary && 0 <= i < pending.len() && interrupts(
            pending[i],
        ) implies action is OfferInterrupt && action->items.contains(pending[i].item_id) by {
        assert(order.contains(i));
        let k = choose|k: int| 0 <= k < order.len() && order[k] == i;
        assert(sorted[k] == pending[i]);
        assert(pred(sorted[k]));
        assert(kept.contains(sorted[k]));
        let m = choose|m: int| 0 <= m < kept.len() && kept[m] == sorted[k];
        assert(super::types::item_ids(kept)[m] == pending[i].item_id);
    }
    if action is OfferInterrupt {
        assert forall|id: ItemId| #[trigger] action->items.contains(
            id,
        ) implies is_pending_interrupt(pending, id) by {
            let k = choose|k: int| 0 <= k < action->items.len() && action->items[k] == id;
            assert(pred(kept[k]));
            assert(kept.contains(kept[k]));
            sorted.lemma_filter_contains_rev(pred, kept[k]);
            let m = choose|m: int| 0 <= m < sorted.len() && sorted[m] == kept[k];
            assert(order.contains(order[m]));
            assert(sorted[m] == pending[order[m]]);
            assert(interrupts(pending[order[m]]));
        }
    }
}

} // verus!
