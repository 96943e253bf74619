//! A dispatch pass: taking a conversation's lease and draining its inbox into
//! turns, one outside operation at a time.

use vstd::prelude::*;

use super::dispatcher::{self, Action, ActionView, ConversationState};
use super::types::{InboxItem, InboxItemView, ItemId};
use crate::text;

verus! {

/// How often a lease is renewed while a turn runs, in milliseconds: a third of
/// the time it lives.
pub const LEASE_RENEWAL_MS: u64 = 20_000;

/// What stands between the prompts of coalesced items.
pub open spec fn prompt_separator() -> Seq<char> {
    "\n\n---\n\n"@
}

/// The prompt of a turn over some items: one item's travels verbatim, several
/// are joined in drain order.
pub open spec fn drained_prompt(items: Seq<InboxItemView>) -> Seq<char> {
    text::joined(items.map_values(|item: InboxItemView| item.prompt), prompt_separator())
}

/// The prompt of a turn over some items.
pub fn compose_drained_prompt(items: &[InboxItem]) -> (prompt: String)
    ensures
        prompt@ == drained_prompt(super::types::item_views(items@)),
{
    let mut prompts: Vec<String> = Vec::new();
    let mut i: usize = 0;
    while i < items.len()
        invariant
            i <= items.len(),
            prompts.len() == i,
            forall|j: int| 0 <= j < i ==> (#[trigger] prompts@[j])@ == items@[j].prompt@,
        decreases items.len() - i,
    {
        prompts.push(items[i].prompt.clone());
        i += 1;
    }
    assert(text::views(prompts@) =~= super::types::item_views(items@).map_values(
        |item: InboxItemView| item.prompt,
    ));
    text::join(&prompts, "\n\n---\n\n")
}

/// One item's prompt is the turn's prompt, to the letter.
pub proof fn one_item_is_sent_verbatim(item: InboxItemView)
    ensures
        drained_prompt(seq![item]) == item.prompt,
{
    assert(seq![item].map_values(|item: InboxItemView| item.prompt)[0] == item.prompt);
}

/// One more item puts a separator and its prompt behind what was there.
pub proof fn coalesced_items_are_joined_in_order(items: Seq<InboxItemView>, item: InboxItemView)
    requires
        items.len() > 0,
    ensures
        drained_prompt(items.push(item)) == drained_prompt(items) + prompt_separator()
            + item.prompt,
{
    let prompts = items.push(item).map_values(|item: InboxItemView| item.prompt);
    assert(prompts.drop_last() =~= items.map_values(|item: InboxItemView| item.prompt));
}

/// How a pass ended.
#[derive(Debug, Clone, Copy, PartialEq, Eq, Structural)]
pub enum PassEnd {
    /// The inbox was empty once the lease was given up.
    Drained,
    /// Another dispatcher holds the conversation; what is pending is left to it.
    HeldElsewhere,
    /// An operation under the lease failed; the lease was given up, and the
    /// operation's error is the pass's.
    FailedUnderLease,
    /// An operation outside the lease failed; its error is the pass's.
    Failed,
}

/// The outside operation a pass needs next, or its end.
#[derive(Debug)]
pub enum PassEffect {
    /// Take the conversation's dispatch lease.
    Acquire,
    /// List the pending items, and read the clock after it.
    List,
    /// Move these items to drained, into a turn minted for them.
    MarkDrained { ids: Vec<ItemId> },
    /// Open a turn over these items and wait for it, renewing the lease
    /// meanwhile.
    OpenTurn { items: Vec<InboxItem> },
    /// Move these items to acknowledged.
    Acknowledge { ids: Vec<ItemId> },
    /// Sleep until this instant.
    Sleep { until_ms: u64 },
    /// Renew the lease.
    Renew,
    /// Give the lease up.
    Release,
    /// List the pending items once the lease is given up.
    Relist,
    /// The pass is over.
    Finish { end: PassEnd },
}

/// What came of an outside operation.
#[derive(Debug)]
pub enum PassEvent {
    /// Whether the lease was granted.
    Acquired { granted: bool },
    Listed { pending: Vec<InboxItem>, now_ms: u64 },
    /// The ids that made the transition.
    Drained { moved: Vec<ItemId> },
    Turned,
    Acknowledged,
    Slept,
    /// Whether the lease is still held.
    Renewed { held: bool },
    Released,
    /// Whether nothing is pending.
    Relisted { empty: bool },
    /// The operation failed.
    Failed,
}

/// Where a pass stands.
#[derive(Debug)]
pub enum PassPhase {
    Acquiring,
    Listing,
    Draining { pending: Vec<InboxItem>, drain: Vec<ItemId> },
    Turning { moved: Vec<ItemId> },
    Acknowledging,
    Sleeping,
    Renewing,
    Releasing { failed: bool },
    Relisting,
    Finished,
}

/// The contents of a [`PassEffect`].
#[verifier::ext_equal]
pub enum PassEffectView {
    Acquire,
    List,
    MarkDrained { ids: Seq<ItemId> },
    OpenTurn { items: Seq<InboxItemView> },
    Acknowledge { ids: Seq<ItemId> },
    Sleep { until_ms: u64 },
    Renew,
    Release,
    Relist,
    Finish { end: PassEnd },
}

/// The contents of a [`PassEvent`].
#[verifier::ext_equal]
pub enum PassEventView {
    Acquired { granted: bool },
    Listed { pending: Seq<InboxItemView>, now_ms: u64 },
    Drained { moved: Seq<ItemId> },
    Turned,
    Acknowledged,
    Slept,
    Renewed { held: bool },
    Released,
    Relisted { empty: bool },
    Failed,
}

/// The contents of a [`PassPhase`].
#[verifier::ext_equal]
pub enum PassPhaseView {
    Acquiring,
    Listing,
    Draining { pending: Seq<InboxItemView>, drain: Seq<ItemId> },
    Turning { moved: Seq<ItemId> },
    Acknowledging,
    Sleeping,
    Renewing,
    Releasing { failed: bool },
    Relisting,
    Finished,
}

impl View for PassEffect {
    type V = PassEffectView;

    open spec fn view(&self) -> PassEffectView {
        match *self {
            PassEffect::Acquire => PassEffectView::Acquire,
            PassEffect::List => PassEffectView::List,
            PassEffect::MarkDrained { ids } => PassEffectView::MarkDrained { ids: ids@ },
            PassEffect::OpenTurn { items } => PassEffectView::OpenTurn {
                items: super::types::item_views(items@),
            },
            PassEffect::Acknowledge { ids } => PassEffectView::Acknowledge { ids: ids@ },
            PassEffect::Sleep { until_ms } => PassEffectView::Sleep { until_ms },
            PassEffect::Renew => PassEffectView::Renew,
            PassEffect::Release => PassEffectView::Release,
            PassEffect::Relist => PassEffectView::Relist,
            PassEffect::Finish { end } => PassEffectView::Finish { end },
        }
    }
}

impl View for PassEvent {
    type V = PassEventView;

    open spec fn view(&self) -> PassEventView {
        match *self {
            PassEvent::Acquired { granted } => PassEventView::Acquired { granted },
            PassEvent::Listed { pending, now_ms } => PassEventView::Listed {
                pending: super::types::item_views(pending@),
                now_ms,
            },
            PassEvent::Drained { moved } => PassEventView::Drained { moved: moved@ },
            PassEvent::Turned => PassEventView::Turned,
            PassEvent::Acknowledged => PassEventView::Acknowledged,
            PassEvent::Slept => PassEventView::Slept,
            PassEvent::Renewed { held } => PassEventView::Renewed { held },
            PassEvent::Released => PassEventView::Released,
            PassEvent::Relisted { empty } => PassEventView::Relisted { empty },
            PassEvent::Failed => PassEventView::Failed,
        }
    }
}

impl View for PassPhase {
    type V = PassPhaseView;

    open spec fn view(&self) -> PassPhaseView {
        match *self {
            PassPhase::Acquiring => PassPhaseView::Acquiring,
            PassPhase::Listing => PassPhaseView::Listing,
            PassPhase::Draining { pending, drain } => PassPhaseView::Draining {
                pending: super::types::item_views(pending@),
                drain: drain@,
            },
            PassPhase::Turning { moved } => PassPhaseView::Turning { moved: moved@ },
            PassPhase::Acknowledging => PassPhaseView::Acknowledging,
            PassPhase::Sleeping => PassPhaseView::Sleeping,
            PassPhase::Renewing => PassPhaseView::Renewing,
            PassPhase::Releasing { failed } => PassPhaseView::Releasing { failed },
            PassPhase::Relisting => PassPhaseView::Relisting,
            PassPhase::Finished => PassPhaseView::Finished,
        }
    }
}

/// Whether an event answers what a phase is waiting for. A sleep cannot fail.
pub open spec fn answers(phase: PassPhaseView, event: PassEventView) -> bool {
    match phase {
        PassPhaseView::Acquiring => event is Acquired || event is Failed,
        PassPhaseView::Listing => event is Listed || event is Failed,
        PassPhaseView::Draining { .. } => event is Drained || event is Failed,
        PassPhaseView::Turning { .. } => event is Turned || event is Failed,
        PassPhaseView::Acknowledging => event is Acknowledged || event is Failed,
        PassPhaseView::Sleeping => event is Slept,
        PassPhaseView::Renewing => event is Renewed || event is Failed,
        PassPhaseView::Releasing { .. } => event is Released || event is Failed,
        PassPhaseView::Relisting => event is Relisted || event is Failed,
        PassPhaseView::Finished => false,
    }
}

/// Whether `pending[i]` is the first item of that id.
pub open spec fn is_first_of(pending: Seq<InboxItemView>, id: ItemId, i: int) -> bool {
    &&& 0 <= i < pending.len()
    &&& pending[i].item_id == id
    &&& forall|j: int| 0 <= j < i ==> (#[trigger] pending[j]).item_id != id
}

/// The first pending item of an id.
pub open spec fn item_of(pending: Seq<InboxItemView>, id: ItemId) -> InboxItemView {
    pending[choose|i: int| is_first_of(pending, id, i)]
}

/// The items a turn is opened over: those of the drained ids that made the
/// transition, in drain order.
pub open spec fn turn_items(
    pending: Seq<InboxItemView>,
    drain: Seq<ItemId>,
    moved: Seq<ItemId>,
) -> Seq<InboxItemView> {
    drain.filter(|id: ItemId| moved.contains(id)).map_values(|id: ItemId| item_of(pending, id))
}

/// Whether what a phase carries hangs together: what is to be drained is
/// pending.
pub open spec fn is_consistent(phase: PassPhaseView) -> bool {
    phase matches PassPhaseView::Draining { pending, drain } ==> forall|k: int|
        0 <= k < drain.len() ==> super::types::item_ids(pending).contains(#[trigger] drain[k])
}

/// What a pass does once it has listed the pending items: the dispatcher's
/// decision for a quiescent conversation, carried out.
pub open spec fn after_listing(pending: Seq<InboxItemView>, decided: ActionView) -> (
    PassPhaseView,
    PassEffectView,
) {
    match decided {
        ActionView::OpenTurn { drain } => (
            PassPhaseView::Draining { pending, drain },
            PassEffectView::MarkDrained { ids: drain },
        ),
        ActionView::FlushBatch { drain } => (
            PassPhaseView::Draining { pending, drain },
            PassEffectView::MarkDrained { ids: drain },
        ),
        ActionView::Wait { until_ms } => (
            PassPhaseView::Sleeping,
            PassEffectView::Sleep { until_ms },
        ),
        _ => (PassPhaseView::Releasing { failed: false }, PassEffectView::Release),
    }
}

/// What a pass does with an event.
pub open spec fn next_pass(phase: PassPhaseView, event: PassEventView) -> (
    PassPhaseView,
    PassEffectView,
) {
    match (phase, event) {
        (PassPhaseView::Acquiring, PassEventView::Acquired { granted: true }) => (
            PassPhaseView::Listing,
            PassEffectView::List,
        ),
        (PassPhaseView::Acquiring, PassEventView::Acquired { granted: false }) => (
            PassPhaseView::Finished,
            PassEffectView::Finish { end: PassEnd::HeldElsewhere },
        ),
        (PassPhaseView::Listing, PassEventView::Listed { pending, now_ms }) => after_listing(
            pending,
            dispatcher::decision(ConversationState::Quiescent, pending, now_ms),
        ),
        (PassPhaseView::Draining { pending, drain }, PassEventView::Drained { moved }) => if
        moved.len() == 0 {
            // Everything was drained elsewhere already.
            (PassPhaseView::Listing, PassEffectView::List)
        } else {
            (
                PassPhaseView::Turning { moved },
                PassEffectView::OpenTurn { items: turn_items(pending, drain, moved) },
            )
        },
        (PassPhaseView::Turning { moved }, PassEventView::Turned) => (
            PassPhaseView::Acknowledging,
            PassEffectView::Acknowledge { ids: moved },
        ),
        (PassPhaseView::Acknowledging, PassEventView::Acknowledged) => (
            PassPhaseView::Listing,
            PassEffectView::List,
        ),
        (PassPhaseView::Sleeping, _) => (PassPhaseView::Renewing, PassEffectView::Renew),
        (PassPhaseView::Renewing, PassEventView::Renewed { held: true }) => (
            PassPhaseView::Listing,
            PassEffectView::List,
        ),
        (PassPhaseView::Renewing, PassEventView::Renewed { held: false }) => (
            PassPhaseView::Releasing { failed: false },
            PassEffectView::Release,
        ),
        (PassPhaseView::Releasing { failed: false }, PassEventView::Released) => (
            PassPhaseView::Relisting,
            PassEffectView::Relist,
        ),
        (PassPhaseView::Releasing { failed: true }, PassEventView::Released) => (
            PassPhaseView::Finished,
            PassEffectView::Finish { end: PassEnd::FailedUnderLease },
        ),
        (PassPhaseView::Relisting, PassEventView::Relisted { empty: true }) => (
            PassPhaseView::Finished,
            PassEffectView::Finish { end: PassEnd::Drained },
        ),
        (PassPhaseView::Relisting, PassEventView::Relisted { empty: false }) => (
            PassPhaseView::Acquiring,
            PassEffectView::Acquire,
        ),
        (PassPhaseView::Acquiring, _) | (PassPhaseView::Releasing { .. }, _) | (
            PassPhaseView::Relisting,
            _,
        ) | (PassPhaseView::Finished, _) => (
            PassPhaseView::Finished,
            PassEffectView::Finish { end: PassEnd::Failed },
        ),
        _ => (PassPhaseView::Releasing { failed: true }, PassEffectView::Release),
    }
}

/// A dispatch pass under way.
#[derive(Debug)]
pub struct DispatchPass {
    phase: PassPhase,
}

impl View for DispatchPass {
    type V = PassPhaseView;

    closed spec fn view(&self) -> PassPhaseView {
        self.phase@
    }
}

impl DispatchPass {
    /// Starts a pass. The first operation is [`PassEffect::Acquire`].
    pub fn start() -> (pass: Self)
        ensures
            pass@ is Acquiring,
            is_consistent(pass@),
    {
        DispatchPass { phase: PassPhase::Acquiring }
    }

    /// Takes what came of the last operation and says what is next.
    pub fn advance(&mut self, event: PassEvent) -> (effect: PassEffect)
        requires
            answers(old(self)@, event@),
            is_consistent(old(self)@),
        ensures
            is_consistent(final(self)@),
            (final(self)@, effect@) == next_pass(old(self)@, event@),
    {
        let mut phase = PassPhase::Finished;
        std::mem::swap(&mut phase, &mut self.phase);
        match event {
            PassEvent::Acquired { granted } => if granted {
                self.phase = PassPhase::Listing;
                PassEffect::List
            } else {
                PassEffect::Finish { end: PassEnd::HeldElsewhere }
            },
            PassEvent::Listed { pending, now_ms } => self.listed(pending, now_ms),
            PassEvent::Drained { moved } => {
                if moved.len() == 0 {
                    self.phase = PassPhase::Listing;
                    return PassEffect::List;
                }
                match phase {
                    PassPhase::Draining { pending, drain } => {
                        proof {
                            let views = super::types::item_views(pending@);
                            assert(old(self)@ == (PassPhaseView::Draining {
                                pending: views,
                                drain: drain@,
                            }));
                            let known = old(self)@;
                            assert forall|k: int|
                                0 <= k < drain@.len() implies super::types::item_ids(
                                views,
                            ).contains(#[trigger] drain@[k]) by {
                                assert(known->drain[k] == drain@[k]);
                            }
                        }
                        let items = select_turn_items(&pending, &drain, &moved);
                        self.phase = PassPhase::Turning { moved };
                        PassEffect::OpenTurn { items }
                    },
                    _ => PassEffect::List,
                }
            },
            PassEvent::Turned => match phase {
                PassPhase::Turning { moved } => {
                    self.phase = PassPhase::Acknowledging;
                    PassEffect::Acknowledge { ids: moved }
                },
                _ => PassEffect::List,
            },
            PassEvent::Acknowledged => {
                self.phase = PassPhase::Listing;
                PassEffect::List
            },
            PassEvent::Slept => {
                self.phase = PassPhase::Renewing;
                PassEffect::Renew
            },
            PassEvent::Renewed { held } => if held {
                self.phase = PassPhase::Listing;
                PassEffect::List
            } else {
                self.phase = PassPhase::Releasing { failed: false };
                PassEffect::Release
            },
            PassEvent::Released => match phase {
                PassPhase::Releasing { failed: true } => PassEffect::Finish {
                    end: PassEnd::FailedUnderLease,
                },
                _ => {
                    self.phase = PassPhase::Relisting;
                    PassEffect::Relist
                },
            },
            PassEvent::Relisted { empty } => if empty {
                PassEffect::Finish { end: PassEnd::Drained }
            } else {
                self.phase = PassPhase::Acquiring;
                PassEffect::Acquire
            },
            PassEvent::Failed => match phase {
                PassPhase::Acquiring
                | PassPhase::Releasing { .. }
                | PassPhase::Relisting
                | PassPhase::Finished => PassEffect::Finish { end: PassEnd::Failed },
                _ => {
                    self.phase = PassPhase::Releasing { failed: true };
                    PassEffect::Release
                },
            },
        }
    }

    /// Carries out the decision over what was listed.
    fn listed(&mut self, pending: Vec<InboxItem>, now_ms: u64) -> (effect: PassEffect)
        ensures
            is_consistent(final(self)@),
            (final(self)@, effect@) == after_listing(
                super::types::item_views(pending@),
                dispatcher::decision(
                    ConversationState::Quiescent,
                    super::types::item_views(pending@),
                    now_ms,
                ),
            ),
    {
        let ghost views = super::types::item_views(pending@);
        let action = dispatcher::decide(ConversationState::Quiescent, pending.as_slice(), now_ms);
        proof {
            dispatcher::decisions_replay(
                ConversationState::Quiescent,
                views,
                now_ms,
                action@,
                dispatcher::decision(ConversationState::Quiescent, views, now_ms),
            );
            if dispatcher::drained_by(action@) is Some {
                let drain = dispatcher::drained_by(action@)->0;
                dispatcher::a_turn_drains_everything_in_arrival_order(
                    ConversationState::Quiescent,
                    views,
                    now_ms,
                    action@,
                );
                let order = super::ordering::order(dispatcher::arrivals(views));
                assert forall|k: int| 0 <= k < drain.len() implies super::types::item_ids(
                    views,
                ).contains(#[trigger] drain[k]) by {
                    super::ordering::order_is_a_stable_sort(dispatcher::arrivals(views));
                    assert(order.contains(order[k]));
                    assert(super::types::item_ids(views)[order[k]] == drain[k]);
                }
            }
        }
        match action {
            Action::OpenTurn { drain } | Action::FlushBatch { drain } => {
                let ids = drain.clone();
                assert(ids@ =~= drain@);
                self.phase = PassPhase::Draining { pending, drain };
                PassEffect::MarkDrained { ids }
            },
            Action::Wait { until_ms } => {
                self.phase = PassPhase::Sleeping;
                PassEffect::Sleep { until_ms }
            },
            _ => {
                self.phase = PassPhase::Releasing { failed: false };
                PassEffect::Release
            },
        }
    }
}

/// The items a turn is opened over.
fn select_turn_items(pending: &Vec<InboxItem>, drain: &Vec<ItemId>, moved: &Vec<ItemId>) -> (items: Vec<
    InboxItem,
>)
    requires
        forall|k: int|
            0 <= k < drain.len() ==> super::types::item_ids(
                super::types::item_views(pending@),
            ).contains(#[trigger] drain@[k]),
    ensures
        super::types::item_views(items@) == turn_items(
            super::types::item_views(pending@),
            drain@,
            moved@,
        ),
{
    let ghost views = super::types::item_views(pending@);
    let mut items: Vec<InboxItem> = Vec::new();
    let mut i: usize = 0;
    proof {
        reveal(Seq::filter);
        assert(drain@.take(0) =~= Seq::empty());
        assert(super::types::item_views(items@) =~= turn_items(views, drain@.take(0), moved@));
    }
    while i < drain.len()
        invariant
            i <= drain.len(),
            views == super::types::item_views(pending@),
            forall|k: int|
                0 <= k < drain.len() ==> super::types::item_ids(views).contains(
                    #[trigger] drain@[k],
                ),
            super::types::item_views(items@) == turn_items(views, drain@.take(i as int), moved@),
        decreases drain.len() - i,
    {
        let id = drain[i];
        let ghost earlier = turn_items(views, drain@.take(i as int), moved@);
        let ghost now = turn_items(views, drain@.take(i + 1), moved@);
        let ghost before = items@;
        proof {
            assert(drain@.take(i + 1).drop_last() =~= drain@.take(i as int));
            assert(drain@.take(i + 1).last() == id);
            reveal(Seq::filter);
        }
        if super::backend::holds_id(moved.as_slice(), id) {
            let at = position_of(pending, id);
            items.push(pending[at].clone());
            proof {
                let chosen = choose|k: int| is_first_of(views, id, k);
                assert(is_first_of(views, id, at as int));
                assert(is_first_of(views, id, chosen));
                assert(chosen == at) by {
                    if chosen < at {
                        assert(views[chosen].item_id != id);
                    } else if at < chosen {
                        assert(views[at as int].item_id != id);
                    }
                }
                assert(now =~= earlier.push(item_of(views, id)));
                assert(super::types::item_views(items@) =~= super::types::item_views(before).push(
                    item_of(views, id),
                ));
            }
        } else {
            assert(now =~= earlier);
        }
        i += 1;
    }
    assert(drain@.take(i as int) =~= drain@);
    items
}

/// Where the first item of an id is.
fn position_of(pending: &Vec<InboxItem>, id: ItemId) -> (at: usize)
    requires
        super::types::item_ids(super::types::item_views(pending@)).contains(id),
    ensures
        at < pending.len(),
        is_first_of(super::types::item_views(pending@), id, at as int),
{
    let ghost views = super::types::item_views(pending@);
    let ghost found = choose|k: int|
        0 <= k < super::types::item_ids(views).len() && super::types::item_ids(views)[k] == id;
    let mut at: usize = 0;
    while !(pending[at].item_id == id)
        invariant
            views == super::types::item_views(pending@),
            0 <= found < pending.len(),
            views[found].item_id == id,
            at <= found,
            forall|j: int| 0 <= j < at ==> (#[trigger] views[j]).item_id != id,
        decreases pending.len() - at,
    {
        assert(views[at as int].item_id != id);
        at += 1;
    }
    at
}

} // verus!
