//! Moving stored items along their lifecycle, one file operation at a time.

use vstd::prelude::*;

use super::file_backend::{RecordView, StoredItemRecord};
use super::types::{ItemId, StatusView};

verus! {

/// Which way items are moved.
#[derive(Debug)]
pub enum Transition {
    /// From pending to drained, as a turn opens over them.
    Drain { turn_ref: String },
    /// From drained to acknowledged, as their turn commits.
    Acknowledge,
}

/// The contents of a [`Transition`].
pub enum TransitionView {
    Drain { turn_ref: Seq<char> },
    Acknowledge,
}

impl View for Transition {
    type V = TransitionView;

    open spec fn view(&self) -> TransitionView {
        match *self {
            Transition::Drain { turn_ref } => TransitionView::Drain { turn_ref: turn_ref@ },
            Transition::Acknowledge => TransitionView::Acknowledge,
        }
    }
}

/// What a transition makes of an item; `None` where it does not apply.
pub open spec fn moved(transition: TransitionView, stored: RecordView) -> Option<RecordView> {
    match (transition, stored.status) {
        (TransitionView::Drain { turn_ref }, StatusView::Pending) => Some(
            RecordView { status: StatusView::Drained { turn_ref }, ..stored },
        ),
        (TransitionView::Acknowledge, StatusView::Drained { turn_ref }) => Some(
            RecordView { status: StatusView::Acknowledged { turn_ref }, ..stored },
        ),
        _ => None,
    }
}

/// The file operation a marking needs next, or its end.
#[derive(Debug)]
pub enum MarkEffect {
    /// Find the item's file, in whichever conversation it is, and read it.
    Load { item_id: ItemId },
    /// Write the item back to the file it was read from.
    Store { record: StoredItemRecord },
    /// The marking is over: the run's `moved` ids made the transition.
    Finish,
}

/// What came of a file operation.
#[derive(Debug)]
pub enum MarkEvent {
    /// The item, or nothing where there is no file of that id.
    Loaded { record: Option<StoredItemRecord> },
    Stored,
}

/// The contents of a [`MarkEffect`].
pub enum MarkEffectView {
    Load { item_id: ItemId },
    Store { record: RecordView },
    Finish,
}

/// The contents of a [`MarkEvent`].
pub enum MarkEventView {
    Loaded { record: Option<RecordView> },
    Stored,
}

impl View for MarkEffect {
    type V = MarkEffectView;

    open spec fn view(&self) -> MarkEffectView {
        match *self {
            MarkEffect::Load { item_id } => MarkEffectView::Load { item_id },
            MarkEffect::Store { record } => MarkEffectView::Store { record: record@ },
            MarkEffect::Finish => MarkEffectView::Finish,
        }
    }
}

impl View for MarkEvent {
    type V = MarkEventView;

    open spec fn view(&self) -> MarkEventView {
        match *self {
            MarkEvent::Loaded { record } => MarkEventView::Loaded {
                record: match record {
                    Some(held) => Some(held@),
                    None => None,
                },
            },
            MarkEvent::Stored => MarkEventView::Stored,
        }
    }
}

/// A marking under way: `ids` are taken one by one, and `at` of them are done.
#[derive(Debug)]
pub struct MarkRun {
    pub transition: Transition,
    pub ids: Vec<ItemId>,
    pub at: usize,
    /// The ids that made the transition, in the order they were given.
    pub moved: Vec<ItemId>,
}

/// The contents of a [`MarkRun`].
#[verifier::ext_equal]
pub struct MarkView {
    pub transition: TransitionView,
    pub ids: Seq<ItemId>,
    pub at: int,
    pub moved: Seq<ItemId>,
}

impl View for MarkRun {
    type V = MarkView;

    open spec fn view(&self) -> MarkView {
        MarkView {
            transition: self.transition@,
            ids: self.ids@,
            at: self.at as int,
            moved: self.moved@,
        }
    }
}

/// What a marking asks for when it turns to its next id.
pub open spec fn turned(run: MarkView) -> MarkEffectView {
    if run.at < run.ids.len() {
        MarkEffectView::Load { item_id: run.ids[run.at] }
    } else {
        MarkEffectView::Finish
    }
}

/// What a marking does with an event: an item that is missing, or that the
/// transition does not apply to, is passed over; any other is written back and
/// counted.
pub open spec fn next_mark(run: MarkView, event: MarkEventView) -> (MarkView, MarkEffectView) {
    let passed = MarkView { at: run.at + 1, ..run };
    match event {
        MarkEventView::Loaded { record: Some(stored) } => match moved(run.transition, stored) {
            Some(new) => (run, MarkEffectView::Store { record: new }),
            None => (passed, turned(passed)),
        },
        MarkEventView::Loaded { record: None } => (passed, turned(passed)),
        MarkEventView::Stored => {
            let counted = MarkView { moved: run.moved.push(run.ids[run.at]), ..passed };
            (counted, turned(counted))
        },
    }
}

impl MarkRun {
    /// Starts moving `ids` and says what is needed first.
    pub fn start(ids: Vec<ItemId>, transition: Transition) -> (started: (Self, MarkEffect))
        ensures
            started.0@ == (MarkView {
                transition: transition@,
                ids: ids@,
                at: 0,
                moved: Seq::empty(),
            }),
            started.1@ == turned(started.0@),
    {
        let run = MarkRun { transition, ids, at: 0, moved: Vec::new() };
        let effect = run.turn();
        (run, effect)
    }

    /// What is needed for the next id.
    fn turn(&self) -> (effect: MarkEffect)
        ensures
            effect@ == turned(self@),
    {
        if self.at < self.ids.len() {
            MarkEffect::Load { item_id: self.ids[self.at] }
        } else {
            MarkEffect::Finish
        }
    }

    /// Takes what came of the last operation and says what is next.
    pub fn advance(&mut self, event: MarkEvent) -> (effect: MarkEffect)
        requires
            old(self).at < old(self).ids.len(),
        ensures
            (final(self)@, effect@) == next_mark(old(self)@, event@),
    {
        match event {
            MarkEvent::Loaded { record } => {
                let written = match record {
                    Some(stored) => match &self.transition {
                        Transition::Drain { turn_ref } => super::file_backend::drained_record(
                            stored,
                            turn_ref.as_str(),
                        ),
                        Transition::Acknowledge => super::file_backend::acknowledged_record(stored),
                    },
                    None => None,
                };
                match written {
                    Some(new) => MarkEffect::Store { record: new },
                    None => {
                        self.at += 1;
                        self.turn()
                    },
                }
            },
            MarkEvent::Stored => {
                let item_id = self.ids[self.at];
                self.moved.push(item_id);
                self.at += 1;
                self.turn()
            },
        }
    }
}

/// The stored items by id.
pub type ItemFiles = Map<ItemId, RecordView>;

/// What marking `ids` leaves and reports, where nobody else touches the files
/// meanwhile.
pub open spec fn marked(files: ItemFiles, ids: Seq<ItemId>, transition: TransitionView) -> (
    ItemFiles,
    Seq<ItemId>,
)
    decreases ids.len(),
{
    if ids.len() == 0 {
        (files, Seq::empty())
    } else {
        let (before, counted) = marked(files, ids.drop_last(), transition);
        let id = ids.last();
        if before.contains_key(id) && moved(transition, before[id]) is Some {
            (before.insert(id, moved(transition, before[id])->0), counted.push(id))
        } else {
            (before, counted)
        }
    }
}

/// The files when a marking that asks for `effect` has run to its end, given
/// enough steps, and the run as it ended.
pub open spec fn run_mark(
    files: ItemFiles,
    run: MarkView,
    effect: MarkEffectView,
    steps: nat,
) -> (ItemFiles, MarkView, bool)
    decreases steps,
{
    match effect {
        MarkEffectView::Finish => (files, run, true),
        _ => if steps == 0 {
            (files, run, false)
        } else {
            let (after, event) = match effect {
                MarkEffectView::Load { item_id } => (
                    files,
                    MarkEventView::Loaded {
                        record: if files.contains_key(item_id) {
                            Some(files[item_id])
                        } else {
                            None
                        },
                    },
                ),
                MarkEffectView::Store { record } => (
                    files.insert(run.ids[run.at], record),
                    MarkEventView::Stored,
                ),
                MarkEffectView::Finish => (files, MarkEventView::Stored),
            };
            let (next, wanted) = next_mark(run, event);
            run_mark(after, next, wanted, (steps - 1) as nat)
        },
    }
}

/// A marking that has done its first `run.at` ids as [`marked`] says does the
/// rest so too.
proof fn a_marking_goes_on(files: ItemFiles, run: MarkView, steps: nat)
    requires
        0 <= run.at <= run.ids.len(),
        run.moved == marked(files, run.ids.take(run.at), run.transition).1,
        steps >= 2 * (run.ids.len() - run.at),
    ensures
        ({
            let (left, ended, over) = run_mark(
                marked(files, run.ids.take(run.at), run.transition).0,
                run,
                turned(run),
                steps,
            );
            &&& over
            &&& left == marked(files, run.ids, run.transition).0
            &&& ended.moved == marked(files, run.ids, run.transition).1
        }),
    decreases run.ids.len() - run.at,
{
    if run.at == run.ids.len() {
        assert(run.ids.take(run.at) =~= run.ids);
    } else {
        reveal_with_fuel(run_mark, 3);
        let (before, counted) = marked(files, run.ids.take(run.at), run.transition);
        let id = run.ids[run.at];
        assert(run.ids.take(run.at + 1).drop_last() =~= run.ids.take(run.at));
        assert(run.ids.take(run.at + 1).last() == id);
        let passed = MarkView { at: run.at + 1, ..run };
        if before.contains_key(id) && moved(run.transition, before[id]) is Some {
            let counted_run = MarkView { moved: run.moved.push(id), ..passed };
            a_marking_goes_on(files, counted_run, (steps - 2) as nat);
        } else {
            a_marking_goes_on(files, passed, (steps - 1) as nat);
        }
    }
}

/// An undisturbed marking ends within two operations per id, as [`marked`]
/// says.
pub proof fn a_marking_runs_to_its_end(
    files: ItemFiles,
    ids: Seq<ItemId>,
    transition: TransitionView,
)
    ensures
        ({
            let run = MarkView { transition, ids, at: 0, moved: Seq::empty() };
            let (left, ended, over) = run_mark(files, run, turned(run), 2 * ids.len());
            &&& over
            &&& left == marked(files, ids, transition).0
            &&& ended.moved == marked(files, ids, transition).1
        }),
{
    let run = MarkView { transition, ids, at: 0, moved: Seq::empty() };
    assert(ids.take(0) =~= Seq::empty());
    a_marking_goes_on(files, run, 2 * ids.len());
}

/// A marking moves exactly the named items its transition applies to, each
/// once, and leaves every other as it was.
pub proof fn a_marking_moves_each_item_once(
    files: ItemFiles,
    ids: Seq<ItemId>,
    transition: TransitionView,
)
    ensures
        ({
            let (left, counted) = marked(files, ids, transition);
            &&& left.dom() == files.dom()
            &&& forall|id: ItemId| #[trigger]
                counted.contains(id) <==> ids.contains(id) && files.contains_key(id) && moved(
                    transition,
                    files[id],
                ) is Some
            &&& forall|id: ItemId| #[trigger]
                files.contains_key(id) ==> left[id] == if counted.contains(id) {
                    moved(transition, files[id])->0
                } else {
                    files[id]
                }
            &&& counted.no_duplicates()
        }),
    decreases ids.len(),
{
    if ids.len() > 0 {
        let rest = ids.drop_last();
        let id = ids.last();
        let (before, counted) = marked(files, rest, transition);
        let (left, all) = marked(files, ids, transition);
        a_marking_moves_each_item_once(files, rest, transition);
        let applies = before.contains_key(id) && moved(transition, before[id]) is Some;
        assert(ids =~= rest.push(id));
        assert forall|x: ItemId| ids.contains(x) <==> (rest.contains(x) || x == id) by {
            if rest.contains(x) {
                let k = choose|k: int| 0 <= k < rest.len() && rest[k] == x;
                assert(ids[k] == x);
            }
            if x == id {
                assert(ids[ids.len() - 1] == x);
            }
            if ids.contains(x) && x != id {
                let k = choose|k: int| 0 <= k < ids.len() && ids[k] == x;
                assert(rest[k] == x);
            }
        }
        if files.contains_key(id) && counted.contains(id) {
            assert(moved(transition, moved(transition, files[id])->0) is None);
            assert(!applies);
        }
        if applies {
            assert(all == counted.push(id));
            assert forall|x: ItemId| #[trigger] all.contains(x) <==> (counted.contains(x) || x
                == id) by {
                if counted.contains(x) {
                    let k = choose|k: int| 0 <= k < counted.len() && counted[k] == x;
                    assert(all[k] == x);
                }
                if x == id {
                    assert(all[all.len() - 1] == x);
                }
                if all.contains(x) && x != id {
                    let k = choose|k: int| 0 <= k < all.len() && all[k] == x;
                    assert(counted[k] == x);
                }
            }
            assert(left.dom() =~= files.dom());
            assert(all.no_duplicates()) by {
                assert forall|i: int, j: int|
                    0 <= i < all.len() && 0 <= j < all.len() && i != j implies all[i] != all[j] by {
                    if i == counted.len() {
                        assert(counted.contains(counted[j]));
                    } else if j == counted.len() {
                        assert(counted.contains(counted[i]));
                    }
                }
            }
        } else {
            assert(all == counted);
            assert(before == left);
        }
    }
}

} // verus!
