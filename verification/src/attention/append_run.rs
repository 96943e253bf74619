//! Appending to a file-backed inbox, one file operation at a time.
//!
//! The item file lands first, then an exclusive create claims the key. A crash
//! between the two leaves an item that a redelivery could duplicate, traded for
//! never losing one. A key that is claimed already ends the append before it
//! touches anything; where the key is lost to another append meanwhile, what
//! was written is taken back.

use vstd::prelude::*;

use super::file_backend::{DedupeRecord, DedupeView, RecordView, StoredItemRecord};
use super::types::{AppendOutcome, InboxItemView, ItemId, StatusView};

verus! {

/// The file operation an append needs next, or its end.
#[derive(Debug)]
pub enum AppendEffect {
    /// Create the conversation's item and claim directories.
    Prepare,
    /// Read the claim of the item's key.
    ReadClaim,
    /// Find the highest position among the conversation's items.
    Survey,
    /// Create the item's file, pending and at this position, unless there is
    /// one.
    CreateItem { position: u64 },
    /// Read the item's file.
    LoadItem,
    /// Write the item, pending and at this position, replacing whatever is in
    /// its file.
    WriteItem { position: u64 },
    /// Create the claim of the item's key, unless there is one.
    ClaimKey,
    /// Remove the item file again.
    RemoveItem,
    /// Write back what was in the item's file before.
    RestoreItem { record: StoredItemRecord },
    /// The append is over.
    Finish { result: Result<AppendOutcome, AppendError> },
}

/// What came of a file operation. An operation that failed outright ends the
/// append with its own error and is not answered here.
#[derive(Debug)]
pub enum AppendEvent {
    Prepared,
    /// The claim, or nothing where there is none.
    Read { claim: Option<DedupeRecord> },
    /// The highest position; nothing where there is no item.
    Surveyed { highest: Option<u64> },
    /// Whether the item's file was created; false where there was one.
    Created { created: bool },
    /// What the item's file holds, or nothing where it is gone.
    Loaded { record: Option<StoredItemRecord> },
    /// The item's file was written.
    Written,
    /// Whether the claim was created; false where there was one.
    Claimed { created: bool },
    Removed,
}

/// Why an append failed.
#[derive(Debug)]
pub enum AppendError {
    /// The claim was there for the create and gone for the read.
    ClaimVanished,
    /// Two keys of one conversation share a hash.
    Collision { existing: String },
}

/// How to take back what an append did to the item's file.
#[derive(Debug)]
pub enum Undo {
    /// The item was there already, and nothing was done.
    Nothing,
    /// The file is new.
    Remove,
    /// Another item was in the file.
    Restore { record: StoredItemRecord },
}

/// Where an append stands.
#[derive(Debug)]
pub enum AppendPhase {
    Preparing,
    Checking,
    Surveying,
    Creating { position: u64 },
    Loading { position: u64 },
    Writing { undo: Undo },
    Claiming { undo: Undo },
    Reading { undo: Undo },
    Undoing { existing: ItemId },
    Finished,
}

/// The contents of an [`AppendEffect`].
pub enum AppendEffectView {
    Prepare,
    ReadClaim,
    Survey,
    CreateItem { position: u64 },
    LoadItem,
    WriteItem { position: u64 },
    ClaimKey,
    RemoveItem,
    RestoreItem { record: RecordView },
    Finish { result: Result<AppendOutcome, AppendErrorView> },
}

/// The contents of an [`AppendEvent`].
pub enum AppendEventView {
    Prepared,
    Read { claim: Option<DedupeView> },
    Surveyed { highest: Option<u64> },
    Created { created: bool },
    Loaded { record: Option<RecordView> },
    Written,
    Claimed { created: bool },
    Removed,
}

/// The contents of an [`AppendError`].
pub enum AppendErrorView {
    ClaimVanished,
    Collision { existing: Seq<char> },
}

/// The contents of an [`Undo`].
pub enum UndoView {
    Nothing,
    Remove,
    Restore { record: RecordView },
}

/// The contents of an [`AppendPhase`].
pub enum AppendPhaseView {
    Preparing,
    Checking,
    Surveying,
    Creating { position: u64 },
    Loading { position: u64 },
    Writing { undo: UndoView },
    Claiming { undo: UndoView },
    Reading { undo: UndoView },
    Undoing { existing: ItemId },
    Finished,
}

impl View for AppendError {
    type V = AppendErrorView;

    open spec fn view(&self) -> AppendErrorView {
        match *self {
            AppendError::ClaimVanished => AppendErrorView::ClaimVanished,
            AppendError::Collision { existing } => AppendErrorView::Collision {
                existing: existing@,
            },
        }
    }
}

impl View for AppendEffect {
    type V = AppendEffectView;

    open spec fn view(&self) -> AppendEffectView {
        match *self {
            AppendEffect::Prepare => AppendEffectView::Prepare,
            AppendEffect::ReadClaim => AppendEffectView::ReadClaim,
            AppendEffect::Survey => AppendEffectView::Survey,
            AppendEffect::CreateItem { position } => AppendEffectView::CreateItem { position },
            AppendEffect::LoadItem => AppendEffectView::LoadItem,
            AppendEffect::WriteItem { position } => AppendEffectView::WriteItem { position },
            AppendEffect::ClaimKey => AppendEffectView::ClaimKey,
            AppendEffect::RemoveItem => AppendEffectView::RemoveItem,
            AppendEffect::RestoreItem { record } => AppendEffectView::RestoreItem {
                record: record@,
            },
            AppendEffect::Finish { result } => AppendEffectView::Finish {
                result: match result {
                    Ok(outcome) => Ok(outcome),
                    Err(error) => Err(error@),
                },
            },
        }
    }
}

impl View for AppendEvent {
    type V = AppendEventView;

    open spec fn view(&self) -> AppendEventView {
        match *self {
            AppendEvent::Prepared => AppendEventView::Prepared,
            AppendEvent::Read { claim } => AppendEventView::Read {
                claim: match claim {
                    Some(record) => Some(record@),
                    None => None,
                },
            },
            AppendEvent::Surveyed { highest } => AppendEventView::Surveyed { highest },
            AppendEvent::Created { created } => AppendEventView::Created { created },
            AppendEvent::Loaded { record } => AppendEventView::Loaded {
                record: match record {
                    Some(held) => Some(held@),
                    None => None,
                },
            },
            AppendEvent::Written => AppendEventView::Written,
            AppendEvent::Claimed { created } => AppendEventView::Claimed { created },
            AppendEvent::Removed => AppendEventView::Removed,
        }
    }
}

impl View for Undo {
    type V = UndoView;

    open spec fn view(&self) -> UndoView {
        match *self {
            Undo::Nothing => UndoView::Nothing,
            Undo::Remove => UndoView::Remove,
            Undo::Restore { record } => UndoView::Restore { record: record@ },
        }
    }
}

impl View for AppendPhase {
    type V = AppendPhaseView;

    open spec fn view(&self) -> AppendPhaseView {
        match *self {
            AppendPhase::Preparing => AppendPhaseView::Preparing,
            AppendPhase::Checking => AppendPhaseView::Checking,
            AppendPhase::Surveying => AppendPhaseView::Surveying,
            AppendPhase::Creating { position } => AppendPhaseView::Creating { position },
            AppendPhase::Loading { position } => AppendPhaseView::Loading { position },
            AppendPhase::Writing { undo } => AppendPhaseView::Writing { undo: undo@ },
            AppendPhase::Claiming { undo } => AppendPhaseView::Claiming { undo: undo@ },
            AppendPhase::Reading { undo } => AppendPhaseView::Reading { undo: undo@ },
            AppendPhase::Undoing { existing } => AppendPhaseView::Undoing { existing },
            AppendPhase::Finished => AppendPhaseView::Finished,
        }
    }
}

/// Whether an event answers what a phase is waiting for.
pub open spec fn answers(phase: AppendPhaseView, event: AppendEventView) -> bool {
    match phase {
        AppendPhaseView::Preparing => event is Prepared,
        AppendPhaseView::Checking => event is Read,
        AppendPhaseView::Surveying => event is Surveyed,
        AppendPhaseView::Creating { .. } => event is Created,
        AppendPhaseView::Loading { .. } => event is Loaded,
        AppendPhaseView::Writing { .. } => event is Written,
        AppendPhaseView::Claiming { .. } => event is Claimed,
        AppendPhaseView::Reading { .. } => event is Read,
        AppendPhaseView::Undoing { .. } => event is Removed || event is Written,
        AppendPhaseView::Finished => false,
    }
}

/// The position behind the highest one there is. Behind the last position of
/// all there is none, and that one is shared.
pub open spec fn following(highest: Option<u64>) -> u64 {
    match highest {
        Some(position) => if position < u64::MAX {
            (position + 1) as u64
        } else {
            position
        },
        None => 0,
    }
}

/// The end of an append that went well.
pub open spec fn ended(item_id: ItemId, deduplicated: bool) -> (
    AppendPhaseView,
    AppendEffectView,
) {
    (
        AppendPhaseView::Finished,
        AppendEffectView::Finish { result: Ok(AppendOutcome { item_id, deduplicated }) },
    )
}

/// The end of an append that failed.
pub open spec fn failed(error: AppendErrorView) -> (AppendPhaseView, AppendEffectView) {
    (AppendPhaseView::Finished, AppendEffectView::Finish { result: Err(error) })
}

/// What an append of the item `item_id` under `dedupe_key` does with an event.
pub open spec fn next_append(
    item_id: ItemId,
    dedupe_key: Seq<char>,
    phase: AppendPhaseView,
    event: AppendEventView,
) -> (AppendPhaseView, AppendEffectView) {
    match (phase, event) {
        (AppendPhaseView::Preparing, AppendEventView::Prepared) => (
            AppendPhaseView::Checking,
            AppendEffectView::ReadClaim,
        ),
        (AppendPhaseView::Checking, AppendEventView::Read { claim }) => match claim {
            Some(held) if held.dedupe_key == dedupe_key => ended(held.item_id, true),
            _ => (AppendPhaseView::Surveying, AppendEffectView::Survey),
        },
        (AppendPhaseView::Surveying, AppendEventView::Surveyed { highest }) => (
            AppendPhaseView::Creating { position: following(highest) },
            AppendEffectView::CreateItem { position: following(highest) },
        ),
        (AppendPhaseView::Creating { position }, AppendEventView::Created { created }) => {
            if created {
                (
                    AppendPhaseView::Claiming { undo: UndoView::Remove },
                    AppendEffectView::ClaimKey,
                )
            } else {
                (AppendPhaseView::Loading { position }, AppendEffectView::LoadItem)
            }
        },
        (AppendPhaseView::Loading { position }, AppendEventView::Loaded { record }) => {
            match record {
                Some(held) => if held.item.dedupe_key == dedupe_key {
                    (
                        AppendPhaseView::Claiming { undo: UndoView::Nothing },
                        AppendEffectView::ClaimKey,
                    )
                } else {
                    (
                        AppendPhaseView::Writing { undo: UndoView::Restore { record: held } },
                        AppendEffectView::WriteItem { position },
                    )
                },
                None => (
                    AppendPhaseView::Writing { undo: UndoView::Remove },
                    AppendEffectView::WriteItem { position },
                ),
            }
        },
        (AppendPhaseView::Writing { undo }, AppendEventView::Written) => (
            AppendPhaseView::Claiming { undo },
            AppendEffectView::ClaimKey,
        ),
        (AppendPhaseView::Claiming { undo }, AppendEventView::Claimed { created }) => {
            if created {
                ended(item_id, false)
            } else {
                (AppendPhaseView::Reading { undo }, AppendEffectView::ReadClaim)
            }
        },
        (AppendPhaseView::Reading { undo }, AppendEventView::Read { claim }) => match claim {
            None => failed(AppendErrorView::ClaimVanished),
            Some(held) => if held.dedupe_key != dedupe_key {
                failed(AppendErrorView::Collision { existing: held.dedupe_key })
            } else if held.item_id == item_id {
                ended(item_id, true)
            } else {
                match undo {
                    UndoView::Nothing => ended(held.item_id, true),
                    UndoView::Remove => (
                        AppendPhaseView::Undoing { existing: held.item_id },
                        AppendEffectView::RemoveItem,
                    ),
                    UndoView::Restore { record } => (
                        AppendPhaseView::Undoing { existing: held.item_id },
                        AppendEffectView::RestoreItem { record },
                    ),
                }
            },
        },
        (AppendPhaseView::Undoing { existing }, _) => ended(existing, true),
        _ => failed(AppendErrorView::ClaimVanished),
    }
}

/// An append under way.
#[derive(Debug)]
pub struct AppendRun {
    pub item_id: ItemId,
    pub dedupe_key: String,
    pub phase: AppendPhase,
}

impl AppendRun {
    /// Starts appending the item `item_id` under `dedupe_key`. The first
    /// operation is [`AppendEffect::Prepare`].
    pub fn start(item_id: ItemId, dedupe_key: String) -> (run: Self)
        ensures
            run.item_id == item_id,
            run.dedupe_key@ == dedupe_key@,
            run.phase@ == AppendPhaseView::Preparing,
    {
        AppendRun { item_id, dedupe_key, phase: AppendPhase::Preparing }
    }

    /// Ends the append.
    fn end(&mut self, item_id: ItemId, deduplicated: bool) -> (effect: AppendEffect)
        ensures
            final(self).item_id == old(self).item_id,
            final(self).dedupe_key == old(self).dedupe_key,
            (final(self).phase@, effect@) == ended(item_id, deduplicated),
    {
        self.phase = AppendPhase::Finished;
        AppendEffect::Finish { result: Ok(AppendOutcome { item_id, deduplicated }) }
    }

    /// Fails the append.
    fn fail(&mut self, error: AppendError) -> (effect: AppendEffect)
        ensures
            final(self).item_id == old(self).item_id,
            final(self).dedupe_key == old(self).dedupe_key,
            (final(self).phase@, effect@) == failed(error@),
    {
        self.phase = AppendPhase::Finished;
        AppendEffect::Finish { result: Err(error) }
    }

    /// Takes what came of the last operation and says what is next.
    pub fn advance(&mut self, event: AppendEvent) -> (effect: AppendEffect)
        requires
            answers(old(self).phase@, event@),
        ensures
            final(self).item_id == old(self).item_id,
            final(self).dedupe_key == old(self).dedupe_key,
            (final(self).phase@, effect@) == next_append(
                old(self).item_id,
                old(self).dedupe_key@,
                old(self).phase@,
                event@,
            ),
    {
        let mut phase = AppendPhase::Finished;
        std::mem::swap(&mut phase, &mut self.phase);
        match (phase, event) {
            (AppendPhase::Preparing, AppendEvent::Prepared) => {
                self.phase = AppendPhase::Checking;
                AppendEffect::ReadClaim
            },
            (AppendPhase::Checking, AppendEvent::Read { claim }) => {
                if let Some(held) = claim {
                    if held.dedupe_key == self.dedupe_key {
                        return self.end(held.item_id, true);
                    }
                }
                self.phase = AppendPhase::Surveying;
                AppendEffect::Survey
            },
            (AppendPhase::Surveying, AppendEvent::Surveyed { highest }) => {
                let position: u64 = match highest {
                    Some(position) => if position < u64::MAX {
                        position + 1
                    } else {
                        position
                    },
                    None => 0,
                };
                self.phase = AppendPhase::Creating { position };
                AppendEffect::CreateItem { position }
            },
            (AppendPhase::Creating { position }, AppendEvent::Created { created }) => {
                if created {
                    self.phase = AppendPhase::Claiming { undo: Undo::Remove };
                    AppendEffect::ClaimKey
                } else {
                    self.phase = AppendPhase::Loading { position };
                    AppendEffect::LoadItem
                }
            },
            (AppendPhase::Loading { position }, AppendEvent::Loaded { record }) => match record {
                Some(held) => if held.item.dedupe_key == self.dedupe_key {
                    self.phase = AppendPhase::Claiming { undo: Undo::Nothing };
                    AppendEffect::ClaimKey
                } else {
                    self.phase = AppendPhase::Writing { undo: Undo::Restore { record: held } };
                    AppendEffect::WriteItem { position }
                },
                None => {
                    self.phase = AppendPhase::Writing { undo: Undo::Remove };
                    AppendEffect::WriteItem { position }
                },
            },
            (AppendPhase::Writing { undo }, AppendEvent::Written) => {
                self.phase = AppendPhase::Claiming { undo };
                AppendEffect::ClaimKey
            },
            (AppendPhase::Claiming { undo }, AppendEvent::Claimed { created }) => {
                if created {
                    self.end(self.item_id, false)
                } else {
                    self.phase = AppendPhase::Reading { undo };
                    AppendEffect::ReadClaim
                }
            },
            (AppendPhase::Reading { undo }, AppendEvent::Read { claim }) => match claim {
                Some(held) => if held.dedupe_key != self.dedupe_key {
                    self.fail(AppendError::Collision { existing: held.dedupe_key })
                } else if held.item_id == self.item_id {
                    self.end(held.item_id, true)
                } else {
                    match undo {
                        Undo::Nothing => self.end(held.item_id, true),
                        Undo::Remove => {
                            self.phase = AppendPhase::Undoing { existing: held.item_id };
                            AppendEffect::RemoveItem
                        },
                        Undo::Restore { record } => {
                            self.phase = AppendPhase::Undoing { existing: held.item_id };
                            AppendEffect::RestoreItem { record }
                        },
                    }
                },
                None => self.fail(AppendError::ClaimVanished),
            },
            (AppendPhase::Undoing { existing }, _) => self.end(existing, true),
            _ => self.fail(AppendError::ClaimVanished),
        }
    }
}

/// The items and claims of one conversation's directory: items by id, claims
/// by the hash of their key.
#[verifier::ext_equal]
pub struct InboxFiles {
    pub items: Map<ItemId, RecordView>,
    pub claims: Map<Seq<char>, DedupeView>,
}

/// The positions that are taken in a directory.
pub open spec fn taken_in(items: Map<ItemId, RecordView>) -> Set<u64> {
    Set::new(
        |position: u64|
            exists|id: ItemId| #[trigger]
                items.contains_key(id) && items[id].position == position,
    )
}

/// The position of the next item of a directory.
pub open spec fn next_position(items: Map<ItemId, RecordView>) -> u64 {
    following(super::file_backend::highest(taken_in(items)))
}

/// Whether an item is there: under its id, and as the fact of its key.
pub open spec fn is_stored(items: Map<ItemId, RecordView>, item: InboxItemView) -> bool {
    items.contains_key(item.item_id) && items[item.item_id].item.dedupe_key == item.dedupe_key
}

/// The items of a directory once an item was written at a position. One that is
/// there already stays as it is.
pub open spec fn with_item(
    items: Map<ItemId, RecordView>,
    item: InboxItemView,
    position: u64,
) -> Map<ItemId, RecordView> {
    if is_stored(items, item) {
        items
    } else {
        items.insert(item.item_id, RecordView { item, status: StatusView::Pending, position })
    }
}

/// What a file operation of an append does to the directory, and how it is
/// answered, where nobody else touches the directory meanwhile.
pub open spec fn performed(
    files: InboxFiles,
    item: InboxItemView,
    effect: AppendEffectView,
) -> (InboxFiles, AppendEventView) {
    let key = super::file_backend::file_key(item.dedupe_key);
    match effect {
        AppendEffectView::Prepare => (files, AppendEventView::Prepared),
        AppendEffectView::ReadClaim => (
            files,
            AppendEventView::Read {
                claim: if files.claims.contains_key(key) {
                    Some(files.claims[key])
                } else {
                    None
                },
            },
        ),
        AppendEffectView::Survey => (
            files,
            AppendEventView::Surveyed {
                highest: super::file_backend::highest(taken_in(files.items)),
            },
        ),
        AppendEffectView::CreateItem { position } => if files.items.contains_key(item.item_id) {
            (files, AppendEventView::Created { created: false })
        } else {
            (
                InboxFiles {
                    items: files.items.insert(
                        item.item_id,
                        RecordView { item, status: StatusView::Pending, position },
                    ),
                    claims: files.claims,
                },
                AppendEventView::Created { created: true },
            )
        },
        AppendEffectView::LoadItem => (
            files,
            AppendEventView::Loaded {
                record: if files.items.contains_key(item.item_id) {
                    Some(files.items[item.item_id])
                } else {
                    None
                },
            },
        ),
        AppendEffectView::WriteItem { position } => (
            InboxFiles {
                items: files.items.insert(
                    item.item_id,
                    RecordView { item, status: StatusView::Pending, position },
                ),
                claims: files.claims,
            },
            AppendEventView::Written,
        ),
        AppendEffectView::ClaimKey => if files.claims.contains_key(key) {
            (files, AppendEventView::Claimed { created: false })
        } else {
            (
                InboxFiles {
                    items: files.items,
                    claims: files.claims.insert(
                        key,
                        DedupeView { dedupe_key: item.dedupe_key, item_id: item.item_id },
                    ),
                },
                AppendEventView::Claimed { created: true },
            )
        },
        AppendEffectView::RemoveItem => (
            InboxFiles { items: files.items.remove(item.item_id), claims: files.claims },
            AppendEventView::Removed,
        ),
        AppendEffectView::RestoreItem { record } => (
            InboxFiles {
                items: files.items.insert(item.item_id, record),
                claims: files.claims,
            },
            AppendEventView::Written,
        ),
        AppendEffectView::Finish { .. } => (files, AppendEventView::Removed),
    }
}

/// The directory, and where an append stands in it, after one more operation.
pub open spec fn stepped(
    item: InboxItemView,
    at: (InboxFiles, AppendPhaseView, AppendEffectView),
) -> (InboxFiles, AppendPhaseView, AppendEffectView) {
    let (after, event) = performed(at.0, item, at.2);
    let (next, wanted) = next_append(item.item_id, item.dedupe_key, at.1, event);
    (after, next, wanted)
}

/// The directory, and where an append stands in it, after some operations from
/// its start.
pub open spec fn after_steps(files: InboxFiles, item: InboxItemView, steps: nat) -> (
    InboxFiles,
    AppendPhaseView,
    AppendEffectView,
)
    decreases steps,
{
    if steps == 0 {
        (files, AppendPhaseView::Preparing, AppendEffectView::Prepare)
    } else {
        stepped(item, after_steps(files, item, (steps - 1) as nat))
    }
}

/// The directory and the result when an append that stands at `phase` and asks
/// for `effect` has run to its end, given enough steps.
pub open spec fn run_append(
    files: InboxFiles,
    item: InboxItemView,
    phase: AppendPhaseView,
    effect: AppendEffectView,
    steps: nat,
) -> (InboxFiles, Option<Result<AppendOutcome, AppendErrorView>>)
    decreases steps,
{
    match effect {
        AppendEffectView::Finish { result } => (files, Some(result)),
        _ => if steps == 0 {
            (files, None)
        } else {
            let (after, next, wanted) = stepped(item, (files, phase, effect));
            run_append(after, item, next, wanted, (steps - 1) as nat)
        },
    }
}

/// What an append to a directory leaves and reports.
pub open spec fn appended_to_files(files: InboxFiles, item: InboxItemView) -> (
    InboxFiles,
    Result<AppendOutcome, AppendErrorView>,
) {
    let key = super::file_backend::file_key(item.dedupe_key);
    let written = with_item(files.items, item, next_position(files.items));
    if !files.claims.contains_key(key) {
        (
            InboxFiles {
                items: written,
                claims: files.claims.insert(
                    key,
                    DedupeView { dedupe_key: item.dedupe_key, item_id: item.item_id },
                ),
            },
            Ok(AppendOutcome { item_id: item.item_id, deduplicated: false }),
        )
    } else if files.claims[key].dedupe_key == item.dedupe_key {
        (files, Ok(AppendOutcome { item_id: files.claims[key].item_id, deduplicated: true }))
    } else {
        (
            InboxFiles { items: written, claims: files.claims },
            Err(AppendErrorView::Collision { existing: files.claims[key].dedupe_key }),
        )
    }
}

/// An undisturbed append ends within eight operations, as
/// [`appended_to_files`] says: the first item of a key is stored and claims it,
/// a later item of the key changes nothing and names the first, and an item
/// whose key only shares a hash with a claimed one is an error and keeps its
/// file.
pub proof fn an_append_runs_to_its_end(files: InboxFiles, item: InboxItemView)
    ensures
        run_append(files, item, AppendPhaseView::Preparing, AppendEffectView::Prepare, 8) == (
            appended_to_files(files, item).0,
            Some(appended_to_files(files, item).1),
        ),
{
    reveal_with_fuel(run_append, 9);
}

/// How an append takes back what it writes to a directory.
pub open spec fn undo_of(items: Map<ItemId, RecordView>, item: InboxItemView) -> UndoView {
    if !items.contains_key(item.item_id) {
        UndoView::Remove
    } else if is_stored(items, item) {
        UndoView::Nothing
    } else {
        UndoView::Restore { record: items[item.item_id] }
    }
}

/// How many operations an append needs until it claims its key.
pub open spec fn steps_to_claim(items: Map<ItemId, RecordView>, item: InboxItemView) -> nat {
    if !items.contains_key(item.item_id) {
        4
    } else if is_stored(items, item) {
        5
    } else {
        6
    }
}

/// The item lands before its key is claimed: when an append asks for the claim
/// of a key that it found free, its item is stored.
pub proof fn an_item_lands_before_its_claim(files: InboxFiles, item: InboxItemView)
    requires
        !files.claims.contains_key(super::file_backend::file_key(item.dedupe_key)),
    ensures
        after_steps(files, item, steps_to_claim(files.items, item)) == (
            InboxFiles {
                items: with_item(files.items, item, next_position(files.items)),
                claims: files.claims,
            },
            AppendPhaseView::Claiming { undo: undo_of(files.items, item) },
            AppendEffectView::ClaimKey,
        ),
        is_stored(with_item(files.items, item, next_position(files.items)), item),
{
    reveal_with_fuel(after_steps, 7);
}

/// An append that loses its key to another item while it is under way takes
/// back what it wrote, and names that item.
pub proof fn a_lost_race_leaves_the_items(files: InboxFiles, item: InboxItemView, winner: ItemId)
    requires
        !files.claims.contains_key(super::file_backend::file_key(item.dedupe_key)),
        winner != item.item_id,
    ensures
        ({
            let (written, phase, effect) = after_steps(
                files,
                item,
                steps_to_claim(files.items, item),
            );
            let claims = files.claims.insert(
                super::file_backend::file_key(item.dedupe_key),
                DedupeView { dedupe_key: item.dedupe_key, item_id: winner },
            );
            run_append(InboxFiles { claims, ..written }, item, phase, effect, 3) == (
                InboxFiles { items: files.items, claims },
                Some(
                    Ok::<AppendOutcome, AppendErrorView>(
                        AppendOutcome { item_id: winner, deduplicated: true },
                    ),
                ),
            )
        }),
{
    an_item_lands_before_its_claim(files, item);
    reveal_with_fuel(run_append, 4);
    let position = next_position(files.items);
    let written = with_item(files.items, item, position);
    if !files.items.contains_key(item.item_id) {
        assert(written.remove(item.item_id) =~= files.items);
    } else {
        assert(written.insert(item.item_id, files.items[item.item_id]) =~= files.items);
    }
}

/// Whether every claim names an item that is there. A new directory has no
/// claims, and appends keep it so.
pub open spec fn claims_are_backed(files: InboxFiles) -> bool {
    forall|key: Seq<char>| #[trigger]
        files.claims.contains_key(key) ==> files.items.contains_key(files.claims[key].item_id)
}

/// An append leaves every claim with an item.
pub proof fn appends_keep_claims_backed(files: InboxFiles, item: InboxItemView)
    requires
        claims_are_backed(files),
    ensures
        claims_are_backed(appended_to_files(files, item).0),
{
    let after = appended_to_files(files, item).0;
    assert forall|key: Seq<char>| #[trigger] after.claims.contains_key(key) implies
        after.items.contains_key(after.claims[key].item_id) by {
        if files.claims.contains_key(key) {
            assert(files.items.contains_key(files.claims[key].item_id));
        }
    }
}

/// An append that reports a new item has stored it: it is there under its id
/// and key, and pending unless it had been stored before.
pub proof fn a_new_item_is_stored(files: InboxFiles, item: InboxItemView)
    requires
        appended_to_files(files, item).1 matches Ok(outcome) && !outcome.deduplicated,
    ensures
        ({
            let after = appended_to_files(files, item).0.items;
            &&& appended_to_files(files, item).1->Ok_0.item_id == item.item_id
            &&& is_stored(after, item)
            &&& after[item.item_id] == if is_stored(files.items, item) {
                files.items[item.item_id]
            } else {
                RecordView {
                    item,
                    status: StatusView::Pending,
                    position: next_position(files.items),
                }
            }
        }),
{
}

/// Idempotent append: a second append of the same fact, under a fresh id or
/// under the one it has, changes nothing and names the item already there.
pub proof fn a_fact_is_stored_once(files: InboxFiles, first: InboxItemView, again: InboxItemView)
    requires
        again.dedupe_key == first.dedupe_key,
        appended_to_files(files, first).1 is Ok,
    ensures
        ({
            let (stored, outcome) = appended_to_files(files, first);
            let (later, repeated) = appended_to_files(stored, again);
            &&& later == stored
            &&& repeated == Ok::<AppendOutcome, AppendErrorView>(
                AppendOutcome { item_id: outcome->Ok_0.item_id, deduplicated: true },
            )
        }),
{
}

/// A new item of a new key is stored, pending, behind every other item that is
/// there. Positions can run out: then the last one is shared.
pub proof fn an_append_goes_to_the_end(files: InboxFiles, item: InboxItemView, other: ItemId)
    requires
        !files.claims.contains_key(super::file_backend::file_key(item.dedupe_key)),
        !is_stored(files.items, item),
        files.items.contains_key(other),
        other != item.item_id,
        forall|id: ItemId| #[trigger]
            files.items.contains_key(id) ==> files.items[id].position < u64::MAX,
    ensures
        ({
            let after = appended_to_files(files, item).0.items;
            &&& after.contains_key(item.item_id)
            &&& after[item.item_id].item == item
            &&& after[item.item_id].status is Pending
            &&& after[other] == files.items[other]
            &&& after[other].position < after[item.item_id].position
        }),
{
    let taken = taken_in(files.items);
    assert(taken.contains(files.items[other].position));
    super::file_backend::some_position_is_the_highest(taken, files.items[other].position);
}

/// Items appended one after the other come back in that order, unless the clock
/// stepped back between them, and whatever their ids.
pub proof fn items_come_back_in_append_order(
    files: InboxFiles,
    first: InboxItemView,
    second: InboxItemView,
    records: Seq<RecordView>,
)
    requires
        first.item_id != second.item_id,
        !files.claims.contains_key(super::file_backend::file_key(first.dedupe_key)),
        !is_stored(files.items, first),
        ({
            let stored = appended_to_files(files, first).0;
            let later = appended_to_files(stored, second).0;
            &&& !stored.claims.contains_key(super::file_backend::file_key(second.dedupe_key))
            &&& !is_stored(stored.items, second)
            &&& forall|id: ItemId| #[trigger]
                stored.items.contains_key(id) ==> stored.items[id].position < u64::MAX
            &&& forall|id: ItemId| #[trigger]
                later.items.contains_key(id) ==> records.contains(later.items[id])
        }),
        first.appended_at_ms <= second.appended_at_ms,
    ensures
        super::file_backend::is_listed_before(
            super::file_backend::listing(records),
            first,
            second,
        ),
{
    let stored = appended_to_files(files, first).0;
    let later = appended_to_files(stored, second).0;
    an_append_goes_to_the_end(stored, second, first.item_id);
    let a = later.items[first.item_id];
    let b = later.items[second.item_id];
    assert(later.items.contains_key(first.item_id));
    assert(later.items.contains_key(second.item_id));
    super::file_backend::listings_keep_append_order(records, a, b);
}

/// A hash collision never deduplicates: two different keys either have claims
/// of their own or the second append fails.
pub proof fn different_keys_never_deduplicate(
    files: InboxFiles,
    first: InboxItemView,
    second: InboxItemView,
)
    requires
        appended_to_files(files, first) matches (_, Ok(outcome)) && !outcome.deduplicated,
        first.dedupe_key != second.dedupe_key,
        !files.claims.contains_key(super::file_backend::file_key(second.dedupe_key)),
    ensures
        ({
            let (stored, _) = appended_to_files(files, first);
            let (later, outcome) = appended_to_files(stored, second);
            if super::file_backend::file_key(first.dedupe_key) == super::file_backend::file_key(
                second.dedupe_key,
            ) {
                outcome == Err::<AppendOutcome, AppendErrorView>(
                    AppendErrorView::Collision { existing: first.dedupe_key },
                )
            } else {
                outcome == Ok::<AppendOutcome, AppendErrorView>(
                    AppendOutcome { item_id: second.item_id, deduplicated: false },
                )
            }
        }),
{
}

/// What a run of file operations, of any appends in any interleaving, leaves.
pub open spec fn after_operations(
    files: InboxFiles,
    operations: Seq<(InboxItemView, AppendEffectView)>,
) -> InboxFiles
    decreases operations.len(),
{
    if operations.len() == 0 {
        files
    } else {
        performed(
            after_operations(files, operations.drop_last()),
            operations.last().0,
            operations.last().1,
        ).0
    }
}

/// Claims are never given up, whatever appends are under way.
pub proof fn claims_are_kept(
    files: InboxFiles,
    operations: Seq<(InboxItemView, AppendEffectView)>,
    key: Seq<char>,
)
    requires
        files.claims.contains_key(key),
    ensures
        after_operations(files, operations).claims.contains_key(key),
        after_operations(files, operations).claims[key] == files.claims[key],
    decreases operations.len(),
{
    if operations.len() > 0 {
        claims_are_kept(files, operations.drop_last(), key);
    }
}

/// However appends interleave, one of them at most is told that it claimed a
/// key: once an attempt has been made, every later attempt finds the claim.
pub proof fn a_key_is_claimed_once(
    files: InboxFiles,
    first: InboxItemView,
    between: Seq<(InboxItemView, AppendEffectView)>,
    second: InboxItemView,
)
    requires
        first.dedupe_key == second.dedupe_key,
    ensures
        ({
            let (attempted, _) = performed(files, first, AppendEffectView::ClaimKey);
            let later = after_operations(attempted, between);
            performed(later, second, AppendEffectView::ClaimKey) == (
                later,
                AppendEventView::Claimed { created: false },
            )
        }),
{
    let (attempted, _) = performed(files, first, AppendEffectView::ClaimKey);
    claims_are_kept(attempted, between, super::file_backend::file_key(first.dedupe_key));
}

/// No item is lost and none is set back: whatever the append answers, every
/// item that was there under another id still is, as it was, and so is the one
/// of this id where it is the same fact. An id that is used for another fact
/// goes to the new item.
pub proof fn an_append_keeps_what_is_stored(files: InboxFiles, item: InboxItemView, other: ItemId)
    requires
        files.items.contains_key(other),
        other != item.item_id || files.items[other].item.dedupe_key == item.dedupe_key,
    ensures
        appended_to_files(files, item).0.items.contains_key(other),
        appended_to_files(files, item).0.items[other] == files.items[other],
{
}

/// An append takes back what it wrote only where the key is another item's: an
/// item that has its key is neither removed nor replaced.
pub proof fn only_duplicates_are_taken_back(
    item_id: ItemId,
    dedupe_key: Seq<char>,
    phase: AppendPhaseView,
    event: AppendEventView,
)
    requires
        answers(phase, event),
        ({
            let effect = next_append(item_id, dedupe_key, phase, event).1;
            effect is RemoveItem || effect is RestoreItem
        }),
    ensures
        phase matches AppendPhaseView::Reading { undo } && undo !is Nothing,
        event matches AppendEventView::Read { claim: Some(claim) } && claim.dedupe_key
            == dedupe_key && claim.item_id != item_id,
{
}

} // verus!
