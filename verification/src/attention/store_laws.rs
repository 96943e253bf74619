//! What is stored and what becomes of it, told by the records themselves.

use vstd::prelude::*;

use super::append_run::{
    self, AppendEffectView, AppendErrorView, AppendEventView, AppendPhaseView, InboxFiles,
};
use super::file_backend::{
    self, DedupeRecord, LeaseRecord, LeaseRecordView, RecordView, StoredItemRecord,
};
use super::item_laws;
use super::lease_laws::{self, LeaseFiles, Stamp};
use super::lease_run::{self, AcquireEffectView, AcquireEventView, AcquirePhaseView};
use super::mark_run::{self, ItemFiles, TransitionView};
use super::types::{AppendOutcome, InboxItemView, ItemId, LeaseView, StatusView};
use crate::filters;

verus! {

/// Whether two leases are stored alike, field by field.
pub open spec fn same_lease(a: LeaseRecord, b: LeaseRecord) -> bool {
    &&& a.conversation_id@ == b.conversation_id@
    &&& a.token@ == b.token@
    &&& a.holder_pid == b.holder_pid
    &&& a.expires_at_ms == b.expires_at_ms
}

/// The views of records show every field of them.
pub proof fn records_show_every_field(
    a: StoredItemRecord,
    b: StoredItemRecord,
    c: LeaseRecord,
    d: LeaseRecord,
    e: DedupeRecord,
    f: DedupeRecord,
)
    ensures
        a@ == b@ ==> item_laws::same_item(a.item, b.item) && item_laws::same_status(
            a.status,
            b.status,
        ) && a.position == b.position,
        c@ == d@ ==> same_lease(c, d),
        e@ == f@ ==> e.dedupe_key@ == f.dedupe_key@ && e.item_id == f.item_id,
        a@.item == a.item@,
        a@.status == a.status@,
        a@.position == a.position,
{
    if a@ == b@ {
        item_laws::an_item_shows_every_field(a.item, b.item);
    }
}

/// Whether a record is another with a new state: the item and its position stay.
pub open spec fn is_moved(was: RecordView, is: RecordView, status: StatusView) -> bool {
    is.item == was.item && is.position == was.position && is.status == status
}

/// A drain moves a pending item into its turn and no other; an acknowledgement
/// moves a drained item within the turn it was drained into and no other.
/// Neither changes the item or its position.
pub proof fn transitions_move_one_step(stored: RecordView, turn_ref: Seq<char>)
    ensures
        match mark_run::moved(TransitionView::Drain { turn_ref }, stored) {
            Some(new) => stored.status is Pending && is_moved(
                stored,
                new,
                StatusView::Drained { turn_ref },
            ),
            None => !(stored.status is Pending),
        },
        match mark_run::moved(TransitionView::Acknowledge, stored) {
            Some(new) => stored.status is Drained && is_moved(
                stored,
                new,
                StatusView::Acknowledged { turn_ref: stored.status->Drained_turn_ref },
            ),
            None => !(stored.status is Drained),
        },
{
}

/// A new holder finds drained items pending again, in their old place, and
/// every other item as it was.
pub proof fn only_drained_items_are_pending_again(stored: RecordView)
    ensures
        is_moved(
            stored,
            file_backend::repended(stored),
            match stored.status {
                StatusView::Drained { .. } => StatusView::Pending,
                other => other,
            },
        ),
{
}

/// Whether ids are some of others, in their order, at the positions `from`.
pub open spec fn are_some_of(ids: Seq<ItemId>, some: Seq<ItemId>, from: Seq<int>) -> bool {
    &&& from.len() == some.len()
    &&& forall|k: int|
        0 <= k < from.len() ==> 0 <= (#[trigger] from[k]) < ids.len() && some[k] == ids[from[k]]
    &&& forall|j: int, k: int|
        0 <= j < k < from.len() ==> (#[trigger] from[j]) < (#[trigger] from[k])
}

/// Where the moved ids stand among those given.
proof fn moved_positions(files: ItemFiles, ids: Seq<ItemId>, transition: TransitionView) -> (from:
    Seq<int>)
    ensures
        are_some_of(ids, mark_run::marked(files, ids, transition).1, from),
    decreases ids.len(),
{
    if ids.len() == 0 {
        Seq::empty()
    } else {
        let rest = ids.drop_last();
        let (before, counted) = mark_run::marked(files, rest, transition);
        let all = mark_run::marked(files, ids, transition).1;
        let earlier = moved_positions(files, rest, transition);
        let from = if all.len() > counted.len() {
            earlier.push(ids.len() - 1)
        } else {
            earlier
        };
        assert forall|k: int| 0 <= k < from.len() implies 0 <= (#[trigger] from[k]) < ids.len()
            && all[k] == ids[from[k]] by {
            if k < earlier.len() {
                assert(from[k] == earlier[k]);
                assert(rest[earlier[k]] == ids[earlier[k]]);
            }
        }
        assert forall|j: int, k: int| 0 <= j < k < from.len() implies (#[trigger] from[j]) < (
        #[trigger] from[k]) by {
            assert(from[j] == earlier[j]);
            if k < earlier.len() {
                assert(from[k] == earlier[k]);
            }
        }
        from
    }
}

/// A marking reports the ids it moved in the order in which they were given.
pub proof fn a_marking_reports_in_the_order_given(
    files: ItemFiles,
    ids: Seq<ItemId>,
    transition: TransitionView,
)
    ensures
        exists|from: Seq<int>| #[trigger]
            are_some_of(ids, mark_run::marked(files, ids, transition).1, from),
{
    let from = moved_positions(files, ids, transition);
    assert(are_some_of(ids, mark_run::marked(files, ids, transition).1, from));
}

/// Whether a stored item goes before another in a listing: by when it was
/// appended, then by its position, then by its id, and where they agree in all
/// of these by where it was found.
pub open spec fn is_listed_first(records: Seq<RecordView>, i: int, j: int) -> bool {
    let a = records[i];
    let b = records[j];
    if a.item.appended_at_ms != b.item.appended_at_ms {
        a.item.appended_at_ms < b.item.appended_at_ms
    } else if a.position != b.position {
        a.position < b.position
    } else if a.item.item_id.bits != b.item.item_id.bits {
        a.item.item_id.bits < b.item.item_id.bits
    } else {
        i < j
    }
}

/// Whether items are the pending ones of some records, each once, in order:
/// `from` says where each was found.
pub open spec fn lists(
    records: Seq<RecordView>,
    items: Seq<InboxItemView>,
    from: Seq<int>,
) -> bool {
    &&& items.len() == from.len()
    &&& forall|k: int|
        0 <= k < from.len() ==> 0 <= (#[trigger] from[k]) < records.len()
            && records[from[k]].status == StatusView::Pending && items[k] == records[from[k]].item
    &&& forall|j: int, k: int|
        0 <= j < k < from.len() ==> is_listed_first(
            records,
            #[trigger] from[j],
            #[trigger] from[k],
        )
    &&& forall|i: int|
        0 <= i < records.len() && (#[trigger] records[i]).status == StatusView::Pending
            ==> from.contains(i)
}

/// A listing holds every pending item once and no other, in the order of
/// arrival, and those of one millisecond in the order in which they were
/// appended.
pub proof fn a_listing_holds_what_is_pending(records: Seq<RecordView>)
    ensures
        exists|from: Seq<int>| #[trigger] lists(records, file_backend::listing(records), from),
{
    let keep = |record: RecordView| record.status is Pending;
    let pending = file_backend::pending_among(records);
    let at = filters::kept_positions(records, keep);
    let keys = file_backend::stored_arrivals(pending);
    let order = super::ordering::order(keys);
    super::ordering::order_is_a_stable_sort(keys);
    let items = file_backend::listing(records);
    let from = order.map_values(|m: int| at[m]);
    assert(pending.len() == at.len());
    assert forall|m: int| 0 <= m < at.len() implies #[trigger] pending[m] == records[at[m]] by {}
    assert forall|k: int| 0 <= k < from.len() implies 0 <= (#[trigger] from[k]) < records.len()
        && records[from[k]].status == StatusView::Pending && items[k] == records[from[k]].item by {
        assert(order.contains(order[k]));
        assert(0 <= order[k] < at.len());
        assert(pending[order[k]] == records[at[order[k]]]);
        assert((|i: int| keep(records[i]))(at[order[k]]));
    }
    assert forall|j: int, k: int| 0 <= j < k < from.len() implies is_listed_first(
        records,
        #[trigger] from[j],
        #[trigger] from[k],
    ) by {
        assert(order.contains(order[j]) && order.contains(order[k]));
        assert(super::ordering::goes_before(keys, order[j], order[k]));
        assert(pending[order[j]] == records[at[order[j]]]);
        assert(pending[order[k]] == records[at[order[k]]]);
        if order[j] < order[k] {
            assert(at[order[j]] < at[order[k]]);
        }
    }
    assert forall|i: int|
        0 <= i < records.len() && (
        #[trigger] records[i]).status == StatusView::Pending implies from.contains(i) by {
        assert((|i: int| keep(records[i]))(i));
        assert(at.contains(i));
        let m = choose|m: int| 0 <= m < at.len() && at[m] == i;
        assert(order.contains(m));
        let k = choose|k: int| 0 <= k < order.len() && order[k] == m;
        assert(from[k] == i);
    }
    assert(lists(records, items, from));
}

/// The highest position is one that is taken, and none that is taken is higher;
/// there is none where nothing is stored.
pub proof fn the_highest_position_is_the_last_taken(records: Seq<RecordView>)
    ensures
        match file_backend::highest(file_backend::taken_positions(records)) {
            Some(top) => (exists|i: int|
                0 <= i < records.len() && (#[trigger] records[i]).position == top) && (forall|i:
                int|
                0 <= i < records.len() ==> (#[trigger] records[i]).position <= top),
            None => records.len() == 0,
        },
{
    let taken = file_backend::taken_positions(records);
    if records.len() > 0 {
        assert(taken.contains(records[0].position));
        file_backend::some_position_is_the_highest(taken, records[0].position);
        let top = file_backend::highest(taken)->0;
        assert forall|i: int| 0 <= i < records.len() implies (#[trigger] records[i]).position
            <= top by {
            assert(taken.contains(records[i].position));
        }
    } else {
        assert forall|position: u64| !taken.contains(position) by {}
    }
}

/// A lease has run out once its deadline is past, and not before: at the
/// deadline it is still held.
pub proof fn a_lease_runs_out_after_its_deadline(record: LeaseRecordView, now_ms: u64)
    ensures
        file_backend::is_expired(record, now_ms) <==> now_ms > record.expires_at_ms,
        !file_backend::is_expired(record, record.expires_at_ms),
{
}

/// A lease is held by whoever has the token that is stored; where none is stored
/// nobody holds it.
pub proof fn a_lease_is_held_by_its_token(record: LeaseRecordView, lease: LeaseView)
    ensures
        file_backend::is_held(Some(record), lease) <==> record.token == lease.token,
        !file_backend::is_held(None, lease),
{
}

/// A lease that is taken is stored with the conversation, the token and the
/// holder it was taken for, for a minute from when it was taken.
pub proof fn a_taken_lease_is_stored(conversation_id: Seq<char>, files: LeaseFiles, stamp: Stamp)
    requires
        stamp.now_ms + 60_000 <= u64::MAX,
    ensures
        lease_laws::taken(conversation_id, files, stamp).lease matches Some(record)
            && record.conversation_id == conversation_id && record.token == stamp.token
            && record.holder_pid == stamp.holder_pid && record.expires_at_ms == stamp.now_ms
            + 60_000,
        lease_laws::taken(conversation_id, files, stamp).items.dom() == files.items.dom(),
{
    assert(lease_laws::taken(conversation_id, files, stamp).items.dom() =~= files.items.dom());
}

/// An acquisition gives up exactly where it finds a lease that has not run out.
pub proof fn only_a_live_lease_refuses(
    conversation_id: Seq<char>,
    phase: AcquirePhaseView,
    event: AcquireEventView,
)
    requires
        lease_run::answers(phase, event),
    ensures
        lease_run::next_acquire(conversation_id, phase, event).1 == (AcquireEffectView::Finish {
            lease: None,
        }) <==> (event matches AcquireEventView::Held { record: Some(record), now_ms } && now_ms
            <= record.expires_at_ms),
{
}

/// A lease that is granted is one whose record was created: under the token
/// that was minted for it, in the acquisition's own conversation, and for a
/// minute from then.
pub proof fn a_lease_is_granted_under_its_own_token(
    conversation_id: Seq<char>,
    token: Seq<char>,
    holder_pid: u32,
    now_ms: u64,
)
    requires
        now_ms + 60_000 <= u64::MAX,
    ensures
        ({
            let (creating, create) = lease_run::next_acquire(
                conversation_id,
                AcquirePhaseView::Minting,
                AcquireEventView::Minted { token, holder_pid, now_ms },
            );
            let (repending, repend) = lease_run::next_acquire(
                conversation_id,
                creating,
                AcquireEventView::Created { created: true },
            );
            let end = lease_run::next_acquire(
                conversation_id,
                repending,
                AcquireEventView::Repended,
            ).1;
            &&& create matches AcquireEffectView::Create { record } && record.conversation_id
                == conversation_id && record.token == token && record.holder_pid == holder_pid
                && record.expires_at_ms == now_ms + 60_000
            &&& repend is Repend
            &&& end == (AcquireEffectView::Finish {
                lease: Some(LeaseView { conversation_id, token }),
            })
        }),
{
}

/// A lease is granted only after the items were made pending again.
pub proof fn a_lease_is_granted_after_repending(
    conversation_id: Seq<char>,
    phase: AcquirePhaseView,
    event: AcquireEventView,
)
    requires
        lease_run::answers(phase, event),
        lease_run::next_acquire(conversation_id, phase, event).1 is Finish,
        lease_run::next_acquire(conversation_id, phase, event).1->lease is Some,
    ensures
        event is Repended,
        phase is Repending,
{
}

/// A takeover removes the lease it found run out, and no other: a lease that
/// turns out to have another token is put back. Where the expired one was gone
/// already, or the lease was given up meanwhile, the acquisition starts over.
pub proof fn a_takeover_removes_what_it_found(
    conversation_id: Seq<char>,
    found: LeaseRecordView,
    now_ms: u64,
    tombstone: Option<LeaseRecordView>,
)
    requires
        now_ms > found.expires_at_ms,
    ensures
        ({
            let (renaming, rename) = lease_run::next_acquire(
                conversation_id,
                AcquirePhaseView::Reading,
                AcquireEventView::Held { record: Some(found), now_ms },
            );
            let (inspecting, inspect) = lease_run::next_acquire(
                conversation_id,
                renaming,
                AcquireEventView::Renamed { renamed: true },
            );
            let judged = lease_run::next_acquire(
                conversation_id,
                inspecting,
                AcquireEventView::Tombstone { record: tombstone },
            ).1;
            &&& rename is RenameAway
            &&& inspect is ReadTombstone
            &&& match tombstone {
                Some(record) => if record.token == found.token {
                    judged is RemoveTombstone
                } else {
                    judged is Restore
                },
                None => judged is RemoveTombstone,
            }
            &&& lease_run::next_acquire(
                conversation_id,
                renaming,
                AcquireEventView::Renamed { renamed: false },
            ).1 is Mint
            &&& lease_run::next_acquire(
                conversation_id,
                AcquirePhaseView::Reading,
                AcquireEventView::Held { record: None, now_ms },
            ).1 is Mint
        }),
{
}

/// What an undisturbed append answers is told by the claim of its key: a free
/// key is claimed for the item and the item reported as new; a key that is
/// claimed for the same fact leaves everything as it is, and its item is
/// reported; a claim of another key of the same hash is an error that names that
/// key, and stays.
pub proof fn an_append_is_told_by_the_claim(files: InboxFiles, item: InboxItemView)
    ensures
        ({
            let key = file_backend::file_key(item.dedupe_key);
            let (after, result) = append_run::appended_to_files(files, item);
            if !files.claims.contains_key(key) {
                &&& result matches Ok(outcome) && outcome.item_id == item.item_id
                    && !outcome.deduplicated
                &&& after.claims.contains_key(key)
                &&& after.claims[key].dedupe_key == item.dedupe_key
                &&& after.claims[key].item_id == item.item_id
                &&& forall|other: Seq<char>|
                    other != key ==> #[trigger] after.claims.contains_key(other)
                        == files.claims.contains_key(other) && after.claims[other]
                        == files.claims[other]
            } else if files.claims[key].dedupe_key == item.dedupe_key {
                &&& after == files
                &&& result matches Ok(outcome) && outcome.item_id == files.claims[key].item_id
                    && outcome.deduplicated
            } else {
                &&& after.claims == files.claims
                &&& result matches Err(AppendErrorView::Collision { existing }) && existing
                    == files.claims[key].dedupe_key
            }
        }),
{
}

/// Where an append under way ends, and with what: as new exactly where it has
/// made the claim; as known only where the claim is of its own key, with that
/// claim's item; with a collision only where the claim is of another key; and
/// with a vanished claim only where the claim that stood in its way is gone.
pub proof fn an_append_ends_with_what_it_found(
    item_id: ItemId,
    dedupe_key: Seq<char>,
    phase: AppendPhaseView,
    event: AppendEventView,
    result: Result<AppendOutcome, AppendErrorView>,
)
    requires
        append_run::answers(phase, event),
        append_run::next_append(item_id, dedupe_key, phase, event).1 == (AppendEffectView::Finish {
            result,
        }),
    ensures
        match result {
            Ok(outcome) => if outcome.deduplicated {
                ||| event matches AppendEventView::Read { claim: Some(claim) }
                    && claim.dedupe_key == dedupe_key && claim.item_id == outcome.item_id
                ||| phase matches AppendPhaseView::Undoing { existing } && existing
                    == outcome.item_id
            } else {
                event == (AppendEventView::Claimed { created: true }) && outcome.item_id
                    == item_id
            },
            Err(AppendErrorView::Collision { existing }) => event matches AppendEventView::Read {
                claim: Some(claim),
            } && claim.dedupe_key == existing && existing != dedupe_key,
            Err(AppendErrorView::ClaimVanished) => event matches AppendEventView::Read {
                claim: None,
            } && phase is Reading,
        },
{
}

/// An append that takes back what it wrote ends with the item that won its key.
pub proof fn an_append_names_the_winner(
    item_id: ItemId,
    dedupe_key: Seq<char>,
    phase: AppendPhaseView,
    winner: ItemId,
    done: AppendEventView,
)
    requires
        phase is Reading,
        winner != item_id,
        done is Removed || done is Written,
    ensures
        ({
            let claim = super::file_backend::DedupeView { dedupe_key, item_id: winner };
            let (next, effect) = append_run::next_append(
                item_id,
                dedupe_key,
                phase,
                AppendEventView::Read { claim: Some(claim) },
            );
            let last = if effect is Finish {
                effect
            } else {
                append_run::next_append(item_id, dedupe_key, next, done).1
            };
            last matches AppendEffectView::Finish { result: Ok(outcome) } && outcome.item_id
                == winner && outcome.deduplicated
        }),
{
}

/// Whether segments are a place below a conversation's directory.
pub open spec fn is_below(segments: Seq<Seq<char>>, conversation_id: Seq<char>) -> bool {
    segments.len() >= 2 && segments[0] == conversation_id
}

/// Every record stands below the directory of its conversation: items under
/// `items` by their ids, claims under `dedupe` by the hash of their key, and the
/// lease in `lease.json`. Claims share a place exactly where their conversation
/// and their hash are the same.
pub proof fn records_stand_below_their_conversation(
    a: Seq<char>,
    b: Seq<char>,
    item_id: ItemId,
    key: Seq<char>,
    other: Seq<char>,
)
    ensures
        is_below(file_backend::items_location(a), a),
        is_below(file_backend::item_location(a, item_id), a),
        file_backend::item_location(a, item_id).drop_last() == file_backend::items_location(a),
        is_below(file_backend::dedupe_location(a, key), a),
        is_below(file_backend::lease_location(a), a),
        file_backend::items_location(a)[1] == "items"@,
        file_backend::dedupe_location(a, key)[1] == "dedupe"@,
        file_backend::lease_location(a)[1] == "lease.json"@,
        file_backend::dedupe_location(a, key) == file_backend::dedupe_location(b, other) <==> a == b
            && file_backend::file_key(key) == file_backend::file_key(other),
        file_backend::lease_location(a) == file_backend::lease_location(b) <==> a == b,
{
    let x = file_backend::file_key(key);
    let y = file_backend::file_key(other);
    assert(file_backend::item_location(a, item_id).drop_last() =~= file_backend::items_location(a));
    let left = file_backend::dedupe_location(a, key);
    let right = file_backend::dedupe_location(b, other);
    if left == right {
        assert(left[0] == a && right[0] == b);
        assert(left[2] == x + ".json"@ && right[2] == y + ".json"@);
        assert((x + ".json"@).len() == (y + ".json"@).len());
        assert((x + ".json"@).take(x.len() as int) =~= x);
        assert((y + ".json"@).take(y.len() as int) =~= y);
    }
    if file_backend::lease_location(a) == file_backend::lease_location(b) {
        assert(file_backend::lease_location(a)[0] == a);
        assert(file_backend::lease_location(b)[0] == b);
    }
}

/// The contents of a run of records are theirs, one for one and in order, and
/// those of a lease that may be missing are there exactly where it is.
pub proof fn record_contents_are_those_of_the_records(
    records: Seq<StoredItemRecord>,
    stored: Option<LeaseRecord>,
)
    ensures
        file_backend::record_views(records).len() == records.len(),
        forall|i: int|
            0 <= i < records.len() ==> #[trigger] file_backend::record_views(records)[i]
                == records[i]@,
        match stored {
            Some(record) => file_backend::stored_lease(stored) == Some(record@),
            None => file_backend::stored_lease(stored) is None,
        },
{
}

/// The position behind the highest is higher than every one that is taken, but
/// at the very end, where the last is shared; the first item has the lowest.
pub proof fn the_next_position_is_behind_all(records: Seq<RecordView>, i: int)
    requires
        0 <= i < records.len(),
    ensures
        ({
            let taken = file_backend::taken_positions(records);
            let next = append_run::following(file_backend::highest(taken));
            records[i].position < next || (records[i].position == u64::MAX && next == u64::MAX)
        }),
        append_run::following(None) == 0,
{
    the_highest_position_is_the_last_taken(records);
}

} // verus!
