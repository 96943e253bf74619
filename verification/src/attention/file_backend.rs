//! The file-backed attention backend: where each record lives, what each
//! record becomes, and in what order pending items come back.
//!
//! One directory per conversation holds `items/<item id>.json`, an item with
//! its drain status and its place in append order; `dedupe/<key hash>.json`, which item claimed a key; and
//! `lease.json`, the live dispatch lease.

use vstd::prelude::*;
use vstd::utf8::*;

use super::ordering;
use super::types::{DispatchLease, InboxItem, InboxItemStatus, InboxItemView, ItemId, LeaseView, StatusView};
use crate::text;

verus! {

/// How long a dispatch lease lives without renewal: the takeover latency for a
/// conversation orphaned by a crash.
pub const LEASE_TTL_MS: u64 = 60_000;

/// An item as it is stored, with its place in the order in which the items of
/// its conversation were appended.
#[derive(Debug)]
pub struct StoredItemRecord {
    pub item: InboxItem,
    pub status: InboxItemStatus,
    pub position: u64,
}

/// Which item claimed a key. The full key is kept, not just its hash, so that a
/// hash collision surfaces as an error rather than as a wrong deduplication.
#[derive(Debug)]
pub struct DedupeRecord {
    pub dedupe_key: String,
    pub item_id: ItemId,
}

/// A dispatch lease as it is stored.
#[derive(Debug)]
pub struct LeaseRecord {
    pub conversation_id: String,
    pub token: String,
    pub holder_pid: u32,
    pub expires_at_ms: u64,
}

/// The contents of a [`StoredItemRecord`].
#[verifier::ext_equal]
pub struct RecordView {
    pub item: InboxItemView,
    pub status: StatusView,
    pub position: u64,
}

/// The contents of a [`DedupeRecord`].
#[verifier::ext_equal]
pub struct DedupeView {
    pub dedupe_key: Seq<char>,
    pub item_id: ItemId,
}

/// The contents of a [`LeaseRecord`].
#[verifier::ext_equal]
pub struct LeaseRecordView {
    pub conversation_id: Seq<char>,
    pub token: Seq<char>,
    pub holder_pid: u32,
    pub expires_at_ms: u64,
}

impl View for StoredItemRecord {
    type V = RecordView;

    open spec fn view(&self) -> RecordView {
        RecordView { item: self.item@, status: self.status@, position: self.position }
    }
}

impl View for DedupeRecord {
    type V = DedupeView;

    open spec fn view(&self) -> DedupeView {
        DedupeView { dedupe_key: self.dedupe_key@, item_id: self.item_id }
    }
}

impl View for LeaseRecord {
    type V = LeaseRecordView;

    open spec fn view(&self) -> LeaseRecordView {
        LeaseRecordView {
            conversation_id: self.conversation_id@,
            token: self.token@,
            holder_pid: self.holder_pid,
            expires_at_ms: self.expires_at_ms,
        }
    }
}

/// The FNV-1a hash of a run of bytes.
pub open spec fn fnv1a(bytes: Seq<u8>) -> u64
    decreases bytes.len(),
{
    if bytes.len() == 0 {
        0xcbf29ce484222325
    } else {
        (((fnv1a(bytes.drop_last()) ^ (bytes.last() as u64)) * 0x100000001b3)
            % 0x1_0000_0000_0000_0000) as u64
    }
}

/// The file name key of a text: its hash in sixteen hexadecimal digits.
pub open spec fn file_key(key: Seq<char>) -> Seq<char> {
    text::hex(fnv1a(encode_utf8(key)) as nat, 16)
}

/// FNV-1a of the key's bytes, in sixteen hexadecimal digits.
pub fn fnv16hex(key: &str) -> (digits: String)
    ensures
        digits@ == file_key(key@),
{
    let bytes = key.as_bytes();
    let mut hash: u64 = 0xcbf29ce484222325;
    let mut i: usize = 0;
    assert(bytes@.take(0) =~= Seq::empty());
    while i < bytes.len()
        invariant
            i <= bytes.len(),
            hash == fnv1a(bytes@.take(i as int)),
        decreases bytes.len() - i,
    {
        proof {
            assert(bytes@.take(i + 1).drop_last() =~= bytes@.take(i as int));
            assert(bytes@.take(i + 1).last() == bytes@[i as int]);
        }
        hash = (hash ^ (bytes[i] as u64)).wrapping_mul(0x100000001b3);
        i += 1;
    }
    assert(bytes@.take(i as int) =~= bytes@);
    let mut digits = String::new();
    text::push_hex(&mut digits, hash as u128, 16);
    assert(digits@ =~= file_key(key@));
    digits
}

/// The directory a file-backed inbox lives in, and where its records are.
/// Locations are given as path segments below that directory.
#[derive(Debug)]
pub struct FileAttentionBackend {
    dir: String,
}

/// Where a conversation's items are.
pub open spec fn items_location(conversation_id: Seq<char>) -> Seq<Seq<char>> {
    seq![conversation_id, "items"@]
}

/// Where an item is.
pub open spec fn item_location(conversation_id: Seq<char>, item_id: ItemId) -> Seq<Seq<char>> {
    items_location(conversation_id).push(crate::ids::uuid_text(item_id.bits) + ".json"@)
}

/// Where the claim of a key is.
pub open spec fn dedupe_location(
    conversation_id: Seq<char>,
    dedupe_key: Seq<char>,
) -> Seq<Seq<char>> {
    seq![conversation_id, "dedupe"@, file_key(dedupe_key) + ".json"@]
}

/// Where a conversation's lease is.
pub open spec fn lease_location(conversation_id: Seq<char>) -> Seq<Seq<char>> {
    seq![conversation_id, "lease.json"@]
}

impl FileAttentionBackend {
    /// The directory the inbox lives in.
    pub closed spec fn root(&self) -> Seq<char> {
        self.dir@
    }

    /// A backend over a directory.
    pub fn new(dir: String) -> (backend: Self)
        ensures
            backend.root() == dir@,
    {
        FileAttentionBackend { dir }
    }

    /// The directory the inbox lives in.
    pub fn dir(&self) -> (dir: &str)
        ensures
            dir@ == self.root(),
    {
        self.dir.as_str()
    }

    /// Where a conversation's items are.
    pub fn items_dir(&self, conversation_id: &str) -> (segments: Vec<String>)
        ensures
            text::views(segments@) == items_location(conversation_id@),
    {
        let mut segments: Vec<String> = Vec::new();
        segments.push(conversation_id.to_string());
        segments.push("items".to_string());
        assert(text::views(segments@) =~= items_location(conversation_id@));
        segments
    }

    /// Where an item is.
    pub fn item_path(&self, conversation_id: &str, item_id: ItemId) -> (segments: Vec<String>)
        ensures
            text::views(segments@) == item_location(conversation_id@, item_id),
    {
        let mut segments = self.items_dir(conversation_id);
        let ghost before = segments@;
        let mut name = item_id.to_text();
        name.append(".json");
        segments.push(name);
        assert(text::views(segments@) =~= text::views(before).push(name@));
        segments
    }

    /// Where the claim of a key is.
    pub fn dedupe_path(&self, conversation_id: &str, dedupe_key: &str) -> (segments: Vec<String>)
        ensures
            text::views(segments@) == dedupe_location(conversation_id@, dedupe_key@),
    {
        let mut name = fnv16hex(dedupe_key);
        name.append(".json");
        let mut segments: Vec<String> = Vec::new();
        segments.push(conversation_id.to_string());
        segments.push("dedupe".to_string());
        segments.push(name);
        assert(text::views(segments@) =~= dedupe_location(conversation_id@, dedupe_key@));
        segments
    }

    /// Where a conversation's lease is.
    pub fn lease_path(&self, conversation_id: &str) -> (segments: Vec<String>)
        ensures
            text::views(segments@) == lease_location(conversation_id@),
    {
        let mut segments: Vec<String> = Vec::new();
        segments.push(conversation_id.to_string());
        segments.push("lease.json".to_string());
        assert(text::views(segments@) =~= lease_location(conversation_id@));
        segments
    }
}

/// Two items live in one place only where they are the same item of the same
/// conversation.
pub proof fn item_locations_are_distinct(
    a_conversation: Seq<char>,
    a: ItemId,
    b_conversation: Seq<char>,
    b: ItemId,
)
    requires
        item_location(a_conversation, a) == item_location(b_conversation, b),
    ensures
        a_conversation == b_conversation,
        a == b,
{
    let left = item_location(a_conversation, a);
    let right = item_location(b_conversation, b);
    assert(left[0] == a_conversation && right[0] == b_conversation);
    let a_name = crate::ids::uuid_text(a.bits) + ".json"@;
    let b_name = crate::ids::uuid_text(b.bits) + ".json"@;
    assert(left[2] == a_name && right[2] == b_name);
    let n = crate::ids::uuid_text(a.bits).len();
    assert(n == crate::ids::uuid_text(b.bits).len());
    assert(a_name.take(n as int) =~= crate::ids::uuid_text(a.bits));
    assert(b_name.take(n as int) =~= crate::ids::uuid_text(b.bits));
    crate::ids::uuid_text_is_injective(a.bits, b.bits);
}

/// Items, claims and the lease of any conversations never share a place.
pub proof fn records_do_not_share_places(
    c: Seq<char>,
    item_id: ItemId,
    d: Seq<char>,
    dedupe_key: Seq<char>,
    e: Seq<char>,
)
    ensures
        item_location(c, item_id) != dedupe_location(d, dedupe_key),
        item_location(c, item_id) != lease_location(e),
        dedupe_location(d, dedupe_key) != lease_location(e),
{
    reveal_strlit("items");
    reveal_strlit("dedupe");
    assert(item_location(c, item_id)[1] == "items"@);
    assert(dedupe_location(d, dedupe_key)[1] == "dedupe"@);
    assert("items"@.len() != "dedupe"@.len());
    assert(item_location(c, item_id).len() == 3);
    assert(dedupe_location(d, dedupe_key).len() == 3);
    assert(lease_location(e).len() == 2);
}

/// Whether a stored lease has run out.
pub open spec fn is_expired(record: LeaseRecordView, now_ms: u64) -> bool {
    record.expires_at_ms < now_ms
}

/// Whether a stored lease has run out: strictly after its deadline.
pub fn lease_expired(record: &LeaseRecord, now_ms: u64) -> (expired: bool)
    ensures
        expired == is_expired(record@, now_ms),
{
    record.expires_at_ms < now_ms
}

/// Whether the stored lease is the one a holder presents.
pub open spec fn is_held(stored: Option<LeaseRecordView>, lease: LeaseView) -> bool {
    stored matches Some(record) && record.token == lease.token
}

/// The contents of a stored lease that may be missing.
pub open spec fn stored_lease(stored: Option<LeaseRecord>) -> Option<LeaseRecordView> {
    match stored {
        Some(record) => Some(record@),
        None => None,
    }
}

/// What a renewal writes: the stored lease with a fresh deadline, where it is
/// still the one the holder presents. `None` means the lease is lost.
///
/// Read, then write: between the two a takeover could slip in and be
/// overwritten, where the holder has also let the lease run out.
pub fn renewed_lease(stored: Option<LeaseRecord>, lease: &DispatchLease, now_ms: u64) -> (written: Option<
    LeaseRecord,
>)
    requires
        now_ms + LEASE_TTL_MS <= u64::MAX,
    ensures
        stored_lease(written) == if is_held(stored_lease(stored), lease@) {
            Some(
                LeaseRecordView {
                    expires_at_ms: (now_ms + LEASE_TTL_MS) as u64,
                    ..stored_lease(stored)->0
                },
            )
        } else {
            None
        },
{
    match stored {
        Some(record) => if record.token == lease.token {
            Some(
                LeaseRecord {
                    conversation_id: record.conversation_id,
                    token: record.token,
                    holder_pid: record.holder_pid,
                    expires_at_ms: now_ms + LEASE_TTL_MS,
                },
            )
        } else {
            None
        },
        None => None,
    }
}

/// Whether a release may remove the stored lease: only where it is still the
/// one the holder presents.
pub fn may_release(stored: &Option<LeaseRecord>, lease: &DispatchLease) -> (held: bool)
    ensures
        held == is_held(stored_lease(*stored), lease@),
{
    match stored {
        Some(record) => record.token == lease.token,
        None => false,
    }
}

/// A lease with another token than the stored one neither renews nor releases.
pub proof fn a_stale_lease_is_fenced_off(stored: LeaseRecordView, stale: LeaseView)
    requires
        stored.token != stale.token,
    ensures
        !is_held(Some(stored), stale),
{
}

/// What a drain makes of an item: drained into the turn, where it is pending.
/// `None` leaves the item alone.
pub fn drained_record(record: StoredItemRecord, turn_ref: &str) -> (written: Option<
    StoredItemRecord,
>)
    ensures
        match written {
            Some(new) => record@.status is Pending && new@ == (RecordView {
                status: StatusView::Drained { turn_ref: turn_ref@ },
                ..record@
            }),
            None => !(record@.status is Pending),
        },
{
    match record.status {
        InboxItemStatus::Pending => Some(
            StoredItemRecord {
                item: record.item,
                status: InboxItemStatus::Drained { turn_ref: turn_ref.to_string() },
                position: record.position,
            },
        ),
        _ => None,
    }
}

/// What an acknowledgement makes of an item: acknowledged in the turn it was
/// drained into, where it is drained. `None` leaves the item alone.
pub fn acknowledged_record(record: StoredItemRecord) -> (written: Option<StoredItemRecord>)
    ensures
        match written {
            Some(new) => record@.status is Drained && new@ == (RecordView {
                status: StatusView::Acknowledged { turn_ref: record@.status->Drained_turn_ref },
                ..record@
            }),
            None => !(record@.status is Drained),
        },
{
    match record.status {
        InboxItemStatus::Drained { turn_ref } => Some(
            StoredItemRecord {
                item: record.item,
                status: InboxItemStatus::Acknowledged { turn_ref },
                position: record.position,
            },
        ),
        _ => None,
    }
}

/// An item as a new holder of the lease finds it. Acquiring means that no live
/// dispatcher holds the conversation, so an item drained and not acknowledged
/// belongs to a turn that died before committing: it is pending again, in its
/// old place.
pub open spec fn repended(stored: RecordView) -> RecordView {
    if stored.status is Drained {
        RecordView { status: StatusView::Pending, ..stored }
    } else {
        stored
    }
}

/// What acquiring the lease makes of an item. `None` leaves the item alone.
pub fn repended_record(record: StoredItemRecord) -> (written: Option<StoredItemRecord>)
    ensures
        match written {
            Some(new) => record@.status is Drained && new@ == repended(record@),
            None => repended(record@) == record@,
        },
{
    match record.status {
        InboxItemStatus::Drained { .. } => Some(
            StoredItemRecord {
                item: record.item,
                status: InboxItemStatus::Pending,
                position: record.position,
            },
        ),
        _ => None,
    }
}

/// The contents of each stored item.
pub open spec fn record_views(records: Seq<StoredItemRecord>) -> Seq<RecordView> {
    records.map_values(|record: StoredItemRecord| record@)
}

/// Whether a position is the highest of some.
pub open spec fn is_highest(positions: Set<u64>, position: u64) -> bool {
    positions.contains(position) && forall|other: u64| #[trigger]
        positions.contains(other) ==> other <= position
}

/// The highest of some positions; `None` where there are none.
pub open spec fn highest(positions: Set<u64>) -> Option<u64> {
    if exists|position: u64| #[trigger] is_highest(positions, position) {
        Some(choose|position: u64| #[trigger] is_highest(positions, position))
    } else {
        None
    }
}

/// The positions that are taken by a run of stored items.
pub open spec fn taken_positions(records: Seq<RecordView>) -> Set<u64> {
    Set::new(
        |position: u64|
            exists|i: int|
                0 <= i < records.len() && (#[trigger] records[i]).position == position,
    )
}

/// Where there are positions, one of them is the highest.
pub proof fn some_position_is_the_highest(positions: Set<u64>, position: u64)
    requires
        positions.contains(position),
    ensures
        highest(positions) matches Some(top) && is_highest(positions, top) && position <= top,
    decreases u64::MAX - position,
{
    if exists|other: u64| #[trigger] positions.contains(other) && other > position {
        let other = choose|other: u64| #[trigger] positions.contains(other) && other > position;
        some_position_is_the_highest(positions, other);
    } else {
        assert(is_highest(positions, position));
    }
}

/// The highest position among stored items; `None` where there is no item.
pub fn highest_position(records: &Vec<StoredItemRecord>) -> (found: Option<u64>)
    ensures
        found == highest(taken_positions(record_views(records@))),
{
    let ghost views = record_views(records@);
    let ghost taken = taken_positions(views);
    let mut found: Option<u64> = None;
    let mut i: usize = 0;
    while i < records.len()
        invariant
            i <= records.len(),
            views == record_views(records@),
            taken == taken_positions(views),
            found is None <==> i == 0,
            found matches Some(top) ==> taken.contains(top),
            found matches Some(top) ==> forall|j: int|
                0 <= j < i ==> (#[trigger] views[j]).position <= top,
        decreases records.len() - i,
    {
        let position: u64 = records[i].position;
        proof {
            assert(views[i as int].position == position);
            assert(taken.contains(position));
        }
        found = match found {
            Some(top) => if top < position {
                Some(position)
            } else {
                Some(top)
            },
            None => Some(position),
        };
        i += 1;
    }
    proof {
        match found {
            Some(top) => {
                assert(is_highest(taken, top));
                some_position_is_the_highest(taken, top);
            },
            None => {
                assert forall|position: u64| !taken.contains(position) by {}
            },
        }
    }
    found
}

/// The pending ones of a run of stored items.
pub open spec fn pending_among(records: Seq<RecordView>) -> Seq<RecordView> {
    records.filter(|record: RecordView| record.status is Pending)
}

/// The items of a run of stored ones.
pub open spec fn items_in(records: Seq<RecordView>) -> Seq<InboxItemView> {
    records.map_values(|record: RecordView| record.item)
}

/// When each item arrived, with its place in append order to separate items of
/// one millisecond. The id is left for items that were appended at once, whose
/// places can be the same.
pub open spec fn stored_arrivals(records: Seq<RecordView>) -> Seq<ordering::ArrivalKey> {
    records.map_values(
        |record: RecordView|
            (record.item.appended_at_ms, record.position, record.item.item_id.bits),
    )
}

/// What a listing of stored items gives: the pending ones, oldest first, and
/// within one millisecond in append order.
pub open spec fn listing(records: Seq<RecordView>) -> Seq<InboxItemView> {
    let pending = pending_among(records);
    items_in(ordering::arranged(pending, ordering::order(stored_arrivals(pending))))
}

/// The pending items among the records a conversation's directory holds, oldest
/// first, and within one millisecond in append order.
pub fn pending_items(records: Vec<StoredItemRecord>) -> (pending: Vec<InboxItem>)
    ensures
        super::types::item_views(pending@) == listing(record_views(records@)),
{
    let ghost views = record_views(records@);
    let mut kept: Vec<InboxItem> = Vec::new();
    let mut keys: Vec<ordering::ArrivalKey> = Vec::new();
    let mut i: usize = 0;
    proof {
        assert(views.take(0) =~= Seq::empty());
        reveal(Seq::filter);
        assert(super::types::item_views(kept@) =~= items_in(pending_among(views.take(0))));
        assert(keys@ =~= stored_arrivals(pending_among(views.take(0))));
    }
    while i < records.len()
        invariant
            i <= records.len(),
            views == record_views(records@),
            super::types::item_views(kept@) == items_in(pending_among(views.take(i as int))),
            keys@ == stored_arrivals(pending_among(views.take(i as int))),
        decreases records.len() - i,
    {
        let record = &records[i];
        let ghost before = kept@;
        let ghost earlier = pending_among(views.take(i as int));
        let ghost now = pending_among(views.take(i + 1));
        proof {
            assert(views[i as int] == record@);
            assert(views.take(i + 1).drop_last() =~= views.take(i as int));
            assert(views.take(i + 1).last() == record@);
            reveal(Seq::filter);
        }
        match record.status {
            InboxItemStatus::Pending => {
                kept.push(record.item.clone());
                keys.push(
                    (record.item.appended_at_ms, record.position, record.item.item_id.bits),
                );
                proof {
                    assert(now =~= earlier.push(record@));
                    assert(items_in(now) =~= items_in(earlier).push(record@.item));
                    assert(super::types::item_views(kept@) =~= super::types::item_views(
                        before,
                    ).push(record@.item));
                    assert(keys@ =~= stored_arrivals(now));
                }
            },
            _ => {
                assert(now =~= earlier);
            },
        }
        i += 1;
    }
    assert(views.take(i as int) =~= views);
    let positions = ordering::arrival_order(&keys);
    let ghost found = pending_among(views);
    assert(super::types::item_views(kept@).len() == items_in(found).len());
    let mut pending: Vec<InboxItem> = Vec::new();
    let mut j: usize = 0;
    while j < positions.len()
        invariant
            j <= positions.len(),
            positions.len() == kept.len(),
            found.len() == kept.len(),
            super::types::item_views(kept@) == items_in(found),
            forall|k: int| 0 <= k < positions.len() ==> #[trigger] positions@[k] < kept.len(),
            pending.len() == j,
            forall|k: int|
                0 <= k < j ==> (#[trigger] pending@[k])@ == found[positions@[k] as int].item,
        decreases positions.len() - j,
    {
        let ghost at = positions@[j as int] as int;
        assert(super::types::item_views(kept@)[at] == kept@[at]@);
        assert(items_in(found)[at] == found[at].item);
        pending.push(kept[positions[j]].clone());
        j += 1;
    }
    proof {
        let order = ordering::order(stored_arrivals(found));
        assert(order == positions@.map_values(|p: usize| p as int));
        assert forall|k: int| 0 <= k < pending.len() implies (#[trigger] pending@[k])@
            == listing(views)[k] by {
            assert(order[k] == positions@[k] as int);
        }
        assert(super::types::item_views(pending@) =~= listing(views));
    }
    pending
}

/// Whether one stored item goes before another: it arrived in an earlier
/// millisecond, or in the same one and was appended first.
pub open spec fn goes_first(a: RecordView, b: RecordView) -> bool {
    a.item.appended_at_ms < b.item.appended_at_ms || (a.item.appended_at_ms
        == b.item.appended_at_ms && a.position < b.position)
}

/// Whether one item stands before another in a listing.
pub open spec fn is_listed_before(
    items: Seq<InboxItemView>,
    a: InboxItemView,
    b: InboxItemView,
) -> bool {
    exists|i: int, j: int|
        0 <= i < j < items.len() && #[trigger] items[i] == a && #[trigger] items[j] == b
}

/// First in, first out: pending items come back in the order in which they
/// arrived, and within one millisecond in the order in which they were
/// appended, whatever their ids.
pub proof fn listings_keep_append_order(records: Seq<RecordView>, a: RecordView, b: RecordView)
    requires
        records.contains(a),
        records.contains(b),
        a.status is Pending,
        b.status is Pending,
        goes_first(a, b),
    ensures
        is_listed_before(listing(records), a.item, b.item),
{
    let pred = |record: RecordView| record.status is Pending;
    let pending = pending_among(records);
    let keys = stored_arrivals(pending);
    let order = ordering::order(keys);
    ordering::order_is_a_stable_sort(keys);
    let p = choose|p: int| 0 <= p < records.len() && records[p] == a;
    let q = choose|q: int| 0 <= q < records.len() && records[q] == b;
    assert(pred(records[p]) && pred(records[q]));
    assert(records.filter(pred).contains(records[p]));
    assert(records.filter(pred).contains(records[q]));
    let x = choose|x: int| 0 <= x < pending.len() && pending[x] == a;
    let y = choose|y: int| 0 <= y < pending.len() && pending[y] == b;
    assert(order.contains(x) && order.contains(y));
    let i = choose|i: int| 0 <= i < order.len() && order[i] == x;
    let j = choose|j: int| 0 <= j < order.len() && order[j] == y;
    assert(keys[x] == (a.item.appended_at_ms, a.position, a.item.item_id.bits));
    assert(keys[y] == (b.item.appended_at_ms, b.position, b.item.item_id.bits));
    if j < i {
        assert(ordering::goes_before(keys, order[j], order[i]));
    }
    assert(i != j);
    let listed = listing(records);
    assert(listed[i] == a.item);
    assert(listed[j] == b.item);
}

} // verus!
