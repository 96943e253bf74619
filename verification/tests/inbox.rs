use std::cell::{Cell, RefCell};
use std::collections::BTreeMap;
use std::rc::Rc;

use exo_attention::adapter::types::{AdapterConfig, AdapterRecord};
use exo_attention::attention::append_run::{AppendEffect, AppendError, AppendEvent, AppendRun};
use exo_attention::attention::backend::InMemoryAttentionBackend;
use exo_attention::attention::dispatch::{
    compose_drained_prompt, DispatchPass, PassEffect, PassEnd, PassEvent,
};
use exo_attention::attention::dispatcher::{decide, Action, ConversationState};
use exo_attention::attention::file_backend::{
    fnv16hex, highest_position, lease_expired, may_release, pending_items, renewed_lease,
    repended_record, DedupeRecord, FileAttentionBackend, LeaseRecord, StoredItemRecord,
    LEASE_TTL_MS,
};
use exo_attention::attention::lease_run::{AcquireEffect, AcquireEvent, AcquireRun};
use exo_attention::attention::mark_run::{MarkEffect, MarkEvent, MarkRun, Transition};
use exo_attention::attention::producers::{
    adapter_dedupe_key, fire_dedupe_key, inbox_item_from_adapter_message, inbox_item_from_fire,
    AdapterInboundMessage, ScheduledFireRecord,
};
use exo_attention::attention::types::{
    AppendOutcome, Attention, DispatchLease, InboxItem, InboxItemStatus, ItemId, NativeContext,
    ProducerKind, ProducerRef,
};
use exo_attention::ids::Uuid7;
use serde_json::Value;

const CONVERSATION: &str = "conversation-1";
const T0: u64 = 1_700_000_000_000;
const BATCH_MAX_WAIT_MS: u64 = 60_000;

/// What the backends share here: a clock, and ids that grow as they are minted.
#[derive(Default)]
struct Host {
    minted: Cell<u128>,
    now_ms: Cell<u64>,
}

impl Host {
    fn mint(&self) -> Uuid7 {
        self.minted.set(self.minted.get() + 1);
        Uuid7 { bits: self.minted.get() }
    }

    fn item(&self, conversation: &str, dedupe_key: &str, appended_at_ms: u64) -> InboxItem {
        InboxItem {
            item_id: self.mint(),
            conversation_id: conversation.to_string(),
            producer: ProducerRef {
                kind: ProducerKind::Agent,
                id: "test-producer".to_string(),
            },
            dedupe_key: dedupe_key.to_string(),
            attention: Attention::Wake,
            native: NativeContext::Opaque(Value::Null),
            prompt: format!("prompt for {dedupe_key}"),
            artifacts: Vec::new(),
            appended_at_ms,
        }
    }
}

trait Backend {
    fn append_inbox_item(&self, item: InboxItem) -> AppendOutcome;
    fn list_pending(&self, conversation: &str) -> Vec<InboxItem>;
    fn mark_drained(&self, ids: &[ItemId], turn_ref: &str) -> Vec<ItemId>;
    fn mark_acknowledged(&self, ids: &[ItemId]) -> Vec<ItemId>;
    fn acquire_dispatch_lease(&self, conversation: &str) -> Option<DispatchLease>;
    fn renew_dispatch_lease(&self, lease: &DispatchLease) -> bool;
    fn release_dispatch_lease(&self, lease: &DispatchLease) -> bool;
}

struct InMemory {
    host: Rc<Host>,
    backend: RefCell<InMemoryAttentionBackend>,
}

impl InMemory {
    fn new(host: &Rc<Host>) -> Self {
        InMemory { host: host.clone(), backend: RefCell::new(InMemoryAttentionBackend::new()) }
    }
}

impl Backend for InMemory {
    fn append_inbox_item(&self, item: InboxItem) -> AppendOutcome {
        self.backend.borrow_mut().append_inbox_item(item)
    }

    fn list_pending(&self, conversation: &str) -> Vec<InboxItem> {
        self.backend.borrow().list_pending(conversation)
    }

    fn mark_drained(&self, ids: &[ItemId], turn_ref: &str) -> Vec<ItemId> {
        self.backend.borrow_mut().mark_drained(ids, turn_ref)
    }

    fn mark_acknowledged(&self, ids: &[ItemId]) -> Vec<ItemId> {
        self.backend.borrow_mut().mark_acknowledged(ids)
    }

    fn acquire_dispatch_lease(&self, conversation: &str) -> Option<DispatchLease> {
        let token = self.host.mint().to_text();
        self.backend.borrow_mut().acquire_dispatch_lease(conversation, token)
    }

    fn renew_dispatch_lease(&self, lease: &DispatchLease) -> bool {
        self.backend.borrow().renew_dispatch_lease(lease)
    }

    fn release_dispatch_lease(&self, lease: &DispatchLease) -> bool {
        self.backend.borrow_mut().release_dispatch_lease(lease)
    }
}

enum File {
    Item(StoredItemRecord),
    Claim(DedupeRecord),
    Lease(LeaseRecord),
}

type Directory = Rc<RefCell<BTreeMap<String, File>>>;

fn copy_lease(record: &LeaseRecord) -> LeaseRecord {
    LeaseRecord {
        conversation_id: record.conversation_id.clone(),
        token: record.token.clone(),
        holder_pid: record.holder_pid,
        expires_at_ms: record.expires_at_ms,
    }
}

fn copy_stored(record: &StoredItemRecord) -> StoredItemRecord {
    StoredItemRecord {
        item: record.item.clone(),
        status: record.status.clone(),
        position: record.position,
    }
}

/// A file backend of one process over a directory.
struct Files {
    host: Rc<Host>,
    directory: Directory,
    layout: FileAttentionBackend,
}

impl Files {
    fn new(host: &Rc<Host>, directory: &Directory) -> Self {
        Files {
            host: host.clone(),
            directory: directory.clone(),
            layout: FileAttentionBackend::new("attention".to_string()),
        }
    }

    fn path(&self, segments: Vec<String>) -> String {
        format!("{}/{}", self.layout.dir(), segments.join("/"))
    }

    fn lease_path(&self, conversation: &str) -> String {
        self.path(self.layout.lease_path(conversation))
    }

    fn lease(&self, path: &str) -> Option<LeaseRecord> {
        match self.directory.borrow().get(path) {
            Some(File::Lease(record)) => Some(copy_lease(record)),
            _ => None,
        }
    }

    fn records(&self, conversation: &str) -> Vec<StoredItemRecord> {
        let prefix = format!("{}/", self.path(self.layout.items_dir(conversation)));
        self.directory
            .borrow()
            .iter()
            .filter(|(path, _)| path.starts_with(&prefix))
            .filter_map(|(_, file)| match file {
                File::Item(record) => Some(copy_stored(record)),
                _ => None,
            })
            .collect()
    }

    fn append(&self, item: InboxItem) -> Result<AppendOutcome, AppendError> {
        let item_path = self.path(self.layout.item_path(&item.conversation_id, item.item_id));
        let claim_path = self.path(
            self.layout.dedupe_path(&item.conversation_id, &item.dedupe_key),
        );
        let mut run = AppendRun::start(item.item_id, item.dedupe_key.clone());
        let mut effect = AppendEffect::Prepare;
        loop {
            let event = match effect {
                AppendEffect::Prepare => AppendEvent::Prepared,
                AppendEffect::Survey => AppendEvent::Surveyed {
                    highest: highest_position(&self.records(&item.conversation_id)),
                },
                AppendEffect::CreateItem { position } => {
                    let mut files = self.directory.borrow_mut();
                    let created = !files.contains_key(&item_path);
                    if created {
                        let record = StoredItemRecord {
                            item: item.clone(),
                            status: InboxItemStatus::Pending,
                            position,
                        };
                        files.insert(item_path.clone(), File::Item(record));
                    }
                    AppendEvent::Created { created }
                }
                AppendEffect::LoadItem => AppendEvent::Loaded {
                    record: match self.directory.borrow().get(&item_path) {
                        Some(File::Item(record)) => Some(copy_stored(record)),
                        _ => None,
                    },
                },
                AppendEffect::WriteItem { position } => {
                    let record = StoredItemRecord {
                        item: item.clone(),
                        status: InboxItemStatus::Pending,
                        position,
                    };
                    self.directory.borrow_mut().insert(item_path.clone(), File::Item(record));
                    AppendEvent::Written
                }
                AppendEffect::RestoreItem { record } => {
                    self.directory.borrow_mut().insert(item_path.clone(), File::Item(record));
                    AppendEvent::Written
                }
                AppendEffect::ClaimKey => {
                    let mut files = self.directory.borrow_mut();
                    let created = !files.contains_key(&claim_path);
                    if created {
                        files.insert(
                            claim_path.clone(),
                            File::Claim(DedupeRecord {
                                dedupe_key: item.dedupe_key.clone(),
                                item_id: item.item_id,
                            }),
                        );
                    }
                    AppendEvent::Claimed { created }
                }
                AppendEffect::ReadClaim => AppendEvent::Read {
                    claim: match self.directory.borrow().get(&claim_path) {
                        Some(File::Claim(claim)) => Some(DedupeRecord {
                            dedupe_key: claim.dedupe_key.clone(),
                            item_id: claim.item_id,
                        }),
                        _ => None,
                    },
                },
                AppendEffect::RemoveItem => {
                    self.directory.borrow_mut().remove(&item_path);
                    AppendEvent::Removed
                }
                AppendEffect::Finish { result } => return result,
            };
            effect = run.advance(event);
        }
    }

    fn mark(&self, ids: &[ItemId], transition: Transition) -> Vec<ItemId> {
        let (mut run, mut effect) = MarkRun::start(ids.to_vec(), transition);
        let mut loaded = String::new();
        loop {
            let event = match effect {
                MarkEffect::Load { item_id } => {
                    let name = format!("/{}.json", item_id.to_text());
                    let files = self.directory.borrow();
                    let found = files.iter().find_map(|(path, file)| match file {
                        File::Item(record) if path.ends_with(&name) => {
                            Some((path.clone(), copy_stored(record)))
                        }
                        _ => None,
                    });
                    let record = found.map(|(path, record)| {
                        loaded = path;
                        record
                    });
                    MarkEvent::Loaded { record }
                }
                MarkEffect::Store { record } => {
                    self.directory.borrow_mut().insert(loaded.clone(), File::Item(record));
                    MarkEvent::Stored
                }
                MarkEffect::Finish => return run.moved,
            };
            effect = run.advance(event);
        }
    }
}

/// An acquisition that can be taken one operation further at a time.
struct Acquisition {
    run: AcquireRun,
    effect: AcquireEffect,
    tombstone: Option<LeaseRecord>,
}

impl Acquisition {
    fn new(conversation: &str) -> Self {
        Acquisition {
            run: AcquireRun::start(conversation.to_string()),
            effect: AcquireEffect::Prepare,
            tombstone: None,
        }
    }

    fn ended(&self) -> bool {
        matches!(self.effect, AcquireEffect::Finish { .. })
    }

    fn step(&mut self, files: &Files) {
        let conversation = self.run.conversation_id.clone();
        let path = files.lease_path(&conversation);
        let now_ms = files.host.now_ms.get();
        let event = match &self.effect {
            AcquireEffect::Prepare => AcquireEvent::Prepared,
            AcquireEffect::Mint => AcquireEvent::Minted {
                token: files.host.mint().to_text(),
                holder_pid: 1,
                now_ms,
            },
            AcquireEffect::Create { record } => {
                let mut directory = files.directory.borrow_mut();
                let created = !directory.contains_key(&path);
                if created {
                    directory.insert(path, File::Lease(copy_lease(record)));
                }
                AcquireEvent::Created { created }
            }
            AcquireEffect::Read => AcquireEvent::Held { record: files.lease(&path), now_ms },
            AcquireEffect::RenameAway => {
                self.tombstone = files.lease(&path);
                let renamed = files.directory.borrow_mut().remove(&path).is_some();
                AcquireEvent::Renamed { renamed }
            }
            AcquireEffect::ReadTombstone => AcquireEvent::Tombstone {
                record: self.tombstone.as_ref().map(copy_lease),
            },
            AcquireEffect::Restore => {
                let mut directory = files.directory.borrow_mut();
                if let Some(record) = &self.tombstone {
                    if !directory.contains_key(&path) {
                        directory.insert(path, File::Lease(copy_lease(record)));
                    }
                }
                AcquireEvent::Restored
            }
            AcquireEffect::RemoveTombstone => {
                self.tombstone = None;
                AcquireEvent::Removed
            }
            AcquireEffect::Repend => {
                for record in files.records(&conversation) {
                    let path =
                        files.path(files.layout.item_path(&conversation, record.item.item_id));
                    if let Some(record) = repended_record(record) {
                        files.directory.borrow_mut().insert(path, File::Item(record));
                    }
                }
                AcquireEvent::Repended
            }
            AcquireEffect::Finish { .. } => return,
        };
        self.effect = self.run.advance(event);
    }

    fn lease(self) -> Option<DispatchLease> {
        match self.effect {
            AcquireEffect::Finish { lease } => lease,
            _ => None,
        }
    }
}

impl Backend for Files {
    fn append_inbox_item(&self, item: InboxItem) -> AppendOutcome {
        self.append(item).expect("append")
    }

    fn list_pending(&self, conversation: &str) -> Vec<InboxItem> {
        pending_items(self.records(conversation))
    }

    fn mark_drained(&self, ids: &[ItemId], turn_ref: &str) -> Vec<ItemId> {
        self.mark(ids, Transition::Drain { turn_ref: turn_ref.to_string() })
    }

    fn mark_acknowledged(&self, ids: &[ItemId]) -> Vec<ItemId> {
        self.mark(ids, Transition::Acknowledge)
    }

    fn acquire_dispatch_lease(&self, conversation: &str) -> Option<DispatchLease> {
        let mut acquisition = Acquisition::new(conversation);
        while !acquisition.ended() {
            acquisition.step(self);
        }
        acquisition.lease()
    }

    fn renew_dispatch_lease(&self, lease: &DispatchLease) -> bool {
        let path = self.lease_path(&lease.conversation_id);
        match renewed_lease(self.lease(&path), lease, self.host.now_ms.get()) {
            Some(record) => {
                self.directory.borrow_mut().insert(path, File::Lease(record));
                true
            }
            None => false,
        }
    }

    fn release_dispatch_lease(&self, lease: &DispatchLease) -> bool {
        let path = self.lease_path(&lease.conversation_id);
        let held = may_release(&self.lease(&path), lease);
        if held {
            self.directory.borrow_mut().remove(&path);
        }
        held
    }
}

fn each_backend(test: fn(&Host, &dyn Backend)) {
    let host = Rc::new(Host::default());
    test(&host, &InMemory::new(&host));
    let host = Rc::new(Host::default());
    test(&host, &Files::new(&host, &Directory::default()));
}

#[test]
fn append_is_idempotent_on_conversation_and_dedupe_key() {
    each_backend(|host, backend| {
        let first = host.item("conversation", "task-1:1000", 10);
        let first_outcome = backend.append_inbox_item(first.clone());
        assert!(!first_outcome.deduplicated);
        assert_eq!(first_outcome.item_id, first.item_id);

        // The same fact appended again — a redelivery — mints a fresh item id
        // and must still collapse onto the item already there.
        let redelivered = host.item("conversation", "task-1:1000", 20);
        assert_ne!(redelivered.item_id, first.item_id);
        let second_outcome = backend.append_inbox_item(redelivered);
        assert!(second_outcome.deduplicated);
        assert_eq!(second_outcome.item_id, first.item_id);

        let pending = backend.list_pending("conversation");
        assert_eq!(pending.len(), 1);
        assert_eq!(pending[0].item_id, first.item_id);
        assert_eq!(pending[0].appended_at_ms, 10);
    });
}

#[test]
fn dedupe_keys_are_scoped_to_their_conversation() {
    each_backend(|host, backend| {
        for conversation in ["conversation-a", "conversation-b"] {
            let outcome = backend.append_inbox_item(host.item(conversation, "shared-key", 10));
            assert!(!outcome.deduplicated);
        }
        for conversation in ["conversation-a", "conversation-b"] {
            assert_eq!(backend.list_pending(conversation).len(), 1);
        }
    });
}

#[test]
fn pending_items_come_back_oldest_first() {
    each_backend(|host, backend| {
        // Appended newest-first, and with a tie, so ordering cannot come from
        // append order alone nor from the timestamp alone.
        let late = host.item("conversation", "late", 300);
        let tie_first = host.item("conversation", "tie-first", 100);
        let tie_second = host.item("conversation", "tie-second", 100);
        for pending in [&late, &tie_first, &tie_second] {
            backend.append_inbox_item(pending.clone());
        }

        let pending = backend.list_pending("conversation");
        let keys: Vec<&str> = pending.iter().map(|item| item.dedupe_key.as_str()).collect();
        assert_eq!(keys, vec!["tie-first", "tie-second", "late"]);
    });
}

#[test]
fn items_of_one_millisecond_come_back_in_append_order() {
    each_backend(|host, backend| {
        let a = host.item("conversation", "a", 100);
        let b = host.item("conversation", "b", 100);
        assert!(a.item_id.bits < b.item_id.bits);
        backend.append_inbox_item(b.clone());
        backend.append_inbox_item(a.clone());
        let ids: Vec<ItemId> =
            backend.list_pending("conversation").iter().map(|item| item.item_id).collect();
        assert_eq!(ids, vec![b.item_id, a.item_id]);
    });
}

#[test]
fn a_second_append_of_a_stored_item_changes_nothing() {
    each_backend(|host, backend| {
        let it = host.item("conversation", "it", 100);
        assert!(!backend.append_inbox_item(it.clone()).deduplicated);
        let again = AppendOutcome { item_id: it.item_id, deduplicated: true };
        assert_eq!(backend.append_inbox_item(it.clone()), again);
        let pending = backend.list_pending("conversation");
        assert_eq!(pending.len(), 1);
        assert_eq!(pending[0].item_id, it.item_id);

        // Nor once the item was drained and acknowledged.
        assert_eq!(backend.mark_drained(&[it.item_id], "turn-1"), vec![it.item_id]);
        assert_eq!(backend.append_inbox_item(it.clone()), again);
        assert!(backend.list_pending("conversation").is_empty());
        assert_eq!(backend.mark_acknowledged(&[it.item_id]), vec![it.item_id]);
        assert_eq!(backend.append_inbox_item(it.clone()), again);
        assert!(backend.list_pending("conversation").is_empty());
        assert!(backend.mark_acknowledged(&[it.item_id]).is_empty());
    });
}

#[test]
fn drained_items_leave_pending_and_transition_once() {
    each_backend(|host, backend| {
        let first = host.item("conversation", "first", 10);
        let second = host.item("conversation", "second", 20);
        let held = host.item("conversation", "held", 30);
        for pending in [&first, &second, &held] {
            backend.append_inbox_item(pending.clone());
        }

        let drained = backend.mark_drained(&[first.item_id, second.item_id], "turn-1");
        assert_eq!(drained, vec![first.item_id, second.item_id]);

        let pending = backend.list_pending("conversation");
        assert_eq!(pending.len(), 1);
        assert_eq!(pending[0].item_id, held.item_id);

        // Replaying the drain — the same turn re-opened after a crash — must
        // not hand the same items to a second turn.
        let replayed = backend.mark_drained(&[first.item_id, second.item_id], "turn-2");
        assert!(replayed.is_empty());
        assert_eq!(backend.list_pending("conversation").len(), 1);
    });
}

#[test]
fn acknowledged_requires_drained_and_transitions_once() {
    each_backend(|host, backend| {
        let drained_item = host.item("conversation", "drained", 10);
        let pending_item = host.item("conversation", "pending", 20);
        for pending in [&drained_item, &pending_item] {
            backend.append_inbox_item(pending.clone());
        }
        backend.mark_drained(&[drained_item.item_id], "turn-1");

        // A pending item was never handed to a turn, so it has no commit to
        // acknowledge and is left where it is.
        let acknowledged =
            backend.mark_acknowledged(&[drained_item.item_id, pending_item.item_id]);
        assert_eq!(acknowledged, vec![drained_item.item_id]);
        assert_eq!(backend.list_pending("conversation").len(), 1);

        assert!(backend.mark_acknowledged(&[drained_item.item_id]).is_empty());
    });
}

#[test]
fn dispatch_lease_is_exclusive_until_released() {
    each_backend(|_, backend| {
        let held = backend
            .acquire_dispatch_lease("conversation")
            .expect("lease should be granted");
        assert!(backend.acquire_dispatch_lease("conversation").is_none());
        // Another conversation is a separate resource entirely.
        assert!(backend.acquire_dispatch_lease("other-conversation").is_some());

        assert!(backend.renew_dispatch_lease(&held));
        assert!(backend.release_dispatch_lease(&held));
        assert!(backend.acquire_dispatch_lease("conversation").is_some());
    });
}

#[test]
fn a_stale_lease_can_neither_renew_nor_release() {
    each_backend(|_, backend| {
        let stale = backend
            .acquire_dispatch_lease("conversation")
            .expect("lease should be granted");
        backend.release_dispatch_lease(&stale);
        let live = backend
            .acquire_dispatch_lease("conversation")
            .expect("lease should be granted again");
        assert_ne!(stale.token, live.token);

        // The fencing token: the previous acquisition cannot renew the live
        // lease back to life, nor release someone else's.
        assert!(!backend.renew_dispatch_lease(&stale));
        assert!(!backend.release_dispatch_lease(&stale));
        assert!(backend.renew_dispatch_lease(&live));
    });
}

#[test]
fn append_dedupes_across_two_instances_over_one_directory() {
    let host = Rc::new(Host::default());
    let dir = Directory::default();
    let first_process = Files::new(&host, &dir);
    let second_process = Files::new(&host, &dir);

    let original = host.item(CONVERSATION, "task-1:1000", 10);
    let outcome = first_process.append_inbox_item(original.clone());
    assert!(!outcome.deduplicated);

    // The other process redelivers the same fact with a fresh item id; the
    // dedupe file on disk is the shared truth.
    let redelivered = host.item(CONVERSATION, "task-1:1000", 20);
    let outcome = second_process.append_inbox_item(redelivered);
    assert!(outcome.deduplicated);
    assert_eq!(outcome.item_id, original.item_id);

    let pending = second_process.list_pending(CONVERSATION);
    assert_eq!(pending.len(), 1);
    assert_eq!(pending[0].item_id, original.item_id);
}

#[test]
fn a_lease_held_by_one_instance_blocks_another() {
    let host = Rc::new(Host::default());
    let dir = Directory::default();
    let first_process = Files::new(&host, &dir);
    let second_process = Files::new(&host, &dir);

    let lease = first_process
        .acquire_dispatch_lease(CONVERSATION)
        .expect("lease should be granted");
    assert!(second_process.acquire_dispatch_lease(CONVERSATION).is_none());

    assert!(first_process.release_dispatch_lease(&lease));
    assert!(second_process.acquire_dispatch_lease(CONVERSATION).is_some());
}

fn write_expired_lease(files: &Files) {
    files.host.now_ms.set(T0);
    files.directory.borrow_mut().insert(
        files.lease_path(CONVERSATION),
        File::Lease(LeaseRecord {
            conversation_id: CONVERSATION.to_string(),
            token: files.host.mint().to_text(),
            holder_pid: 0,
            expires_at_ms: 1,
        }),
    );
}

#[test]
fn an_expired_lease_is_taken_over_and_drained_items_re_pend() {
    let host = Rc::new(Host::default());
    let dir = Directory::default();
    let dead_process = Files::new(&host, &dir);
    let successor = Files::new(&host, &dir);

    let committed = host.item(CONVERSATION, "committed", 10);
    let in_flight = host.item(CONVERSATION, "in-flight", 20);
    for pending in [&committed, &in_flight] {
        dead_process.append_inbox_item(pending.clone());
    }
    dead_process.mark_drained(&[committed.item_id, in_flight.item_id], "turn-1");
    dead_process.mark_acknowledged(&[committed.item_id]);

    // The holder died mid-turn: its lease sits on disk, expired.
    write_expired_lease(&dead_process);

    let lease = successor
        .acquire_dispatch_lease(CONVERSATION)
        .expect("expired lease should be taken over");
    assert!(successor.renew_dispatch_lease(&lease));

    // The drained-but-unacknowledged item came back; the acknowledged one is
    // committed history and stays put.
    let pending = successor.list_pending(CONVERSATION);
    assert_eq!(pending.len(), 1);
    assert_eq!(pending[0].item_id, in_flight.item_id);
}

#[test]
fn a_fresh_acquire_re_pends_items_a_previous_holder_left_drained() {
    let host = Rc::new(Host::default());
    let backend = Files::new(&host, &Directory::default());

    let orphan = host.item(CONVERSATION, "orphan", 10);
    backend.append_inbox_item(orphan.clone());
    let lease = backend
        .acquire_dispatch_lease(CONVERSATION)
        .expect("lease should be granted");
    backend.mark_drained(&[orphan.item_id], "turn-1");
    // Released without acknowledging — the turn never committed.
    backend.release_dispatch_lease(&lease);

    backend
        .acquire_dispatch_lease(CONVERSATION)
        .expect("lease should be granted again");
    let pending = backend.list_pending(CONVERSATION);
    assert_eq!(pending.len(), 1);
    assert_eq!(pending[0].item_id, orphan.item_id);
}

/// Race four takeovers of one expired lease, the next operation going to the
/// racer the schedule names; the winners, and the files.
fn race(schedule: fn(usize) -> usize) -> (Vec<DispatchLease>, Files) {
    let host = Rc::new(Host::default());
    let files = Files::new(&host, &Directory::default());
    write_expired_lease(&files);
    let mut racers: Vec<Acquisition> = (0..4).map(|_| Acquisition::new(CONVERSATION)).collect();
    for turn in 0..400 {
        racers[schedule(turn) % 4].step(&files);
    }
    assert!(racers.iter().all(|racer| racer.ended()));
    (racers.into_iter().filter_map(|racer| racer.lease()).collect(), files)
}

// Every process saw the same expired lease; at most one may end up holding.
// The steal-then-restore in acquire is what this pins: without it a slow
// loser renames away the winner's fresh lease and a second dispatcher runs.
#[test]
fn racing_takeovers_of_one_expired_lease_grant_at_most_one_winner() {
    let schedules: [fn(usize) -> usize; 8] = [
        |turn| turn,
        |turn| turn / 2,
        |turn| turn / 3,
        |turn| turn / 4,
        |turn| turn / 20,
        |turn| turn / 100,
        |turn| 3 - turn / 100,
        |turn| 3 - turn % 4,
    ];
    for schedule in schedules {
        let (winners, survivor) = race(schedule);
        assert_eq!(winners.len(), 1, "exactly one racer may take the lease");
        // The survivor's token is the one on disk: its renew must succeed.
        assert!(survivor.renew_dispatch_lease(&winners[0]));
    }
}

// A slow loser renames away the winner's fresh lease, and puts it back.
#[test]
fn a_fresh_lease_that_was_renamed_away_is_put_back() {
    let host = Rc::new(Host::default());
    let files = Files::new(&host, &Directory::default());
    write_expired_lease(&files);
    let mut slow = Acquisition::new(CONVERSATION);
    while !matches!(slow.effect, AcquireEffect::RenameAway) {
        slow.step(&files);
    }
    let winner = files
        .acquire_dispatch_lease(CONVERSATION)
        .expect("expired lease should be taken over");
    slow.step(&files);
    assert!(files.lease(&files.lease_path(CONVERSATION)).is_none());
    while !slow.ended() {
        slow.step(&files);
    }
    assert!(slow.lease().is_none());
    assert!(files.renew_dispatch_lease(&winner));
}

// What is left open: a third racer that creates its lease before a slow loser
// puts the winner's back.
#[test]
fn a_racer_that_overtakes_a_withheld_lease_wins_too() {
    let host = Rc::new(Host::default());
    let files = Files::new(&host, &Directory::default());
    write_expired_lease(&files);
    let mut slow = Acquisition::new(CONVERSATION);
    while !matches!(slow.effect, AcquireEffect::RenameAway) {
        slow.step(&files);
    }
    let winner = files.acquire_dispatch_lease(CONVERSATION).expect("taken over");
    slow.step(&files);
    let third = files.acquire_dispatch_lease(CONVERSATION).expect("nothing is stored");
    while !slow.ended() {
        slow.step(&files);
    }
    assert!(slow.lease().is_none());
    // The later lease is the stored one, and the earlier is fenced off.
    assert!(files.renew_dispatch_lease(&third));
    assert!(!files.renew_dispatch_lease(&winner));
}

#[test]
fn an_append_leaves_other_items_alone() {
    each_backend(|host, backend| {
        let kept = host.item(CONVERSATION, "kept", 10);
        backend.append_inbox_item(kept.clone());
        backend.mark_drained(&[kept.item_id], "turn-1");
        let other = host.item(CONVERSATION, "other", 20);
        backend.append_inbox_item(other.clone());
        backend.append_inbox_item(host.item(CONVERSATION, "kept", 30));
        let pending = backend.list_pending(CONVERSATION);
        assert_eq!(pending.len(), 1);
        assert_eq!(pending[0].item_id, other.item_id);
        assert_eq!(backend.mark_acknowledged(&[kept.item_id]), vec![kept.item_id]);
    });
}

#[test]
fn a_lease_expires_strictly_after_its_deadline() {
    let record = LeaseRecord {
        conversation_id: CONVERSATION.to_string(),
        token: "token".to_string(),
        holder_pid: 0,
        expires_at_ms: 1_000,
    };
    assert!(!lease_expired(&record, 999));
    assert!(!lease_expired(&record, 1_000));
    assert!(lease_expired(&record, 1_001));
}

#[test]
fn a_lease_lives_a_minute_past_its_last_renewal() {
    let host = Rc::new(Host::default());
    let files = Files::new(&host, &Directory::default());
    host.now_ms.set(T0);
    let lease = files.acquire_dispatch_lease(CONVERSATION).expect("granted");
    let stored = files.lease(&files.lease_path(CONVERSATION)).expect("stored");
    assert_eq!(stored.expires_at_ms, T0 + LEASE_TTL_MS);
    host.now_ms.set(T0 + 5);
    assert!(files.renew_dispatch_lease(&lease));
    let stored = files.lease(&files.lease_path(CONVERSATION)).expect("stored");
    assert_eq!(stored.expires_at_ms, T0 + 60_005);
}

#[test]
fn records_are_kept_under_names_of_their_own() {
    let layout = FileAttentionBackend::new("attention".to_string());
    let id = Uuid7 { bits: 0x0189_0a5d_ac96_774b_bcce_b302_099a_8057 };
    assert_eq!(layout.dir(), "attention");
    assert_eq!(layout.items_dir("c"), vec!["c", "items"]);
    assert_eq!(
        layout.item_path("c", id),
        vec!["c", "items", "01890a5d-ac96-774b-bcce-b302099a8057.json"]
    );
    assert_eq!(layout.dedupe_path("c", "a"), vec!["c", "dedupe", "af63dc4c8601ec8c.json"]);
    assert_eq!(layout.lease_path("c"), vec!["c", "lease.json"]);
    assert_eq!(fnv16hex(""), "cbf29ce484222325");
    assert_eq!(fnv16hex("a"), "af63dc4c8601ec8c");
    assert_eq!(fnv16hex("foobar"), "85944171f73967e8");
}

#[test]
fn a_key_that_shares_a_hash_with_another_is_refused() {
    let host = Rc::new(Host::default());
    let files = Files::new(&host, &Directory::default());
    let item = host.item(CONVERSATION, "key", 10);
    let claim_path = files.path(files.layout.dedupe_path(CONVERSATION, "key"));
    files.directory.borrow_mut().insert(
        claim_path,
        File::Claim(DedupeRecord { dedupe_key: "other".to_string(), item_id: host.mint() }),
    );
    match files.append(item) {
        Err(AppendError::Collision { existing }) => assert_eq!(existing, "other"),
        other => panic!("a collision is refused: {other:?}"),
    }
}

/// An append of item 1 under `key`, which is free, as far as its item's file.
fn append_to_its_file(highest: Option<u64>) -> (AppendRun, AppendEffect) {
    let mut run = AppendRun::start(Uuid7 { bits: 1 }, "key".to_string());
    assert!(matches!(run.advance(AppendEvent::Prepared), AppendEffect::ReadClaim));
    assert!(matches!(run.advance(AppendEvent::Read { claim: None }), AppendEffect::Survey));
    let effect = run.advance(AppendEvent::Surveyed { highest });
    (run, effect)
}

fn claim_by(bits: u128) -> AppendEvent {
    AppendEvent::Read {
        claim: Some(DedupeRecord { dedupe_key: "key".to_string(), item_id: Uuid7 { bits } }),
    }
}

fn outcome_of(effect: AppendEffect) -> AppendOutcome {
    match effect {
        AppendEffect::Finish { result: Ok(outcome) } => outcome,
        other => panic!("the append is over: {other:?}"),
    }
}

#[test]
fn an_id_in_use_by_another_fact_goes_to_the_new_item() {
    let host = Rc::new(Host::default());
    let files = Files::new(&host, &Directory::default());
    let old = host.item(CONVERSATION, "old", 10);
    let mut new = host.item(CONVERSATION, "new", 20);
    new.item_id = old.item_id;
    files.append(old.clone()).expect("append");
    files.mark_drained(&[old.item_id], "turn-1");

    let outcome = files.append(new.clone()).expect("append");
    assert_eq!(outcome, AppendOutcome { item_id: new.item_id, deduplicated: false });
    let pending = files.list_pending(CONVERSATION);
    assert_eq!(pending.len(), 1);
    assert_eq!(pending[0].dedupe_key, "new");

    // Both facts are known by now, and a redelivery of either changes nothing.
    for again in [old, new] {
        assert!(files.append(again).expect("append").deduplicated);
        assert_eq!(files.list_pending(CONVERSATION)[0].dedupe_key, "new");
    }
}

#[test]
fn an_item_whose_claim_is_missing_is_claimed_as_it_is() {
    let host = Rc::new(Host::default());
    let files = Files::new(&host, &Directory::default());
    let item = host.item(CONVERSATION, "key", 10);
    files.append(item.clone()).expect("append");
    files.mark_drained(&[item.item_id], "turn-1");
    let claim_path = files.path(files.layout.dedupe_path(CONVERSATION, "key"));
    files.directory.borrow_mut().remove(&claim_path);

    assert!(!files.append(item.clone()).expect("append").deduplicated);
    assert!(files.list_pending(CONVERSATION).is_empty());
    assert!(files.append(item).expect("append").deduplicated);
}

#[test]
fn an_append_that_loses_its_key_takes_back_what_it_wrote() {
    // The file is new: it is removed again.
    let (mut run, effect) = append_to_its_file(Some(4));
    assert!(matches!(effect, AppendEffect::CreateItem { position: 5 }));
    run.advance(AppendEvent::Created { created: true });
    run.advance(AppendEvent::Claimed { created: false });
    assert!(matches!(run.advance(claim_by(2)), AppendEffect::RemoveItem));
    let outcome = outcome_of(run.advance(AppendEvent::Removed));
    assert_eq!(outcome, AppendOutcome { item_id: Uuid7 { bits: 2 }, deduplicated: true });

    // The file is new, but another append of the item claimed the key for it.
    let (mut run, _) = append_to_its_file(Some(4));
    run.advance(AppendEvent::Created { created: true });
    run.advance(AppendEvent::Claimed { created: false });
    let outcome = outcome_of(run.advance(claim_by(1)));
    assert_eq!(outcome, AppendOutcome { item_id: Uuid7 { bits: 1 }, deduplicated: true });

    // The item was there: it stays.
    let host = Host::default();
    let mut stored = StoredItemRecord {
        item: host.item(CONVERSATION, "key", 10),
        status: InboxItemStatus::Pending,
        position: 4,
    };
    let (mut run, _) = append_to_its_file(Some(4));
    let effect = run.advance(AppendEvent::Created { created: false });
    assert!(matches!(effect, AppendEffect::LoadItem));
    let effect = run.advance(AppendEvent::Loaded { record: Some(copy_stored(&stored)) });
    assert!(matches!(effect, AppendEffect::ClaimKey));
    run.advance(AppendEvent::Claimed { created: false });
    assert!(outcome_of(run.advance(claim_by(2))).deduplicated);

    // Another item was there: it is put back.
    stored.item.dedupe_key = "other".to_string();
    let (mut run, _) = append_to_its_file(Some(4));
    run.advance(AppendEvent::Created { created: false });
    let effect = run.advance(AppendEvent::Loaded { record: Some(copy_stored(&stored)) });
    assert!(matches!(effect, AppendEffect::WriteItem { position: 5 }));
    assert!(matches!(run.advance(AppendEvent::Written), AppendEffect::ClaimKey));
    run.advance(AppendEvent::Claimed { created: false });
    assert!(matches!(
        run.advance(claim_by(2)),
        AppendEffect::RestoreItem { record } if record.item.dedupe_key == "other"
    ));
    assert!(outcome_of(run.advance(AppendEvent::Written)).deduplicated);
}

#[test]
fn positions_are_not_counted_past_the_last() {
    let (_, effect) = append_to_its_file(Some(u64::MAX));
    assert!(matches!(effect, AppendEffect::CreateItem { position: u64::MAX }));
    let (_, effect) = append_to_its_file(None);
    assert!(matches!(effect, AppendEffect::CreateItem { position: 0 }));
}

#[test]
fn a_claim_that_vanishes_is_an_error() {
    let (mut run, _) = append_to_its_file(None);
    run.advance(AppendEvent::Created { created: true });
    let effect = run.advance(AppendEvent::Claimed { created: false });
    assert!(matches!(effect, AppendEffect::ReadClaim));
    let effect = run.advance(AppendEvent::Read { claim: None });
    assert!(matches!(
        effect,
        AppendEffect::Finish { result: Err(AppendError::ClaimVanished) }
    ));
}

#[test]
fn ids_are_read_back_from_their_text() {
    for bits in [0, 1, 0x0190_1234_5678_7abc_8def_0123_4567_89ab, u128::MAX] {
        let id = Uuid7 { bits };
        assert_eq!(Uuid7::from_text(&id.to_text()), Some(id));
        assert_eq!(Uuid7::from_text(&id.to_text().to_uppercase()), Some(id));
    }
    assert_eq!(
        Uuid7::from_text("01901234-5678-7abc-8def-0123456789ab"),
        Some(Uuid7 { bits: 0x0190_1234_5678_7abc_8def_0123_4567_89ab })
    );
    for text in [
        "",
        "01901234-5678-7abc-8def-0123456789a",
        "01901234-5678-7abc-8def-0123456789abc",
        "019012345-678-7abc-8def-0123456789ab",
        "01901234-5678-7abc-8def-0123456789ag",
        "0190123456787abc8def0123456789ab0000",
    ] {
        assert_eq!(Uuid7::from_text(text), None);
    }
}

#[test]
fn one_item_composes_to_exactly_its_prompt() {
    let host = Host::default();
    let single = host.item(CONVERSATION, "single", 10);
    assert_eq!(compose_drained_prompt(std::slice::from_ref(&single)), single.prompt);
}

#[test]
fn coalesced_items_compose_joined_in_drain_order() {
    let host = Host::default();
    let first = host.item(CONVERSATION, "first", 10);
    let second = host.item(CONVERSATION, "second", 20);
    assert_eq!(
        compose_drained_prompt(&[first, second]),
        "prompt for first\n\n---\n\nprompt for second"
    );
}

/// Run one dispatch pass over a conversation, with a turn that is told the
/// items; how it ended.
fn run_dispatch(
    backend: &dyn Backend,
    open_turn: &mut dyn FnMut(Vec<InboxItem>) -> Result<(), String>,
) -> Result<PassEnd, String> {
    let mut pass = DispatchPass::start();
    let mut lease: Option<DispatchLease> = None;
    let mut error = String::new();
    let mut effect = PassEffect::Acquire;
    loop {
        let event = match effect {
            PassEffect::Acquire => {
                lease = backend.acquire_dispatch_lease(CONVERSATION);
                PassEvent::Acquired { granted: lease.is_some() }
            }
            PassEffect::List => PassEvent::Listed {
                pending: backend.list_pending(CONVERSATION),
                now_ms: T0,
            },
            PassEffect::MarkDrained { ids } => PassEvent::Drained {
                moved: backend.mark_drained(&ids, "turn"),
            },
            PassEffect::OpenTurn { items } => match open_turn(items) {
                Ok(()) => PassEvent::Turned,
                Err(reason) => {
                    error = reason;
                    PassEvent::Failed
                }
            },
            PassEffect::Acknowledge { ids } => {
                backend.mark_acknowledged(&ids);
                PassEvent::Acknowledged
            }
            PassEffect::Sleep { .. } => PassEvent::Slept,
            PassEffect::Renew => PassEvent::Renewed {
                held: backend.renew_dispatch_lease(lease.as_ref().expect("a lease is held")),
            },
            PassEffect::Release => {
                backend.release_dispatch_lease(lease.as_ref().expect("a lease is held"));
                PassEvent::Released
            }
            PassEffect::Relist => PassEvent::Relisted {
                empty: backend.list_pending(CONVERSATION).is_empty(),
            },
            PassEffect::Finish { end } => {
                return match end {
                    PassEnd::FailedUnderLease | PassEnd::Failed => Err(error),
                    end => Ok(end),
                };
            }
        };
        effect = pass.advance(event);
    }
}

#[test]
fn two_appends_drain_into_one_turn() {
    let host = Rc::new(Host::default());
    let backend = InMemory::new(&host);
    backend.append_inbox_item(host.item(CONVERSATION, "fire", 10));
    backend.append_inbox_item(host.item(CONVERSATION, "message", 20));

    let mut turns = Vec::<String>::new();
    let mut open_turn = |items: Vec<InboxItem>| {
        turns.push(compose_drained_prompt(&items));
        Ok(())
    };
    run_dispatch(&backend, &mut open_turn).unwrap();

    assert_eq!(turns, vec!["prompt for fire\n\n---\n\nprompt for message".to_string()]);
    assert!(backend.list_pending(CONVERSATION).is_empty());
}

#[test]
fn a_redelivered_append_dedupes_into_one_turn_with_one_item() {
    let host = Rc::new(Host::default());
    let backend = InMemory::new(&host);
    backend.append_inbox_item(host.item(CONVERSATION, "task-1:1000", 10));
    let redelivered = backend.append_inbox_item(host.item(CONVERSATION, "task-1:1000", 20));
    assert!(redelivered.deduplicated);

    let mut turns = Vec::<usize>::new();
    let mut open_turn = |items: Vec<InboxItem>| {
        turns.push(items.len());
        Ok(())
    };
    run_dispatch(&backend, &mut open_turn).unwrap();
    assert_eq!(turns, vec![1]);
}

#[test]
fn a_held_lease_blocks_the_pass_and_leaves_the_item_pending() {
    let host = Rc::new(Host::default());
    let backend = InMemory::new(&host);
    backend.append_inbox_item(host.item(CONVERSATION, "wake", 10));
    let other_dispatcher = backend
        .acquire_dispatch_lease(CONVERSATION)
        .expect("lease should be granted");

    let turns = Cell::new(0usize);
    let mut open_turn = |_items: Vec<InboxItem>| {
        turns.set(turns.get() + 1);
        Ok(())
    };
    let end = run_dispatch(&backend, &mut open_turn).unwrap();
    assert!(matches!(end, PassEnd::HeldElsewhere));
    // No turn opened, and the item is left pending for the lease holder.
    assert_eq!(turns.get(), 0);
    assert_eq!(backend.list_pending(CONVERSATION).len(), 1);

    backend.release_dispatch_lease(&other_dispatcher);
    run_dispatch(&backend, &mut open_turn).unwrap();
    assert_eq!(turns.get(), 1);
}

#[test]
fn a_send_that_dies_before_acknowledging_is_redelivered_on_the_next_acquire() {
    // The file backend, because re-pending drained items on acquire is its
    // crash-recovery move; the in-memory backend dies with the process it
    // would recover.
    let host = Rc::new(Host::default());
    let backend = Files::new(&host, &Directory::default());
    backend.append_inbox_item(host.item(CONVERSATION, "wake", 10));

    let mut failing_turn = |_items: Vec<InboxItem>| Err("model exploded".to_string());
    let error =
        run_dispatch(&backend, &mut failing_turn).expect_err("the failed send must surface");
    assert!(error.contains("model exploded"));
    // Drained but never acknowledged: invisible to list_pending until a new
    // acquire re-pends it.
    assert!(backend.list_pending(CONVERSATION).is_empty());

    let mut turns = Vec::<String>::new();
    let mut open_turn = |items: Vec<InboxItem>| {
        turns.push(compose_drained_prompt(&items));
        Ok(())
    };
    run_dispatch(&backend, &mut open_turn).unwrap();
    assert_eq!(turns, vec!["prompt for wake".to_string()]);
    assert!(backend.list_pending(CONVERSATION).is_empty());
}

fn fire(task_id: &str, task_name: &str, slot_ms: u64, prompt: &str) -> ScheduledFireRecord {
    ScheduledFireRecord {
        task_id: task_id.to_string(),
        task_name: task_name.to_string(),
        slot_ms,
        run_id: format!("run-{slot_ms}"),
        agent_id: "agent-1".to_string(),
        conversation_id: CONVERSATION.to_string(),
        prompt: prompt.to_string(),
        fired_at_ms: slot_ms + 12,
    }
}

fn adapter() -> AdapterRecord {
    AdapterRecord {
        id: "adapter-1".to_string(),
        agent_id: "agent-1".to_string(),
        conversation_id: CONVERSATION.to_string(),
        name: "chat".to_string(),
        enabled: true,
        config: AdapterConfig {
            adapter_type: "exochat".to_string(),
            worker_command: vec!["node".to_string(), "worker.js".to_string()],
            initialization: Value::Null,
            state_dir: None,
            secret_env: Vec::new(),
        },
    }
}

fn inbound<'a>(
    message_id: &'a str,
    text: &'a str,
    metadata: &'a Value,
) -> AdapterInboundMessage<'a> {
    AdapterInboundMessage {
        target: "#room",
        sender: Some("ad"),
        message_id,
        text,
        metadata,
        attachments: &[],
    }
}

/// The runtime half of the loop: renew the lease, read what is pending, ask
/// what to do, and do it.
fn dispatch_once(
    backend: &dyn Backend,
    lease: &DispatchLease,
    now_ms: u64,
    open_turn: &mut dyn FnMut(&[InboxItem]) -> String,
) -> Action {
    assert!(
        backend.renew_dispatch_lease(lease),
        "the dispatcher must still hold its lease to decide"
    );
    let pending = backend.list_pending(&lease.conversation_id);
    let action = decide(ConversationState::Quiescent, &pending, now_ms);
    let drain = match &action {
        Action::OpenTurn { drain } | Action::FlushBatch { drain } => drain.clone(),
        Action::OfferInterrupt { .. } | Action::Wait { .. } | Action::Nothing => return action,
    };
    let drained: Vec<InboxItem> = drain
        .iter()
        .map(|item_id| {
            pending
                .iter()
                .find(|item| item.item_id == *item_id)
                .expect("drained items come from the pending list")
                .clone()
        })
        .collect();
    let turn_ref = open_turn(&drained);
    backend.mark_drained(&drain, &turn_ref);
    backend.mark_acknowledged(&drain);
    action
}

#[test]
fn the_dispatcher_coalesces_two_producers_holds_a_batch_item_and_flushes_it_on_its_bound() {
    let host = Rc::new(Host::default());
    let backend = InMemory::new(&host);
    let adapter = adapter();
    let metadata = Value::Null;
    let health_check = fire("task-health", "health check", T0, "health check output");

    // A scheduled fire and a human message arrive while the conversation is
    // quiescent, five milliseconds apart.
    let fire_item = inbox_item_from_fire(&health_check, Attention::Wake, T0, host.mint());
    assert!(!backend.append_inbox_item(fire_item.clone()).deduplicated);

    let message_item = inbox_item_from_adapter_message(
        &adapter,
        inbound("platform-42", "are we up?", &metadata),
        Attention::Wake,
        T0 + 5,
        host.mint(),
    );
    assert!(!backend.append_inbox_item(message_item.clone()).deduplicated);

    // The scheduler restarts and redelivers the same fire. Same task, same
    // slot, same dedupe key — it must collapse onto the item already pending
    // even though it arrives with a fresh item id.
    let redelivered = inbox_item_from_fire(&health_check, Attention::Wake, T0 + 7, host.mint());
    assert_ne!(redelivered.item_id, fire_item.item_id);
    let redelivered_append = backend.append_inbox_item(redelivered);
    assert!(redelivered_append.deduplicated);
    assert_eq!(redelivered_append.item_id, fire_item.item_id);

    let lease = backend
        .acquire_dispatch_lease(CONVERSATION)
        .expect("lease should be granted");
    // A second process reaching for the same conversation gets nothing, which
    // is the whole point of the lease: one dispatcher deciding at a time.
    assert!(backend.acquire_dispatch_lease(CONVERSATION).is_none());

    let mut turns: Vec<Vec<String>> = Vec::new();
    let mut open_turn = |items: &[InboxItem]| {
        turns.push(items.iter().map(|item| item.prompt.clone()).collect());
        format!("turn-{}", turns.len())
    };

    // One turn, both items, oldest first: coalescing is draining.
    let opened = dispatch_once(&backend, &lease, T0 + 10, &mut open_turn);
    assert_eq!(
        opened,
        Action::OpenTurn { drain: vec![fire_item.item_id, message_item.item_id] }
    );
    assert!(backend.list_pending(CONVERSATION).is_empty());

    // Redelivery after the drain is still one item: the dedupe key outlives
    // the drain, so a restarted scheduler cannot replay a turn.
    let late_redelivery =
        inbox_item_from_fire(&health_check, Attention::Wake, T0 + 20, host.mint());
    assert!(backend.append_inbox_item(late_redelivery).deduplicated);
    assert!(backend.list_pending(CONVERSATION).is_empty());

    // A background scrape maps to Batch: held for coalescing, bounded by the
    // wait it declares.
    let scrape = fire("task-scrape", "background scrape", T0 + 30, "scrape output");
    let scrape_item = inbox_item_from_fire(
        &scrape,
        Attention::Batch { max_wait_ms: BATCH_MAX_WAIT_MS },
        T0 + 30,
        host.mint(),
    );
    backend.append_inbox_item(scrape_item.clone());

    let held = dispatch_once(&backend, &lease, T0 + 40, &mut open_turn);
    assert_eq!(held, Action::Wait { until_ms: T0 + 30 + BATCH_MAX_WAIT_MS });
    assert_eq!(backend.list_pending(CONVERSATION).len(), 1);

    // At its bound it flushes on its own, with no second producer needed to
    // carry it: that is the starvation guarantee.
    let flushed = dispatch_once(&backend, &lease, T0 + 30 + BATCH_MAX_WAIT_MS, &mut open_turn);
    assert_eq!(flushed, Action::FlushBatch { drain: vec![scrape_item.item_id] });

    let idle = dispatch_once(&backend, &lease, T0 + 200_000, &mut open_turn);
    assert_eq!(idle, Action::Nothing);

    // Two turns for four appends, and the fire and the message shared the
    // first one.
    assert_eq!(
        turns,
        vec![
            vec!["health check output".to_string(), "are we up?".to_string()],
            vec!["scrape output".to_string()],
        ]
    );

    // The lease is given up only by its holder, and the next dispatcher can
    // then take it.
    assert!(backend.release_dispatch_lease(&lease));
    assert!(backend.acquire_dispatch_lease(CONVERSATION).is_some());
}

#[test]
fn a_fire_carries_its_slot_identity_and_its_task_context() {
    let record = fire("task-health", "health check", 1_000, "health check output");
    let item = inbox_item_from_fire(&record, Attention::Wake, T0, Uuid7 { bits: 1 });

    assert_eq!(item.conversation_id, "conversation-1");
    assert_eq!(item.producer.kind, ProducerKind::Scheduler);
    assert_eq!(item.producer.id, "task-health");
    assert_eq!(item.dedupe_key, "task-health:1000");
    assert_eq!(item.prompt, "health check output");
    // The append time is the parameter, not the fire time: a fire redelivered
    // after a crash reaches the inbox long after it fired, and drain order is
    // append order.
    assert_eq!(item.appended_at_ms, T0);

    match item.native {
        NativeContext::Scheduler(native) => {
            assert_eq!(native.slot_ms, 1_000);
            assert_eq!(native.fired_at_ms, 1_012);
            assert_eq!(native.run_id, "run-1000");
        }
        other => panic!("a fire's context is the scheduler's: {other:?}"),
    }
}

#[test]
fn two_slots_of_one_task_are_two_occurrences() {
    // The failure this key shape exists to prevent: a key scoped to the task
    // alone would collapse every fire of a recurring task into one item and
    // silently drop the work.
    let slot = |slot_ms| fire("task-health", "health check", slot_ms, "health check output");
    let first = inbox_item_from_fire(&slot(1_000), Attention::Wake, T0, Uuid7 { bits: 1 });
    let second = inbox_item_from_fire(&slot(2_000), Attention::Wake, T0, Uuid7 { bits: 2 });
    assert_ne!(first.dedupe_key, second.dedupe_key);
}

#[test]
fn an_adapter_message_is_keyed_on_its_platform_id_within_its_adapter_and_target() {
    let adapter = adapter();
    let mut thread = serde_json::Map::new();
    thread.insert(
        "thread_ts".to_string(),
        Value::String("1699999999.000100".to_string()),
    );
    let metadata = Value::Object(thread);
    let item = inbox_item_from_adapter_message(
        &adapter,
        AdapterInboundMessage {
            target: "#room",
            sender: Some("ad"),
            message_id: "platform-42",
            text: "are we up?",
            metadata: &metadata,
            attachments: &[],
        },
        Attention::Wake,
        T0,
        Uuid7 { bits: 1 },
    );

    assert_eq!(item.conversation_id, "conversation-1");
    // A human arrives via an adapter, so the producer is the adapter.
    assert_eq!(item.producer.kind, ProducerKind::Adapter);
    assert_eq!(item.producer.id, adapter.id);
    assert_eq!(item.dedupe_key, format!("{}:#room:platform-42", adapter.id));
    assert_eq!(item.prompt, "are we up?");

    match item.native {
        NativeContext::Adapter(native) => {
            assert_eq!(native.sender.as_deref(), Some("ad"));
            assert_eq!(native.adapter_type, "exochat");
            // Platform metadata travels opaquely; nothing in the runtime reads it.
            assert_eq!(native.metadata, metadata);
        }
        other => panic!("a message's context is the adapter's: {other:?}"),
    }
}

#[test]
fn one_platform_message_id_on_two_targets_is_two_occurrences() {
    // Platform message ids are only unique within their own adapter and
    // target, which is why the key carries all three.
    let adapter = adapter();
    let metadata = Value::Null;
    let keys: Vec<String> = ["#room", "#other"]
        .into_iter()
        .map(|target| {
            inbox_item_from_adapter_message(
                &adapter,
                AdapterInboundMessage {
                    target,
                    sender: None,
                    message_id: "platform-42",
                    text: "hello",
                    metadata: &metadata,
                    attachments: &[],
                },
                Attention::Wake,
                T0,
                Uuid7 { bits: 1 },
            )
            .dedupe_key
        })
        .collect();
    assert_ne!(keys[0], keys[1]);
    assert_eq!(adapter_dedupe_key("a", "b", "c"), "a:b:c");
    assert_eq!(fire_dedupe_key("task", 0), "task:0");
    // A colon inside a part is no separator.
    assert_eq!(adapter_dedupe_key("a", "b:c", "d"), "a:b%3Ac:d");
    assert_eq!(adapter_dedupe_key("a", "b", "c:d"), "a:b:c:d");
    assert_ne!(adapter_dedupe_key("a:b", "c", "d"), adapter_dedupe_key("a", "b:c", "d"));
    assert_ne!(adapter_dedupe_key("a:", "b", "c"), adapter_dedupe_key("a%3A", "b", "c"));
    assert_eq!(adapter_dedupe_key("a%3A", "b", "c"), "a%253A:b:c");
}
