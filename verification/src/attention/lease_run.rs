//! Acquiring a conversation's stored dispatch lease, one file operation at a
//! time.
//!
//! The lease is taken by creating its file exclusively. One that has run out is
//! renamed away first, and what was renamed is then looked at: a slow taker can
//! rename away the fresh lease of a faster one, which it has to put back.

use vstd::prelude::*;

use super::file_backend::{LeaseRecord, LeaseRecordView, LEASE_TTL_MS};
use super::types::{DispatchLease, LeaseView};

verus! {

/// The operation an acquisition needs next, or its end.
#[derive(Debug)]
pub enum AcquireEffect {
    /// Create the conversation's directory.
    Prepare,
    /// Mint a token and read the clock.
    Mint,
    /// Create the lease file, unless there is one.
    Create { record: LeaseRecord },
    /// Read the lease file, and the clock after it.
    Read,
    /// Rename the lease file to a tombstone of this acquisition's own.
    RenameAway,
    /// Read the tombstone.
    ReadTombstone,
    /// Link the tombstone back as the lease file, unless there is one.
    Restore,
    /// Remove the tombstone.
    RemoveTombstone,
    /// Make every drained item of the conversation pending again.
    Repend,
    /// The acquisition is over; `None` means another holder has the lease.
    Finish { lease: Option<DispatchLease> },
}

/// What came of an operation. An operation that failed outright ends the
/// acquisition with its own error and is not answered here.
#[derive(Debug)]
pub enum AcquireEvent {
    Prepared,
    Minted { token: String, holder_pid: u32, now_ms: u64 },
    /// Whether the lease file was created; false where there was one.
    Created { created: bool },
    /// The lease, or nothing where the file is gone.
    Held { record: Option<LeaseRecord>, now_ms: u64 },
    /// Whether there was a lease file to rename.
    Renamed { renamed: bool },
    /// The tombstone, or nothing where the file is gone.
    Tombstone { record: Option<LeaseRecord> },
    Restored,
    Removed,
    Repended,
}

/// Where an acquisition stands.
#[derive(Debug)]
pub enum AcquirePhase {
    Preparing,
    Minting,
    Creating { token: String },
    Reading,
    Renaming { observed: String },
    Inspecting { observed: String },
    Restoring,
    Removing,
    Repending { token: String },
    Finished,
}

/// The contents of an [`AcquireEffect`].
pub enum AcquireEffectView {
    Prepare,
    Mint,
    Create { record: LeaseRecordView },
    Read,
    RenameAway,
    ReadTombstone,
    Restore,
    RemoveTombstone,
    Repend,
    Finish { lease: Option<LeaseView> },
}

/// The contents of an [`AcquireEvent`].
pub enum AcquireEventView {
    Prepared,
    Minted { token: Seq<char>, holder_pid: u32, now_ms: u64 },
    Created { created: bool },
    Held { record: Option<LeaseRecordView>, now_ms: u64 },
    Renamed { renamed: bool },
    Tombstone { record: Option<LeaseRecordView> },
    Restored,
    Removed,
    Repended,
}

/// The contents of an [`AcquirePhase`].
pub enum AcquirePhaseView {
    Preparing,
    Minting,
    Creating { token: Seq<char> },
    Reading,
    Renaming { observed: Seq<char> },
    Inspecting { observed: Seq<char> },
    Restoring,
    Removing,
    Repending { token: Seq<char> },
    Finished,
}

impl View for AcquireEffect {
    type V = AcquireEffectView;

    open spec fn view(&self) -> AcquireEffectView {
        match *self {
            AcquireEffect::Prepare => AcquireEffectView::Prepare,
            AcquireEffect::Mint => AcquireEffectView::Mint,
            AcquireEffect::Create { record } => AcquireEffectView::Create { record: record@ },
            AcquireEffect::Read => AcquireEffectView::Read,
            AcquireEffect::RenameAway => AcquireEffectView::RenameAway,
            AcquireEffect::ReadTombstone => AcquireEffectView::ReadTombstone,
            AcquireEffect::Restore => AcquireEffectView::Restore,
            AcquireEffect::RemoveTombstone => AcquireEffectView::RemoveTombstone,
            AcquireEffect::Repend => AcquireEffectView::Repend,
            AcquireEffect::Finish { lease } => AcquireEffectView::Finish {
                lease: match lease {
                    Some(granted) => Some(granted@),
                    None => None,
                },
            },
        }
    }
}

impl View for AcquireEvent {
    type V = AcquireEventView;

    open spec fn view(&self) -> AcquireEventView {
        match *self {
            AcquireEvent::Prepared => AcquireEventView::Prepared,
            AcquireEvent::Minted { token, holder_pid, now_ms } => AcquireEventView::Minted {
                token: token@,
                holder_pid,
                now_ms,
            },
            AcquireEvent::Created { created } => AcquireEventView::Created { created },
            AcquireEvent::Held { record, now_ms } => AcquireEventView::Held {
                record: super::file_backend::stored_lease(record),
                now_ms,
            },
            AcquireEvent::Renamed { renamed } => AcquireEventView::Renamed { renamed },
            AcquireEvent::Tombstone { record } => AcquireEventView::Tombstone {
                record: super::file_backend::stored_lease(record),
            },
            AcquireEvent::Restored => AcquireEventView::Restored,
            AcquireEvent::Removed => AcquireEventView::Removed,
            AcquireEvent::Repended => AcquireEventView::Repended,
        }
    }
}

impl View for AcquirePhase {
    type V = AcquirePhaseView;

    open spec fn view(&self) -> AcquirePhaseView {
        match *self {
            AcquirePhase::Preparing => AcquirePhaseView::Preparing,
            AcquirePhase::Minting => AcquirePhaseView::Minting,
            AcquirePhase::Creating { token } => AcquirePhaseView::Creating { token: token@ },
            AcquirePhase::Reading => AcquirePhaseView::Reading,
            AcquirePhase::Renaming { observed } => AcquirePhaseView::Renaming {
                observed: observed@,
            },
            AcquirePhase::Inspecting { observed } => AcquirePhaseView::Inspecting {
                observed: observed@,
            },
            AcquirePhase::Restoring => AcquirePhaseView::Restoring,
            AcquirePhase::Removing => AcquirePhaseView::Removing,
            AcquirePhase::Repending { token } => AcquirePhaseView::Repending { token: token@ },
            AcquirePhase::Finished => AcquirePhaseView::Finished,
        }
    }
}

/// Whether an event answers what a phase is waiting for, and leaves room for
/// the lease's deadline on the clock.
pub open spec fn answers(phase: AcquirePhaseView, event: AcquireEventView) -> bool {
    match phase {
        AcquirePhaseView::Preparing => event is Prepared,
        AcquirePhaseView::Minting => event matches AcquireEventView::Minted { now_ms, .. } && now_ms
            + LEASE_TTL_MS <= u64::MAX,
        AcquirePhaseView::Creating { .. } => event is Created,
        AcquirePhaseView::Reading => event is Held,
        AcquirePhaseView::Renaming { .. } => event is Renamed,
        AcquirePhaseView::Inspecting { .. } => event is Tombstone,
        AcquirePhaseView::Restoring => event is Restored,
        AcquirePhaseView::Removing => event is Removed,
        AcquirePhaseView::Repending { .. } => event is Repended,
        AcquirePhaseView::Finished => false,
    }
}

/// Whether the tombstone is another lease than the expired one that was to be
/// renamed away.
pub open spec fn stole_a_fresh_lease(
    observed: Seq<char>,
    tombstone: Option<LeaseRecordView>,
) -> bool {
    tombstone matches Some(record) && record.token != observed
}

/// What an acquisition of a conversation's lease does with an event.
pub open spec fn next_acquire(
    conversation_id: Seq<char>,
    phase: AcquirePhaseView,
    event: AcquireEventView,
) -> (AcquirePhaseView, AcquireEffectView) {
    match (phase, event) {
        (AcquirePhaseView::Minting, AcquireEventView::Minted { token, holder_pid, now_ms }) => (
            AcquirePhaseView::Creating { token },
            AcquireEffectView::Create {
                record: LeaseRecordView {
                    conversation_id,
                    token,
                    holder_pid,
                    expires_at_ms: (now_ms + LEASE_TTL_MS) as u64,
                },
            },
        ),
        (AcquirePhaseView::Creating { token }, AcquireEventView::Created { created: true }) => (
            AcquirePhaseView::Repending { token },
            AcquireEffectView::Repend,
        ),
        (AcquirePhaseView::Creating { .. }, AcquireEventView::Created { created: false }) => (
            AcquirePhaseView::Reading,
            AcquireEffectView::Read,
        ),
        (AcquirePhaseView::Reading, AcquireEventView::Held { record: Some(record), now_ms }) => if
        super::file_backend::is_expired(record, now_ms) {
            (
                AcquirePhaseView::Renaming { observed: record.token },
                AcquireEffectView::RenameAway,
            )
        } else {
            (AcquirePhaseView::Finished, AcquireEffectView::Finish { lease: None })
        },
        (
            AcquirePhaseView::Renaming { observed },
            AcquireEventView::Renamed { renamed: true },
        ) => (AcquirePhaseView::Inspecting { observed }, AcquireEffectView::ReadTombstone),
        (
            AcquirePhaseView::Inspecting { observed },
            AcquireEventView::Tombstone { record },
        ) => if stole_a_fresh_lease(observed, record) {
            (AcquirePhaseView::Restoring, AcquireEffectView::Restore)
        } else {
            (AcquirePhaseView::Removing, AcquireEffectView::RemoveTombstone)
        },
        (AcquirePhaseView::Restoring, _) => (
            AcquirePhaseView::Removing,
            AcquireEffectView::RemoveTombstone,
        ),
        (AcquirePhaseView::Repending { token }, _) => (
            AcquirePhaseView::Finished,
            AcquireEffectView::Finish { lease: Some(LeaseView { conversation_id, token }) },
        ),
        _ => (AcquirePhaseView::Minting, AcquireEffectView::Mint),
    }
}

/// An acquisition under way.
#[derive(Debug)]
pub struct AcquireRun {
    pub conversation_id: String,
    pub phase: AcquirePhase,
}

impl AcquireRun {
    /// Starts acquiring a conversation's lease. The first operation is
    /// [`AcquireEffect::Prepare`].
    pub fn start(conversation_id: String) -> (run: Self)
        ensures
            run.conversation_id@ == conversation_id@,
            run.phase@ is Preparing,
    {
        AcquireRun { conversation_id, phase: AcquirePhase::Preparing }
    }

    /// Takes what came of the last operation and says what is next.
    pub fn advance(&mut self, event: AcquireEvent) -> (effect: AcquireEffect)
        requires
            answers(old(self).phase@, event@),
        ensures
            final(self).conversation_id == old(self).conversation_id,
            (final(self).phase@, effect@) == next_acquire(
                old(self).conversation_id@,
                old(self).phase@,
                event@,
            ),
    {
        let mut phase = AcquirePhase::Finished;
        std::mem::swap(&mut phase, &mut self.phase);
        match event {
            AcquireEvent::Minted { token, holder_pid, now_ms } => {
                let record = LeaseRecord {
                    conversation_id: self.conversation_id.clone(),
                    token: token.clone(),
                    holder_pid,
                    expires_at_ms: now_ms + LEASE_TTL_MS,
                };
                self.phase = AcquirePhase::Creating { token };
                AcquireEffect::Create { record }
            },
            AcquireEvent::Created { created } => {
                if !created {
                    self.phase = AcquirePhase::Reading;
                    return AcquireEffect::Read;
                }
                if let AcquirePhase::Creating { token } = phase {
                    self.phase = AcquirePhase::Repending { token };
                }
                AcquireEffect::Repend
            },
            AcquireEvent::Held { record, now_ms } => match record {
                Some(held) => if super::file_backend::lease_expired(&held, now_ms) {
                    self.phase = AcquirePhase::Renaming { observed: held.token };
                    AcquireEffect::RenameAway
                } else {
                    AcquireEffect::Finish { lease: None }
                },
                None => {
                    self.phase = AcquirePhase::Minting;
                    AcquireEffect::Mint
                },
            },
            AcquireEvent::Renamed { renamed } => {
                if !renamed {
                    self.phase = AcquirePhase::Minting;
                    return AcquireEffect::Mint;
                }
                if let AcquirePhase::Renaming { observed } = phase {
                    self.phase = AcquirePhase::Inspecting { observed };
                }
                AcquireEffect::ReadTombstone
            },
            AcquireEvent::Tombstone { record } => {
                let fresh = match (phase, record) {
                    (AcquirePhase::Inspecting { observed }, Some(renamed)) => !(renamed.token
                        == observed),
                    _ => false,
                };
                if fresh {
                    self.phase = AcquirePhase::Restoring;
                    AcquireEffect::Restore
                } else {
                    self.phase = AcquirePhase::Removing;
                    AcquireEffect::RemoveTombstone
                }
            },
            AcquireEvent::Restored => {
                self.phase = AcquirePhase::Removing;
                AcquireEffect::RemoveTombstone
            },
            AcquireEvent::Repended => {
                let lease = match phase {
                    AcquirePhase::Repending { token } => Some(
                        DispatchLease { conversation_id: self.conversation_id.clone(), token },
                    ),
                    _ => None,
                };
                AcquireEffect::Finish { lease }
            },
            AcquireEvent::Prepared | AcquireEvent::Removed => {
                self.phase = AcquirePhase::Minting;
                AcquireEffect::Mint
            },
        }
    }
}

} // verus!
