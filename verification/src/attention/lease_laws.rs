//! What holds of lease acquisitions over a conversation's directory.

use vstd::prelude::*;

use super::file_backend::{LeaseRecordView, RecordView, LEASE_TTL_MS};
use super::lease_run::{AcquireEffectView, AcquireEventView, AcquirePhaseView};
use super::types::{ItemId, LeaseView};

verus! {

/// The lease file of a conversation and its items.
#[verifier::ext_equal]
pub struct LeaseFiles {
    pub lease: Option<LeaseRecordView>,
    pub items: Map<ItemId, RecordView>,
}

/// What an operation that asks for a token or the time is told.
pub struct Stamp {
    pub token: Seq<char>,
    pub holder_pid: u32,
    pub now_ms: u64,
}

/// What an operation does to the files and to the acquisition's own tombstone,
/// and how it is answered.
pub open spec fn performed(
    files: LeaseFiles,
    tombstone: Option<LeaseRecordView>,
    effect: AcquireEffectView,
    stamp: Stamp,
) -> (LeaseFiles, Option<LeaseRecordView>, AcquireEventView) {
    match effect {
        AcquireEffectView::Prepare => (files, tombstone, AcquireEventView::Prepared),
        AcquireEffectView::Mint => (
            files,
            tombstone,
            AcquireEventView::Minted {
                token: stamp.token,
                holder_pid: stamp.holder_pid,
                now_ms: stamp.now_ms,
            },
        ),
        AcquireEffectView::Create { record } => if files.lease is None {
            (
                LeaseFiles { lease: Some(record), ..files },
                tombstone,
                AcquireEventView::Created { created: true },
            )
        } else {
            (files, tombstone, AcquireEventView::Created { created: false })
        },
        AcquireEffectView::Read => (
            files,
            tombstone,
            AcquireEventView::Held { record: files.lease, now_ms: stamp.now_ms },
        ),
        AcquireEffectView::RenameAway => if files.lease is None {
            (files, tombstone, AcquireEventView::Renamed { renamed: false })
        } else {
            (
                LeaseFiles { lease: None, ..files },
                files.lease,
                AcquireEventView::Renamed { renamed: true },
            )
        },
        AcquireEffectView::ReadTombstone => (
            files,
            tombstone,
            AcquireEventView::Tombstone { record: tombstone },
        ),
        AcquireEffectView::Restore => (
            LeaseFiles {
                lease: if files.lease is None {
                    tombstone
                } else {
                    files.lease
                },
                ..files
            },
            tombstone,
            AcquireEventView::Restored,
        ),
        AcquireEffectView::RemoveTombstone => (files, None, AcquireEventView::Removed),
        AcquireEffectView::Repend => (
            LeaseFiles {
                items: files.items.map_values(
                    |stored: RecordView| super::file_backend::repended(stored),
                ),
                ..files
            },
            tombstone,
            AcquireEventView::Repended,
        ),
        AcquireEffectView::Finish { .. } => (files, tombstone, AcquireEventView::Repended),
    }
}

/// The files and the answer when an acquisition has run to its end with nobody
/// else at the files, the operation `steps` before the end of `stamps` being
/// told the stamp there.
pub open spec fn run_acquire(
    conversation_id: Seq<char>,
    files: LeaseFiles,
    tombstone: Option<LeaseRecordView>,
    phase: AcquirePhaseView,
    effect: AcquireEffectView,
    stamps: Seq<Stamp>,
) -> (LeaseFiles, Option<LeaseRecordView>, Option<Option<LeaseView>>)
    decreases stamps.len(),
{
    match effect {
        AcquireEffectView::Finish { lease } => (files, tombstone, Some(lease)),
        _ => if stamps.len() == 0 {
            (files, tombstone, None)
        } else {
            let (after, left, event) = performed(files, tombstone, effect, stamps[0]);
            let (next, wanted) = super::lease_run::next_acquire(conversation_id, phase, event);
            run_acquire(conversation_id, after, left, next, wanted, stamps.drop_first())
        },
    }
}

/// The files once a lease is taken under a stamp: the lease is stored with its
/// deadline, and every item left drained is pending again.
pub open spec fn taken(conversation_id: Seq<char>, files: LeaseFiles, stamp: Stamp) -> LeaseFiles {
    LeaseFiles {
        lease: Some(
            LeaseRecordView {
                conversation_id,
                token: stamp.token,
                holder_pid: stamp.holder_pid,
                expires_at_ms: (stamp.now_ms + LEASE_TTL_MS) as u64,
            },
        ),
        items: files.items.map_values(|stored: RecordView| super::file_backend::repended(stored)),
    }
}

/// An undisturbed acquisition ends within ten operations: a free conversation
/// is leased under the first token minted, a lease that has not run out stays
/// and nothing is granted, and one that has run out is replaced under the
/// second token minted. No tombstone is left behind.
pub proof fn an_acquisition_runs_to_its_end(
    conversation_id: Seq<char>,
    files: LeaseFiles,
    stamps: Seq<Stamp>,
)
    requires
        stamps.len() == 10,
    ensures
        run_acquire(
            conversation_id,
            files,
            None,
            AcquirePhaseView::Preparing,
            AcquireEffectView::Prepare,
            stamps,
        ) == match files.lease {
            None => (
                taken(conversation_id, files, stamps[1]),
                None::<LeaseRecordView>,
                Some(Some(LeaseView { conversation_id, token: stamps[1].token })),
            ),
            Some(held) => if super::file_backend::is_expired(held, stamps[3].now_ms) {
                (
                    taken(conversation_id, files, stamps[7]),
                    None,
                    Some(Some(LeaseView { conversation_id, token: stamps[7].token })),
                )
            } else {
                (files, None, Some(None))
            },
        },
{
    reveal_with_fuel(run_acquire, 11);
    let s = stamps;
    assert(s.drop_first()[0] == s[1]);
    assert(s.drop_first().drop_first()[0] == s[2]);
    assert(s.drop_first().drop_first().drop_first()[0] == s[3]);
    let t = s.drop_first().drop_first().drop_first().drop_first();
    assert(t =~= s.skip(4));
    assert(t.drop_first().drop_first().drop_first()[0] == s[7]);
}

/// An acquisition that grants a lease leaves no item drained: what a dead turn
/// left drained is delivered again, and what was acknowledged stays.
pub proof fn taking_a_lease_repends_drained_items(
    conversation_id: Seq<char>,
    files: LeaseFiles,
    stamp: Stamp,
    item_id: ItemId,
)
    requires
        files.items.contains_key(item_id),
    ensures
        ({
            let after = taken(conversation_id, files, stamp).items;
            &&& after.contains_key(item_id)
            &&& after[item_id].item == files.items[item_id].item
            &&& files.items[item_id].status is Drained ==> after[item_id].status is Pending
            &&& !(files.items[item_id].status is Drained) ==> after[item_id]
                == files.items[item_id]
        }),
{
}

/// One of the acquisitions that race for a lease.
pub struct Racer {
    pub phase: AcquirePhaseView,
    pub effect: AcquireEffectView,
    pub tombstone: Option<LeaseRecordView>,
}

/// Acquisitions that race for one conversation's lease.
pub struct Race {
    pub files: LeaseFiles,
    pub racers: Seq<Racer>,
}

/// A racer that has not started yet.
pub open spec fn at_the_start() -> Racer {
    Racer {
        phase: AcquirePhaseView::Preparing,
        effect: AcquireEffectView::Prepare,
        tombstone: None,
    }
}

/// A race of so many that nobody has started yet.
pub open spec fn starting_race(files: LeaseFiles, racers: nat) -> Race {
    Race { files, racers: Seq::new(racers, |i: int| at_the_start()) }
}

/// Whether a racer has the lease: it is granted, or will be once the items are
/// pending again.
pub open spec fn has_won(racer: Racer) -> bool {
    racer.phase is Repending || racer.effect matches AcquireEffectView::Finish { lease: Some(_) }
}

/// What one operation of a racer leaves of it and of the files.
pub open spec fn moved_racer(
    conversation_id: Seq<char>,
    files: LeaseFiles,
    racer: Racer,
    stamp: Stamp,
) -> (LeaseFiles, Racer) {
    if racer.effect is Finish {
        (files, racer)
    } else {
        let (after, left, event) = performed(files, racer.tombstone, racer.effect, stamp);
        let (next, wanted) = super::lease_run::next_acquire(conversation_id, racer.phase, event);
        (after, Racer { phase: next, effect: wanted, tombstone: left })
    }
}

/// One operation of a race: whose it is and what it is told.
pub struct RaceMove {
    pub racer: int,
    pub stamp: Stamp,
}

/// What one operation leaves of a race.
pub open spec fn moved_race(conversation_id: Seq<char>, race: Race, step: RaceMove) -> Race {
    let (files, racer) = moved_racer(
        conversation_id,
        race.files,
        race.racers[step.racer],
        step.stamp,
    );
    Race { files, racers: race.racers.update(step.racer, racer) }
}

/// The race after some operations, in whatever order they came.
pub open spec fn after_moves(conversation_id: Seq<char>, race: Race, moves: Seq<RaceMove>) -> Race
    decreases moves.len(),
{
    if moves.len() == 0 {
        race
    } else {
        moved_race(
            conversation_id,
            after_moves(conversation_id, race, moves.drop_last()),
            moves.last(),
        )
    }
}

/// Whose a token is: a racer's number, or -1 for the expired lease's.
pub type Owner = spec_fn(Seq<char>) -> int;

/// Whether what an operation is told is in keeping with a race that lasts no
/// longer than a lease lives, among tokens that are never shared.
pub open spec fn is_fair(step: RaceMove, racers: nat, owner: Owner, started_ms: u64) -> bool {
    &&& 0 <= step.racer < racers
    &&& owner(step.stamp.token) == step.racer
    &&& started_ms <= step.stamp.now_ms <= started_ms + LEASE_TTL_MS
    &&& step.stamp.now_ms + LEASE_TTL_MS <= u64::MAX
}

/// Whether a racer has renamed a fresh lease away and not put it back yet.
pub open spec fn withholds(racer: Racer, expired: LeaseRecordView) -> bool {
    &&& racer.phase is Inspecting || racer.phase is Restoring
    &&& racer.tombstone is Some
    &&& racer.tombstone != Some(expired)
}

/// Whether some racer withholds a fresh lease.
pub open spec fn is_withheld(race: Race, expired: LeaseRecordView) -> bool {
    exists|i: int| 0 <= i < race.racers.len() && withholds(#[trigger] race.racers[i], expired)
}

/// Whether an operation creates a lease while a fresh one is withheld.
pub open spec fn overtakes(race: Race, step: RaceMove, expired: LeaseRecordView) -> bool {
    &&& race.racers[step.racer].effect is Create
    &&& race.files.lease is None
    &&& is_withheld(race, expired)
}

/// Whether an effect is the one a racer's phase waits for, and a racer's own
/// token and deadlines are as they have to be.
pub open spec fn is_in_step(
    racer: Racer,
    me: int,
    expired: LeaseRecordView,
    owner: Owner,
    started_ms: u64,
) -> bool {
    match racer.phase {
        AcquirePhaseView::Preparing => racer.effect is Prepare,
        AcquirePhaseView::Minting => racer.effect is Mint,
        AcquirePhaseView::Creating { token } => owner(token) == me && (
        racer.effect matches AcquireEffectView::Create { record } && record.token == token
            && record.expires_at_ms >= started_ms + LEASE_TTL_MS),
        AcquirePhaseView::Reading => racer.effect is Read,
        AcquirePhaseView::Renaming { observed } => observed == expired.token
            && racer.effect is RenameAway,
        AcquirePhaseView::Inspecting { observed } => observed == expired.token
            && racer.effect is ReadTombstone,
        AcquirePhaseView::Restoring => racer.effect is Restore && racer.tombstone is Some
            && racer.tombstone != Some(expired),
        AcquirePhaseView::Removing => racer.effect is RemoveTombstone,
        AcquirePhaseView::Repending { .. } => racer.effect is Repend,
        AcquirePhaseView::Finished => racer.effect is Finish,
    }
}

/// Whether a stored lease is a racer's own, and outlasts the race.
pub open spec fn is_lease_of(
    stored: Option<LeaseRecordView>,
    me: int,
    owner: Owner,
    started_ms: u64,
) -> bool {
    stored matches Some(record) && owner(record.token) == me && record.expires_at_ms >= started_ms
        + LEASE_TTL_MS
}

/// What holds throughout a race for an expired lease in which nobody overtook,
/// with the racer that has won, if one has.
pub open spec fn race_is_sound(
    race: Race,
    winner: Option<int>,
    expired: LeaseRecordView,
    owner: Owner,
    started_ms: u64,
) -> bool {
    &&& winner matches Some(w) ==> 0 <= w < race.racers.len()
    &&& forall|i: int|
        0 <= i < race.racers.len() ==> (has_won(#[trigger] race.racers[i]) <==> winner == Some(i))
    &&& forall|i: int|
        0 <= i < race.racers.len() ==> is_in_step(
            #[trigger] race.racers[i],
            i,
            expired,
            owner,
            started_ms,
        )
    // What is stored is the expired lease or the winner's.
    &&& race.files.lease is Some ==> race.files.lease == Some(expired) || (
    winner matches Some(w) && is_lease_of(race.files.lease, w, owner, started_ms))
    // So is a tombstone.
    &&& forall|i: int|
        0 <= i < race.racers.len() && (#[trigger] race.racers[i]).tombstone is Some ==> {
            ||| race.racers[i].tombstone == Some(expired)
            ||| winner matches Some(w) && is_lease_of(
                race.racers[i].tombstone,
                w,
                owner,
                started_ms,
            )
        }
    // A withheld lease is not stored, and one racer withholds it.
    &&& forall|i: int|
        0 <= i < race.racers.len() && withholds(#[trigger] race.racers[i], expired)
            ==> race.files.lease is None
    &&& forall|i: int, j: int|
        0 <= i < race.racers.len() && 0 <= j < race.racers.len() && withholds(
            #[trigger] race.racers[i],
            expired,
        ) && withholds(#[trigger] race.racers[j], expired) ==> i == j
    // The winner's lease is stored or withheld.
    &&& winner matches Some(w) ==> is_lease_of(race.files.lease, w, owner, started_ms)
        || is_withheld(race, expired)
}

/// Who has won after an operation.
pub open spec fn winner_after(
    conversation_id: Seq<char>,
    race: Race,
    winner: Option<int>,
    step: RaceMove,
) -> Option<int> {
    if has_won(moved_race(conversation_id, race, step).racers[step.racer]) {
        Some(step.racer)
    } else {
        winner
    }
}

/// One operation that does not overtake keeps a race sound.
proof fn a_move_keeps_the_race_sound(
    conversation_id: Seq<char>,
    race: Race,
    winner: Option<int>,
    step: RaceMove,
    expired: LeaseRecordView,
    owner: Owner,
    started_ms: u64,
)
    requires
        race_is_sound(race, winner, expired, owner, started_ms),
        is_fair(step, race.racers.len(), owner, started_ms),
        !overtakes(race, step, expired),
        owner(expired.token) == -1,
        started_ms + LEASE_TTL_MS <= u64::MAX,
    ensures
        race_is_sound(
            moved_race(conversation_id, race, step),
            winner_after(conversation_id, race, winner, step),
            expired,
            owner,
            started_ms,
        ),
{
    let after = moved_race(conversation_id, race, step);
    let me = step.racer;
    let before = race.racers[me];
    assert forall|i: int| 0 <= i < race.racers.len() && i != me implies #[trigger] after.racers[i]
        == race.racers[i] by {}
    let (files, racer) = moved_racer(conversation_id, race.files, before, step.stamp);
    assert(after.racers[me] == racer);
    if before.effect is Restore {
        assert(withholds(before, expired));
    }
    if is_withheld(race, expired) {
        let j = choose|j: int|
            0 <= j < race.racers.len() && withholds(#[trigger] race.racers[j], expired);
        if j != me {
            assert(withholds(after.racers[j], expired));
        }
    }
    if withholds(racer, expired) {
        assert(withholds(after.racers[me], expired));
    }
}

/// Whether no operation overtakes.
pub open spec fn nobody_overtakes(
    conversation_id: Seq<char>,
    race: Race,
    moves: Seq<RaceMove>,
    expired: LeaseRecordView,
) -> bool {
    forall|i: int|
        0 <= i < moves.len() ==> !overtakes(
            after_moves(conversation_id, race, moves.take(i)),
            #[trigger] moves[i],
            expired,
        )
}

/// A race in which nobody overtakes stays sound.
proof fn a_race_stays_sound(
    conversation_id: Seq<char>,
    race: Race,
    moves: Seq<RaceMove>,
    expired: LeaseRecordView,
    owner: Owner,
    started_ms: u64,
) -> (winner: Option<int>)
    requires
        race_is_sound(race, None, expired, owner, started_ms),
        forall|i: int|
            0 <= i < moves.len() ==> is_fair(
                #[trigger] moves[i],
                race.racers.len(),
                owner,
                started_ms,
            ),
        nobody_overtakes(conversation_id, race, moves, expired),
        owner(expired.token) == -1,
        started_ms + LEASE_TTL_MS <= u64::MAX,
    ensures
        race_is_sound(
            after_moves(conversation_id, race, moves),
            winner,
            expired,
            owner,
            started_ms,
        ),
        after_moves(conversation_id, race, moves).racers.len() == race.racers.len(),
    decreases moves.len(),
{
    if moves.len() == 0 {
        None
    } else {
        let rest = moves.drop_last();
        assert forall|i: int| 0 <= i < rest.len() implies is_fair(
            #[trigger] rest[i],
            race.racers.len(),
            owner,
            started_ms,
        ) by {
            assert(rest[i] == moves[i]);
        }
        assert forall|i: int| 0 <= i < rest.len() implies !overtakes(
            after_moves(conversation_id, race, rest.take(i)),
            #[trigger] rest[i],
            expired,
        ) by {
            assert(rest[i] == moves[i]);
            assert(rest.take(i) =~= moves.take(i));
        }
        let winner = a_race_stays_sound(conversation_id, race, rest, expired, owner, started_ms);
        let last = moves[moves.len() - 1];
        assert(is_fair(last, race.racers.len(), owner, started_ms));
        assert(moves.take(moves.len() - 1) =~= rest);
        let reached = after_moves(conversation_id, race, rest);
        assert(!overtakes(reached, last, expired));
        a_move_keeps_the_race_sound(
            conversation_id,
            reached,
            winner,
            last,
            expired,
            owner,
            started_ms,
        );
        winner_after(conversation_id, reached, winner, last)
    }
}

/// However many acquisitions race to take over one expired lease, and however
/// their operations interleave, at most one of them wins, and once the others
/// have ended the winner's lease is the stored one; unless one creates a lease
/// while another has a fresh one renamed away and not put back yet.
pub proof fn racing_takeovers_grant_at_most_one(
    conversation_id: Seq<char>,
    files: LeaseFiles,
    racers: nat,
    expired: LeaseRecordView,
    moves: Seq<RaceMove>,
    owner: Owner,
    started_ms: u64,
)
    requires
        files.lease == Some(expired),
        owner(expired.token) == -1,
        started_ms + LEASE_TTL_MS <= u64::MAX,
        forall|i: int|
            0 <= i < moves.len() ==> is_fair(#[trigger] moves[i], racers, owner, started_ms),
        nobody_overtakes(conversation_id, starting_race(files, racers), moves, expired),
    ensures
        ({
            let ended = after_moves(conversation_id, starting_race(files, racers), moves);
            &&& ended.racers.len() == racers
            &&& forall|i: int, j: int|
                0 <= i < racers && 0 <= j < racers && has_won(#[trigger] ended.racers[i])
                    && has_won(#[trigger] ended.racers[j]) ==> i == j
            &&& forall|w: int|
                0 <= w < racers && has_won(#[trigger] ended.racers[w]) && others_ended(ended, w)
                    ==> is_lease_of(ended.files.lease, w, owner, started_ms)
        }),
{
    let race = starting_race(files, racers);
    let winner = a_race_stays_sound(conversation_id, race, moves, expired, owner, started_ms);
    let ended = after_moves(conversation_id, race, moves);
    assert forall|w: int|
        0 <= w < racers && has_won(#[trigger] ended.racers[w]) && others_ended(
            ended,
            w,
        ) implies is_lease_of(ended.files.lease, w, owner, started_ms) by {
        if is_withheld(ended, expired) {
            let j = choose|j: int|
                0 <= j < ended.racers.len() && withholds(#[trigger] ended.racers[j], expired);
            assert(is_in_step(ended.racers[j], j, expired, owner, started_ms));
        }
    }
}

/// Whether every racer but one has ended.
pub open spec fn others_ended(race: Race, winner: int) -> bool {
    forall|i: int|
        0 <= i < race.racers.len() && i != winner ==> (#[trigger] race.racers[i]).effect is Finish
}

/// Two racers never overtake one another: of them at most one wins, whatever
/// they do.
pub proof fn two_racing_takeovers_grant_at_most_one(
    conversation_id: Seq<char>,
    files: LeaseFiles,
    expired: LeaseRecordView,
    moves: Seq<RaceMove>,
    owner: Owner,
    started_ms: u64,
)
    requires
        files.lease == Some(expired),
        owner(expired.token) == -1,
        started_ms + LEASE_TTL_MS <= u64::MAX,
        forall|i: int|
            0 <= i < moves.len() ==> is_fair(#[trigger] moves[i], 2, owner, started_ms),
    ensures
        nobody_overtakes(conversation_id, starting_race(files, 2), moves, expired),
        ({
            let ended = after_moves(conversation_id, starting_race(files, 2), moves);
            !(has_won(ended.racers[0]) && has_won(ended.racers[1]))
        }),
    decreases moves.len(),
{
    let race = starting_race(files, 2);
    if moves.len() > 0 {
        let rest = moves.drop_last();
        assert forall|i: int| 0 <= i < rest.len() implies is_fair(
            #[trigger] rest[i],
            2,
            owner,
            started_ms,
        ) by {
            assert(rest[i] == moves[i]);
        }
        two_racing_takeovers_grant_at_most_one(
            conversation_id,
            files,
            expired,
            rest,
            owner,
            started_ms,
        );
        let winner = a_race_stays_sound(conversation_id, race, rest, expired, owner, started_ms);
        let reached = after_moves(conversation_id, race, rest);
        let last = moves[moves.len() - 1];
        assert(is_fair(last, 2, owner, started_ms));
        // The withheld lease is the winner's, the winner withholds nothing, and
        // neither of the two is about to create one.
        if overtakes(reached, last, expired) {
            let j = choose|j: int|
                0 <= j < reached.racers.len() && withholds(#[trigger] reached.racers[j], expired);
            assert(is_in_step(reached.racers[j], j, expired, owner, started_ms));
            assert(is_in_step(reached.racers[last.racer], last.racer, expired, owner, started_ms));
            assert(has_won(reached.racers[winner->0]));
            assert(is_in_step(reached.racers[winner->0], winner->0, expired, owner, started_ms));
            assert(false);
        }
        assert forall|i: int| 0 <= i < moves.len() implies !overtakes(
            after_moves(conversation_id, race, moves.take(i)),
            #[trigger] moves[i],
            expired,
        ) by {
            if i < rest.len() {
                assert(rest[i] == moves[i]);
                assert(rest.take(i) =~= moves.take(i));
            } else {
                assert(moves.take(i) =~= rest);
            }
        }
    }
    racing_takeovers_grant_at_most_one(
        conversation_id,
        files,
        2,
        expired,
        moves,
        owner,
        started_ms,
    );
    let ended = after_moves(conversation_id, race, moves);
    assert(has_won(ended.racers[0]) && has_won(ended.racers[1]) ==> 0int == 1int);
}

/// Overtaking does what the exception of
/// [`racing_takeovers_grant_at_most_one`] is there for: a racer that creates a
/// lease while a winner's is withheld wins too.
pub proof fn an_overtaking_racer_wins_too(
    conversation_id: Seq<char>,
    race: Race,
    winner: int,
    step: RaceMove,
    expired: LeaseRecordView,
    owner: Owner,
    started_ms: u64,
)
    requires
        race_is_sound(race, Some(winner), expired, owner, started_ms),
        is_fair(step, race.racers.len(), owner, started_ms),
        overtakes(race, step, expired),
    ensures
        ({
            let after = moved_race(conversation_id, race, step);
            &&& winner != step.racer
            &&& has_won(after.racers[winner])
            &&& has_won(after.racers[step.racer])
        }),
{
    assert(has_won(race.racers[winner]));
    assert(is_in_step(race.racers[winner], winner, expired, owner, started_ms));
    assert(is_in_step(race.racers[step.racer], step.racer, expired, owner, started_ms));
}

} // verus!
