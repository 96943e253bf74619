//! Keeping adapter workers running: which to start, when to stop, and how long
//! to wait before a restart.

use vstd::prelude::*;

use super::types::AdapterRecord;
use crate::clock::Duration;
use crate::text;

verus! {

/// The wait before the first restart of a failing worker.
pub const INITIAL_RESTART_DELAY_SECS: u64 = 5;

/// The longest wait before a restart.
pub const MAX_RESTART_DELAY_SECS: u64 = 300;

/// A worker that ran this long was healthy: its next failure starts the waits
/// over.
pub const STABLE_RUN_THRESHOLD_SECS: u64 = 60;

/// The pause before a worker that ended well, or that must not run now, is
/// looked at again.
pub const IDLE_PAUSE_SECS: u64 = 5;

/// How an adapter runner behaves.
#[derive(Debug)]
pub struct AdapterRunOptions {
    /// How many adapters to run at most.
    pub limit: usize,
    /// When this file appears, the runner claims it, stops starting new work,
    /// lets wakeups in flight finish, and exits.
    pub drain_marker: Option<String>,
    /// Written when the runner is restarted. A fresh runner claims it and lets
    /// the adapter conversations announce that they are back.
    pub reboot_notice: Option<String>,
}

impl Default for AdapterRunOptions {
    fn default() -> (options: Self)
        ensures
            options.limit == 10,
            options.drain_marker is None,
            options.reboot_notice is None,
    {
        AdapterRunOptions { limit: 10, drain_marker: None, reboot_notice: None }
    }
}

/// The ids among `ids` that are not yet running, each where it first occurs.
pub open spec fn not_running(ids: Seq<Seq<char>>, running: Seq<Seq<char>>) -> Seq<int>
    decreases ids.len(),
{
    if ids.len() == 0 {
        Seq::empty()
    } else {
        let before = not_running(ids.drop_last(), running);
        if running.contains(ids.last()) || ids.drop_last().contains(ids.last()) {
            before
        } else {
            before.push(ids.len() - 1)
        }
    }
}

/// The ids of adapters.
pub open spec fn adapter_ids(adapters: Seq<AdapterRecord>) -> Seq<Seq<char>> {
    adapters.map_values(|adapter: AdapterRecord| adapter.id@)
}

/// Which of the enabled adapters to start: among the first `limit`, those that
/// are not running yet.
pub fn adapters_to_start(
    enabled: &Vec<AdapterRecord>,
    limit: usize,
    running: &Vec<String>,
) -> (positions: Vec<usize>)
    ensures
        ({
            let ids = adapter_ids(enabled@);
            let considered = if limit < ids.len() {
                ids.take(limit as int)
            } else {
                ids
            };
            positions@.map_values(|p: usize| p as int) == not_running(
                considered,
                text::views(running@),
            )
        }),
{
    let ghost ids = adapter_ids(enabled@);
    let mut positions: Vec<usize> = Vec::new();
    let mut i: usize = 0;
    assert(ids.take(0) =~= Seq::empty());
    assert(positions@.map_values(|p: usize| p as int) =~= Seq::empty());
    while i < enabled.len() && i < limit
        invariant
            i <= enabled.len(),
            i <= limit,
            ids == adapter_ids(enabled@),
            positions@.map_values(|p: usize| p as int) == not_running(
                ids.take(i as int),
                text::views(running@),
            ),
        decreases enabled.len() - i,
    {
        let ghost before = positions@;
        proof {
            assert(ids.take(i + 1).drop_last() =~= ids.take(i as int));
            assert(ids.take(i + 1).last() == enabled@[i as int].id@);
        }
        if !text::holds_text(running, enabled[i].id.as_str()) && !occurs_before(enabled, i) {
            positions.push(i);
            assert(positions@.map_values(|p: usize| p as int) =~= before.map_values(
                |p: usize| p as int,
            ).push(i as int));
        }
        i += 1;
    }
    proof {
        if limit >= ids.len() {
            assert(ids.take(i as int) =~= ids);
        }
    }
    positions
}

/// Whether an adapter's id stands before it too.
fn occurs_before(adapters: &Vec<AdapterRecord>, at: usize) -> (found: bool)
    requires
        at < adapters.len(),
    ensures
        found == adapter_ids(adapters@).take(at as int).contains(adapters@[at as int].id@),
{
    let ghost earlier = adapter_ids(adapters@).take(at as int);
    let mut i: usize = 0;
    while i < at
        invariant
            i <= at < adapters.len(),
            earlier == adapter_ids(adapters@).take(at as int),
            forall|j: int| 0 <= j < i ==> (#[trigger] adapters@[j]).id@ != adapters@[at as int].id@,
        decreases at - i,
    {
        if adapters[i].id == adapters[at].id {
            assert(earlier[i as int] == adapters@[at as int].id@);
            return true;
        }
        i += 1;
    }
    assert forall|j: int| 0 <= j < earlier.len() implies earlier[j]
        != adapters@[at as int].id@ by {
        assert(earlier[j] == adapters@[j].id@);
    }
    false
}

/// Whether a worker has to stop: the runner drains, or the adapter is gone or
/// disabled.
pub fn should_stop(draining: bool, enabled: Option<bool>) -> (stop: bool)
    ensures
        stop == (draining || enabled != Some(true)),
{
    if draining {
        return true;
    }
    match enabled {
        Some(enabled) => !enabled,
        None => true,
    }
}

/// The outside operation a supervisor needs next, or its end.
#[derive(Debug, Clone, Copy, PartialEq, Eq, Structural)]
pub enum SuperviseEffect {
    /// See whether the runner drains.
    CheckDrain,
    /// Look the adapter up.
    LookUp,
    /// Run the adapter's worker until it ends.
    Run,
    /// Report the worker's error, then wait this long.
    FailAndSleep { secs: u64 },
    /// Wait this long.
    Sleep { secs: u64 },
    /// Stop supervising.
    Finish,
}

/// What came of an outside operation.
#[derive(Debug, Clone, Copy, PartialEq, Eq, Structural)]
pub enum SuperviseEvent {
    DrainChecked { draining: bool },
    /// Whether the adapter is enabled, or nothing where it is gone.
    Found { enabled: Option<bool> },
    LookUpFailed,
    RunEnded,
    /// The worker failed after running so long.
    RunFailed { ran_for: Duration },
    Slept,
}

/// Where a supervisor stands.
#[derive(Debug, Clone, Copy, PartialEq, Eq, Structural)]
pub enum SupervisePhase {
    CheckingDrain,
    LookingUp,
    Running,
    Sleeping,
    Finished,
}

/// A supervisor of one adapter.
#[derive(Debug)]
pub struct Supervisor {
    pub phase: SupervisePhase,
    /// How long to wait after the next failure, unless the worker was healthy.
    pub restart_delay_secs: u64,
}

/// Whether the wait is one that the waits can be.
pub open spec fn is_delay(secs: u64) -> bool {
    INITIAL_RESTART_DELAY_SECS <= secs <= MAX_RESTART_DELAY_SECS
}

/// Whether an event answers what a phase is waiting for.
pub open spec fn answers(phase: SupervisePhase, event: SuperviseEvent) -> bool {
    match phase {
        SupervisePhase::CheckingDrain => event is DrainChecked,
        SupervisePhase::LookingUp => event is Found || event is LookUpFailed,
        SupervisePhase::Running => event is RunEnded || event is RunFailed,
        SupervisePhase::Sleeping => event is Slept,
        SupervisePhase::Finished => false,
    }
}

/// The wait after a failure: the one that is due, or the first again where the
/// worker had been healthy.
pub open spec fn wait_after_failure(delay_secs: u64, ran_for: Duration) -> u64 {
    if ran_for.nanos >= STABLE_RUN_THRESHOLD_SECS * 1_000_000_000 {
        INITIAL_RESTART_DELAY_SECS
    } else {
        delay_secs
    }
}

/// The wait that is due after that one: twice as long, up to the longest.
pub open spec fn doubled(delay_secs: u64) -> u64 {
    if 2 * delay_secs > MAX_RESTART_DELAY_SECS {
        MAX_RESTART_DELAY_SECS
    } else {
        (2 * delay_secs) as u64
    }
}

/// What a supervisor whose next wait is `delay_secs` does with an event: its
/// next phase, its next wait, and the operation it needs.
pub open spec fn next_supervision(
    phase: SupervisePhase,
    delay_secs: u64,
    event: SuperviseEvent,
) -> (SupervisePhase, u64, SuperviseEffect) {
    match event {
        SuperviseEvent::DrainChecked { draining: true } => (
            SupervisePhase::Finished,
            delay_secs,
            SuperviseEffect::Finish,
        ),
        SuperviseEvent::DrainChecked { draining: false } => (
            SupervisePhase::LookingUp,
            delay_secs,
            SuperviseEffect::LookUp,
        ),
        SuperviseEvent::Found { enabled: Some(true) } => (
            SupervisePhase::Running,
            delay_secs,
            SuperviseEffect::Run,
        ),
        SuperviseEvent::Found { enabled: None } => (
            SupervisePhase::Finished,
            delay_secs,
            SuperviseEffect::Finish,
        ),
        SuperviseEvent::Found { enabled: Some(false) } | SuperviseEvent::LookUpFailed => (
            SupervisePhase::Sleeping,
            delay_secs,
            SuperviseEffect::Sleep { secs: IDLE_PAUSE_SECS },
        ),
        SuperviseEvent::RunEnded => (
            SupervisePhase::Sleeping,
            INITIAL_RESTART_DELAY_SECS,
            SuperviseEffect::Sleep { secs: IDLE_PAUSE_SECS },
        ),
        SuperviseEvent::RunFailed { ran_for } => (
            SupervisePhase::Sleeping,
            doubled(wait_after_failure(delay_secs, ran_for)),
            SuperviseEffect::FailAndSleep { secs: wait_after_failure(delay_secs, ran_for) },
        ),
        SuperviseEvent::Slept => (
            SupervisePhase::CheckingDrain,
            delay_secs,
            SuperviseEffect::CheckDrain,
        ),
    }
}

impl Supervisor {
    /// Starts supervising. The first operation is
    /// [`SuperviseEffect::CheckDrain`].
    pub fn start() -> (supervisor: Self)
        ensures
            supervisor.phase == SupervisePhase::CheckingDrain,
            supervisor.restart_delay_secs == INITIAL_RESTART_DELAY_SECS,
    {
        Supervisor {
            phase: SupervisePhase::CheckingDrain,
            restart_delay_secs: INITIAL_RESTART_DELAY_SECS,
        }
    }

    /// Takes what came of the last operation and says what is next.
    pub fn advance(&mut self, event: SuperviseEvent) -> (effect: SuperviseEffect)
        requires
            answers(old(self).phase, event),
            is_delay(old(self).restart_delay_secs),
        ensures
            is_delay(final(self).restart_delay_secs),
            (final(self).phase, final(self).restart_delay_secs, effect) == next_supervision(
                old(self).phase,
                old(self).restart_delay_secs,
                event,
            ),
    {
        match event {
            SuperviseEvent::DrainChecked { draining } => if draining {
                self.phase = SupervisePhase::Finished;
                SuperviseEffect::Finish
            } else {
                self.phase = SupervisePhase::LookingUp;
                SuperviseEffect::LookUp
            },
            SuperviseEvent::Found { enabled: Some(true) } => {
                self.phase = SupervisePhase::Running;
                SuperviseEffect::Run
            },
            SuperviseEvent::Found { enabled: None } => {
                self.phase = SupervisePhase::Finished;
                SuperviseEffect::Finish
            },
            SuperviseEvent::Found { enabled: Some(false) } | SuperviseEvent::LookUpFailed => {
                self.phase = SupervisePhase::Sleeping;
                SuperviseEffect::Sleep { secs: IDLE_PAUSE_SECS }
            },
            SuperviseEvent::RunEnded => {
                self.phase = SupervisePhase::Sleeping;
                self.restart_delay_secs = INITIAL_RESTART_DELAY_SECS;
                SuperviseEffect::Sleep { secs: IDLE_PAUSE_SECS }
            },
            SuperviseEvent::RunFailed { ran_for } => {
                let wait: u64 = if ran_for.nanos >= Duration::from_secs(
                    STABLE_RUN_THRESHOLD_SECS,
                ).nanos {
                    INITIAL_RESTART_DELAY_SECS
                } else {
                    self.restart_delay_secs
                };
                self.phase = SupervisePhase::Sleeping;
                self.restart_delay_secs = if 2 * wait > MAX_RESTART_DELAY_SECS {
                    MAX_RESTART_DELAY_SECS
                } else {
                    2 * wait
                };
                SuperviseEffect::FailAndSleep { secs: wait }
            },
            SuperviseEvent::Slept => {
                self.phase = SupervisePhase::CheckingDrain;
                SuperviseEffect::CheckDrain
            },
        }
    }
}

/// The wait before the restart after `failures` unhealthy runs in a row.
pub open spec fn backoff(failures: nat) -> u64
    decreases failures,
{
    if failures == 0 {
        INITIAL_RESTART_DELAY_SECS
    } else {
        doubled(backoff((failures - 1) as nat))
    }
}

/// Waits double from the first to the longest, and stay there.
pub proof fn waits_double_up_to_the_longest(failures: nat)
    ensures
        is_delay(backoff(failures)),
        backoff(failures) <= backoff(failures + 1),
        failures >= 6 ==> backoff(failures) == MAX_RESTART_DELAY_SECS,
    decreases failures,
{
    if failures > 0 {
        waits_double_up_to_the_longest((failures - 1) as nat);
    }
    reveal_with_fuel(backoff, 8);
}

/// A worker that was healthy, and one that ended well, start the waits over.
pub proof fn a_healthy_run_starts_the_waits_over(delay_secs: u64, ran_for: Duration)
    requires
        ran_for.nanos >= STABLE_RUN_THRESHOLD_SECS * 1_000_000_000,
    ensures
        next_supervision(
            SupervisePhase::Running,
            delay_secs,
            SuperviseEvent::RunFailed { ran_for },
        ).2 == (SuperviseEffect::FailAndSleep { secs: backoff(0) }),
        next_supervision(
            SupervisePhase::Running,
            delay_secs,
            SuperviseEvent::RunFailed { ran_for },
        ).1 == backoff(1),
        next_supervision(SupervisePhase::Running, delay_secs, SuperviseEvent::RunEnded).1
            == backoff(0),
{
    reveal_with_fuel(backoff, 2);
}

} // verus!
