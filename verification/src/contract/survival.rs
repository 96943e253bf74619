//! What a sandbox has to keep when it is stopped and acquired again: what was
//! written into it is there, and it runs as before.

use vstd::prelude::*;

use super::process::{self, ProcessFault, SandboxCommand};
use crate::ids::{self, Uuid7};
use crate::text;

verus! {

/// What has to survive.
#[derive(Debug, Clone, Copy, PartialEq, Eq, Structural)]
pub enum Survival {
    /// A durable file system.
    DurableFileSystem,
    /// The default directory.
    Workdir,
    /// The default directory, and that processes run in it.
    ProtocolAndWorkdir,
}

/// What a command in a sandbox came to.
#[derive(Debug)]
pub struct CommandOutput {
    pub ok: bool,
    pub exit_code: Option<i32>,
    pub stdout: String,
    pub stderr: String,
}

/// How a sandbox broke its contract.
#[derive(Debug)]
pub enum SandboxFault {
    /// The sandbox has no durable file system to look at.
    NoDurableFileSystem,
    /// Something failed.
    Failed { context: &'static str, error: String },
    /// A process in it broke its contract.
    Process { fault: ProcessFault },
    /// Writing the marker did not work.
    MarkerNotWritten { output: CommandOutput },
    /// Reading the marker did not work.
    MarkerNotRead { output: CommandOutput },
    /// Another marker was read than was written.
    MarkerMismatch { expected: String, found: String },
}

/// How a contract of a sandbox ends.
#[derive(Debug)]
pub enum Verdict {
    Passed,
    Failed { fault: SandboxFault },
    /// The sandbox could not be stopped afterwards.
    NotStopped { context: &'static str, error: String },
    /// Both.
    FailedAndNotStopped { fault: SandboxFault, context: &'static str, error: String },
}

/// What a contract and the stop after it come to.
pub open spec fn verdict(
    fault: Option<SandboxFault>,
    context: &'static str,
    stop_error: Option<String>,
) -> Verdict {
    match (fault, stop_error) {
        (None, None) => Verdict::Passed,
        (Some(fault), None) => Verdict::Failed { fault },
        (None, Some(error)) => Verdict::NotStopped { context, error },
        (Some(fault), Some(error)) => Verdict::FailedAndNotStopped { fault, context, error },
    }
}

/// What a contract and the stop after it come to: a failed stop does not hide
/// what went wrong before.
pub fn stop_after_contract(
    fault: Option<SandboxFault>,
    context: &'static str,
    stop_error: Option<String>,
) -> (ending: Verdict)
    ensures
        ending == verdict(fault, context, stop_error),
{
    match (fault, stop_error) {
        (None, None) => Verdict::Passed,
        (Some(fault), None) => Verdict::Failed { fault },
        (None, Some(error)) => Verdict::NotStopped { context, error },
        (Some(fault), Some(error)) => Verdict::FailedAndNotStopped { fault, context, error },
    }
}

/// The source of the command that writes the marker.
pub open spec fn write_source() -> Seq<char> {
    "test \"$(pwd)\" = \"$EXO_DURABLE_MOUNT\" && mkdir -p .codex-smoke && printf '%s' \"$EXO_DURABLE_MARKER\" > .codex-smoke/marker.txt"@
}

/// The command that writes the marker, where the sandbox is at the mount.
pub fn write_durable_marker(mount_path: &str, marker: &str) -> (command: SandboxCommand)
    ensures
        command@ == process::shell_view(
            "-lc"@,
            write_source(),
            seq![("EXO_DURABLE_MOUNT"@, mount_path@), ("EXO_DURABLE_MARKER"@, marker@)],
        ),
{
    let mut env: Vec<(String, String)> = Vec::new();
    env.push(("EXO_DURABLE_MOUNT".to_owned(), mount_path.to_owned()));
    env.push(("EXO_DURABLE_MARKER".to_owned(), marker.to_owned()));
    assert(env@.map_values(|pair: (String, String)| (pair.0@, pair.1@)) =~= seq![
        ("EXO_DURABLE_MOUNT"@, mount_path@),
        ("EXO_DURABLE_MARKER"@, marker@),
    ]);
    process::shell(
        "-lc",
        "test \"$(pwd)\" = \"$EXO_DURABLE_MOUNT\" && mkdir -p .codex-smoke && printf '%s' \"$EXO_DURABLE_MARKER\" > .codex-smoke/marker.txt",
        env,
    )
}

/// The source of the command that reads the marker.
pub open spec fn read_source() -> Seq<char> {
    "test \"$(pwd)\" = \"$EXO_DURABLE_MOUNT\" && cat .codex-smoke/marker.txt"@
}

/// The command that reads the marker, where the sandbox is at the mount.
pub fn read_durable_marker(mount_path: &str) -> (command: SandboxCommand)
    ensures
        command@ == process::shell_view(
            "-lc"@,
            read_source(),
            seq![("EXO_DURABLE_MOUNT"@, mount_path@)],
        ),
{
    let mut env: Vec<(String, String)> = Vec::new();
    env.push(("EXO_DURABLE_MOUNT".to_owned(), mount_path.to_owned()));
    assert(env@.map_values(|pair: (String, String)| (pair.0@, pair.1@)) =~= seq![
        ("EXO_DURABLE_MOUNT"@, mount_path@),
    ]);
    process::shell(
        "-lc",
        "test \"$(pwd)\" = \"$EXO_DURABLE_MOUNT\" && cat .codex-smoke/marker.txt",
        env,
    )
}

/// What is wrong with having written the marker, if anything is.
pub fn judge_write(output: CommandOutput) -> (fault: Option<SandboxFault>)
    ensures
        fault == if output.ok {
            None
        } else {
            Some(SandboxFault::MarkerNotWritten { output })
        },
{
    if output.ok {
        None
    } else {
        Some(SandboxFault::MarkerNotWritten { output })
    }
}

/// Whether having read the marker shows it.
pub open spec fn shows_marker(output: CommandOutput, marker: Seq<char>) -> bool {
    output.ok && output.stdout@ == marker
}

/// Whether this is what is wrong with having read the marker.
pub open spec fn is_read_fault(
    output: CommandOutput,
    marker: Seq<char>,
    fault: Option<SandboxFault>,
) -> bool {
    if !output.ok {
        fault == Some(SandboxFault::MarkerNotRead { output })
    } else if output.stdout@ != marker {
        fault matches Some(SandboxFault::MarkerMismatch { expected, found }) && expected@
            == marker && found == output.stdout
    } else {
        fault is None
    }
}

/// What is wrong with having read the marker, if anything is.
pub fn judge_read(output: CommandOutput, marker: &str) -> (fault: Option<SandboxFault>)
    ensures
        is_read_fault(output, marker@, fault),
{
    if !output.ok {
        Some(SandboxFault::MarkerNotRead { output })
    } else if !text::str_eq(output.stdout.as_str(), marker) {
        Some(SandboxFault::MarkerMismatch { expected: marker.to_owned(), found: output.stdout })
    } else {
        None
    }
}

/// Where such a contract stands.
#[derive(Debug)]
pub enum SurvivalPhase {
    AcquireWriter,
    WriterProtocol,
    Write,
    StopWriter { fault: Option<SandboxFault> },
    AcquireReader,
    Read,
    ReaderProtocol,
    StopReader { fault: Option<SandboxFault> },
    Ended { verdict: Verdict },
}

/// What to do next of such a contract.
#[derive(Debug)]
pub enum SurvivalEffect {
    /// Acquire the sandbox.
    Acquire { context: &'static str },
    /// Run the protocol contract in it, without stopping it.
    RunProtocol,
    /// Run a command in it.
    Run { command: SandboxCommand, context: &'static str },
    /// Stop it.
    Stop { context: &'static str },
    /// Nothing more.
    End,
}

/// What came of it.
#[derive(Debug)]
pub enum SurvivalEvent {
    Acquired,
    /// What the protocol contract found wrong.
    Protocol { fault: Option<ProcessFault> },
    Output { output: CommandOutput },
    Stopped,
    Failed { error: String },
}

/// The text of a failed first acquisition.
#[verifier::allow_in_spec]
pub fn acquire_writer_context(survival: Survival) -> &'static str
    returns
        (match survival {
            Survival::DurableFileSystem => "acquire sandbox for durable filesystem write",
            Survival::Workdir => "acquire sandbox for workdir write",
            Survival::ProtocolAndWorkdir => "acquire sandbox for protocol and workdir write",
        }),
{
    match survival {
        Survival::DurableFileSystem => "acquire sandbox for durable filesystem write",
        Survival::Workdir => "acquire sandbox for workdir write",
        Survival::ProtocolAndWorkdir => "acquire sandbox for protocol and workdir write",
    }
}

/// The text of a failed stop after the writing.
#[verifier::allow_in_spec]
pub fn stop_writer_context(survival: Survival) -> &'static str
    returns
        (match survival {
            Survival::DurableFileSystem => "stop sandbox after durable filesystem write",
            Survival::Workdir => "stop sandbox after workdir write",
            Survival::ProtocolAndWorkdir => "stop sandbox after protocol and workdir write",
        }),
{
    match survival {
        Survival::DurableFileSystem => "stop sandbox after durable filesystem write",
        Survival::Workdir => "stop sandbox after workdir write",
        Survival::ProtocolAndWorkdir => "stop sandbox after protocol and workdir write",
    }
}

/// The text of a failed second acquisition.
#[verifier::allow_in_spec]
pub fn acquire_reader_context(survival: Survival) -> &'static str
    returns
        (match survival {
            Survival::DurableFileSystem => "reacquire sandbox for durable filesystem read",
            Survival::Workdir => "reacquire sandbox for workdir read",
            Survival::ProtocolAndWorkdir => "reacquire sandbox for protocol and workdir read",
        }),
{
    match survival {
        Survival::DurableFileSystem => "reacquire sandbox for durable filesystem read",
        Survival::Workdir => "reacquire sandbox for workdir read",
        Survival::ProtocolAndWorkdir => "reacquire sandbox for protocol and workdir read",
    }
}

/// The text of a failed stop after the reading.
#[verifier::allow_in_spec]
pub fn stop_reader_context(survival: Survival) -> &'static str
    returns
        (match survival {
            Survival::DurableFileSystem => "stop sandbox after durable filesystem read",
            Survival::Workdir => "stop sandbox after workdir read",
            Survival::ProtocolAndWorkdir => "stop sandbox after protocol and workdir read",
        }),
{
    match survival {
        Survival::DurableFileSystem => "stop sandbox after durable filesystem read",
        Survival::Workdir => "stop sandbox after workdir read",
        Survival::ProtocolAndWorkdir => "stop sandbox after protocol and workdir read",
    }
}

/// Whether this event can come of what a phase asks for.
pub open spec fn answers(phase: SurvivalPhase, event: SurvivalEvent) -> bool {
    match phase {
        SurvivalPhase::AcquireWriter | SurvivalPhase::AcquireReader => event is Acquired
            || event is Failed,
        SurvivalPhase::WriterProtocol | SurvivalPhase::ReaderProtocol => event is Protocol,
        SurvivalPhase::Write | SurvivalPhase::Read => event is Output || event is Failed,
        SurvivalPhase::StopWriter { .. } | SurvivalPhase::StopReader { .. } => event is Stopped
            || event is Failed,
        SurvivalPhase::Ended { .. } => false,
    }
}

/// The reason of a failed stop, if it failed.
pub open spec fn stop_error(event: SurvivalEvent) -> Option<String> {
    match event {
        SurvivalEvent::Failed { error } => Some(error),
        _ => None,
    }
}

/// What the protocol contract found wrong.
pub open spec fn process_fault(fault: Option<ProcessFault>) -> Option<SandboxFault> {
    match fault {
        Some(fault) => Some(SandboxFault::Process { fault }),
        None => None,
    }
}

/// Whether a contract goes on to this phase.
pub open spec fn is_next(
    survival: Survival,
    marker: Seq<char>,
    phase: SurvivalPhase,
    event: SurvivalEvent,
    next: SurvivalPhase,
) -> bool {
    match (phase, event) {
        (SurvivalPhase::AcquireWriter, SurvivalEvent::Acquired) => next == if survival
            == Survival::ProtocolAndWorkdir {
            SurvivalPhase::WriterProtocol
        } else {
            SurvivalPhase::Write
        },
        (SurvivalPhase::AcquireWriter, SurvivalEvent::Failed { error }) => next
            == (SurvivalPhase::Ended {
            verdict: Verdict::Failed {
                fault: SandboxFault::Failed { context: acquire_writer_context(survival), error },
            },
        }),
        (SurvivalPhase::WriterProtocol, SurvivalEvent::Protocol { fault }) => next
            == match process_fault(fault) {
            Some(fault) => SurvivalPhase::StopWriter { fault: Some(fault) },
            None => SurvivalPhase::Write,
        },
        (SurvivalPhase::Write, SurvivalEvent::Output { output }) => next
            == (SurvivalPhase::StopWriter {
            fault: if output.ok {
                None
            } else {
                Some(SandboxFault::MarkerNotWritten { output })
            },
        }),
        (SurvivalPhase::Write, SurvivalEvent::Failed { error }) => next
            == (SurvivalPhase::StopWriter {
            fault: Some(
                SandboxFault::Failed { context: "write durable filesystem marker", error },
            ),
        }),
        (SurvivalPhase::StopWriter { fault }, _) => match verdict(
            fault,
            stop_writer_context(survival),
            stop_error(event),
        ) {
            Verdict::Passed => next == SurvivalPhase::AcquireReader,
            ending => next == (SurvivalPhase::Ended { verdict: ending }),
        },
        (SurvivalPhase::AcquireReader, SurvivalEvent::Acquired) => next == SurvivalPhase::Read,
        (SurvivalPhase::AcquireReader, SurvivalEvent::Failed { error }) => next
            == (SurvivalPhase::Ended {
            verdict: Verdict::Failed {
                fault: SandboxFault::Failed { context: acquire_reader_context(survival), error },
            },
        }),
        (SurvivalPhase::Read, SurvivalEvent::Output { output }) => if shows_marker(
            output,
            marker,
        ) && survival == Survival::ProtocolAndWorkdir {
            next == SurvivalPhase::ReaderProtocol
        } else {
            next matches SurvivalPhase::StopReader { fault } && is_read_fault(
                output,
                marker,
                fault,
            )
        },
        (SurvivalPhase::Read, SurvivalEvent::Failed { error }) => next
            == (SurvivalPhase::StopReader {
            fault: Some(
                SandboxFault::Failed { context: "read durable filesystem marker", error },
            ),
        }),
        (SurvivalPhase::ReaderProtocol, SurvivalEvent::Protocol { fault }) => next
            == (SurvivalPhase::StopReader { fault: process_fault(fault) }),
        (SurvivalPhase::StopReader { fault }, _) => next == (SurvivalPhase::Ended {
            verdict: verdict(fault, stop_reader_context(survival), stop_error(event)),
        }),
        _ => true,
    }
}

/// Such a contract being run.
#[derive(Debug)]
pub struct SurvivalRun {
    pub survival: Survival,
    pub mount_path: String,
    pub marker: String,
    pub phase: SurvivalPhase,
}

/// The prefix of a contract's marker.
#[verifier::allow_in_spec]
pub fn marker_prefix(survival: Survival) -> &'static str
    returns
        (match survival {
            Survival::DurableFileSystem => "durable",
            Survival::Workdir => "workdir",
            Survival::ProtocolAndWorkdir => "protocol-workdir",
        }),
{
    match survival {
        Survival::DurableFileSystem => "durable",
        Survival::Workdir => "workdir",
        Survival::ProtocolAndWorkdir => "protocol-workdir",
    }
}

impl SurvivalRun {
    /// Whether this is a contract at its start.
    pub open spec fn starts(self, survival: Survival, mount_path: Seq<char>, id: Uuid7) -> bool {
        &&& self.survival == survival
        &&& self.mount_path@ == mount_path
        &&& self.marker@ == marker_prefix(survival)@ + "-"@ + ids::uuid_text(id.bits)
        &&& self.phase == SurvivalPhase::AcquireWriter
    }

    /// A contract at its start.
    fn start(survival: Survival, mount_path: &str, id: Uuid7) -> (run: SurvivalRun)
        ensures
            run.starts(survival, mount_path@, id),
    {
        SurvivalRun {
            survival,
            mount_path: mount_path.to_owned(),
            marker: process::unique_slug(marker_prefix(survival), id),
            phase: SurvivalPhase::AcquireWriter,
        }
    }

    /// Whether there is something left to do.
    pub open spec fn is_running(self) -> bool {
        !(self.phase is Ended)
    }

    /// Whether an effect is what the contract's phase asks for.
    pub open spec fn asks(self, effect: SurvivalEffect) -> bool {
        match self.phase {
            SurvivalPhase::AcquireWriter => effect == (SurvivalEffect::Acquire {
                context: acquire_writer_context(self.survival),
            }),
            SurvivalPhase::WriterProtocol | SurvivalPhase::ReaderProtocol => effect
                == SurvivalEffect::RunProtocol,
            SurvivalPhase::Write => effect matches SurvivalEffect::Run { command, context }
                && command@ == process::shell_view(
                "-lc"@,
                write_source(),
                seq![
                    ("EXO_DURABLE_MOUNT"@, self.mount_path@),
                    ("EXO_DURABLE_MARKER"@, self.marker@),
                ],
            ) && context == "write durable filesystem marker",
            SurvivalPhase::StopWriter { .. } => effect == (SurvivalEffect::Stop {
                context: stop_writer_context(self.survival),
            }),
            SurvivalPhase::AcquireReader => effect == (SurvivalEffect::Acquire {
                context: acquire_reader_context(self.survival),
            }),
            SurvivalPhase::Read => effect matches SurvivalEffect::Run { command, context }
                && command@ == process::shell_view(
                "-lc"@,
                read_source(),
                seq![("EXO_DURABLE_MOUNT"@, self.mount_path@)],
            ) && context == "read durable filesystem marker",
            SurvivalPhase::StopReader { .. } => effect == (SurvivalEffect::Stop {
                context: stop_reader_context(self.survival),
            }),
            SurvivalPhase::Ended { .. } => effect == SurvivalEffect::End,
        }
    }

    /// What to do next.
    pub fn effect(&self) -> (effect: SurvivalEffect)
        ensures
            self.asks(effect),
    {
        match &self.phase {
            SurvivalPhase::AcquireWriter => SurvivalEffect::Acquire {
                context: acquire_writer_context(self.survival),
            },
            SurvivalPhase::WriterProtocol => SurvivalEffect::RunProtocol,
            SurvivalPhase::ReaderProtocol => SurvivalEffect::RunProtocol,
            SurvivalPhase::Write => SurvivalEffect::Run {
                command: write_durable_marker(self.mount_path.as_str(), self.marker.as_str()),
                context: "write durable filesystem marker",
            },
            SurvivalPhase::StopWriter { .. } => SurvivalEffect::Stop {
                context: stop_writer_context(self.survival),
            },
            SurvivalPhase::AcquireReader => SurvivalEffect::Acquire {
                context: acquire_reader_context(self.survival),
            },
            SurvivalPhase::Read => SurvivalEffect::Run {
                command: read_durable_marker(self.mount_path.as_str()),
                context: "read durable filesystem marker",
            },
            SurvivalPhase::StopReader { .. } => SurvivalEffect::Stop {
                context: stop_reader_context(self.survival),
            },
            SurvivalPhase::Ended { .. } => SurvivalEffect::End,
        }
    }

    /// Go on with what came of it.
    pub fn advance(&mut self, event: SurvivalEvent)
        requires
            answers(old(self).phase, event),
        ensures
            final(self).survival == old(self).survival,
            final(self).mount_path == old(self).mount_path,
            final(self).marker == old(self).marker,
            is_next(
                old(self).survival,
                old(self).marker@,
                old(self).phase,
                event,
                final(self).phase,
            ),
    {
        let mut phase = SurvivalPhase::AcquireReader;
        std::mem::swap(&mut phase, &mut self.phase);
        let next = match (phase, event) {
            (SurvivalPhase::AcquireWriter, SurvivalEvent::Acquired) => match self.survival {
                Survival::ProtocolAndWorkdir => SurvivalPhase::WriterProtocol,
                _ => SurvivalPhase::Write,
            },
            (SurvivalPhase::AcquireWriter, SurvivalEvent::Failed { error }) => {
                SurvivalPhase::Ended {
                    verdict: Verdict::Failed {
                        fault: SandboxFault::Failed {
                            context: acquire_writer_context(self.survival),
                            error,
                        },
                    },
                }
            },
            (SurvivalPhase::WriterProtocol, SurvivalEvent::Protocol { fault }) => match fault {
                Some(fault) => SurvivalPhase::StopWriter {
                    fault: Some(SandboxFault::Process { fault }),
                },
                None => SurvivalPhase::Write,
            },
            (SurvivalPhase::Write, SurvivalEvent::Output { output }) => SurvivalPhase::StopWriter {
                fault: judge_write(output),
            },
            (SurvivalPhase::Write, SurvivalEvent::Failed { error }) => SurvivalPhase::StopWriter {
                fault: Some(
                    SandboxFault::Failed { context: "write durable filesystem marker", error },
                ),
            },
            (SurvivalPhase::StopWriter { fault }, event) => {
                let error = match event {
                    SurvivalEvent::Failed { error } => Some(error),
                    _ => None,
                };
                match stop_after_contract(fault, stop_writer_context(self.survival), error) {
                    Verdict::Passed => SurvivalPhase::AcquireReader,
                    ending => SurvivalPhase::Ended { verdict: ending },
                }
            },
            (SurvivalPhase::AcquireReader, SurvivalEvent::Acquired) => SurvivalPhase::Read,
            (SurvivalPhase::AcquireReader, SurvivalEvent::Failed { error }) => {
                SurvivalPhase::Ended {
                    verdict: Verdict::Failed {
                        fault: SandboxFault::Failed {
                            context: acquire_reader_context(self.survival),
                            error,
                        },
                    },
                }
            },
            (SurvivalPhase::Read, SurvivalEvent::Output { output }) => {
                let fault = judge_read(output, self.marker.as_str());
                match (fault, self.survival) {
                    (None, Survival::ProtocolAndWorkdir) => SurvivalPhase::ReaderProtocol,
                    (fault, _) => SurvivalPhase::StopReader { fault },
                }
            },
            (SurvivalPhase::Read, SurvivalEvent::Failed { error }) => SurvivalPhase::StopReader {
                fault: Some(
                    SandboxFault::Failed { context: "read durable filesystem marker", error },
                ),
            },
            (SurvivalPhase::ReaderProtocol, SurvivalEvent::Protocol { fault }) => {
                SurvivalPhase::StopReader {
                    fault: match fault {
                        Some(fault) => Some(SandboxFault::Process { fault }),
                        None => None,
                    },
                }
            },
            (SurvivalPhase::StopReader { fault }, event) => {
                let error = match event {
                    SurvivalEvent::Failed { error } => Some(error),
                    _ => None,
                };
                SurvivalPhase::Ended {
                    verdict: stop_after_contract(
                        fault,
                        stop_reader_context(self.survival),
                        error,
                    ),
                }
            },
            (phase, _) => phase,
        };
        self.phase = next;
    }
}

/// A durable file system keeps what was written when its sandbox is stopped
/// and acquired again.
pub fn sandbox_backend_durable_file_system_survives_stop_and_reacquire(
    durable_mounts: &Vec<String>,
    id: Uuid7,
) -> (run: Result<SurvivalRun, SandboxFault>)
    ensures
        match run {
            Ok(run) => durable_mounts.len() > 0 && run.starts(
                Survival::DurableFileSystem,
                durable_mounts@[0]@,
                id,
            ),
            Err(fault) => durable_mounts.len() == 0 && fault == SandboxFault::NoDurableFileSystem,
        },
{
    if durable_mounts.len() == 0 {
        return Err(SandboxFault::NoDurableFileSystem);
    }
    Ok(SurvivalRun::start(Survival::DurableFileSystem, durable_mounts[0].as_str(), id))
}

/// The default directory keeps what was written when its sandbox is stopped
/// and acquired again.
pub fn sandbox_backend_workdir_survives_stop_and_reacquire(
    default_workdir: &str,
    id: Uuid7,
) -> (run: SurvivalRun)
    ensures
        run.starts(Survival::Workdir, default_workdir@, id),
{
    SurvivalRun::start(Survival::Workdir, default_workdir, id)
}

/// The default directory keeps what was written, and processes run as before,
/// when the sandbox is stopped and acquired again.
pub fn sandbox_backend_long_running_process_and_workdir_survive_stop_and_reacquire(
    default_workdir: &str,
    id: Uuid7,
) -> (run: SurvivalRun)
    ensures
        run.starts(Survival::ProtocolAndWorkdir, default_workdir@, id),
{
    SurvivalRun::start(Survival::ProtocolAndWorkdir, default_workdir, id)
}

/// Whatever is acquired is stopped: once a sandbox was acquired, the contract
/// does not end before it stopped that one.
pub proof fn an_acquired_sandbox_is_stopped(
    survival: Survival,
    marker: Seq<char>,
    phase: SurvivalPhase,
    event: SurvivalEvent,
    next: SurvivalPhase,
)
    requires
        answers(phase, event),
        is_next(survival, marker, phase, event, next),
        next is Ended,
    ensures
        phase is StopWriter || phase is StopReader || ((phase is AcquireWriter
            || phase is AcquireReader) && event is Failed),
{
}

/// A contract passes only where the second sandbox showed the marker: the
/// stop that ends it well carries no fault, and such a stop comes of a marker
/// that was shown, or of the protocol contract that passed after it.
pub proof fn a_pass_has_shown_the_marker(
    survival: Survival,
    marker: Seq<char>,
    phase: SurvivalPhase,
    event: SurvivalEvent,
    next: SurvivalPhase,
)
    requires
        answers(phase, event),
        is_next(survival, marker, phase, event, next),
    ensures
        next == (SurvivalPhase::Ended { verdict: Verdict::Passed }) ==> phase
            == (SurvivalPhase::StopReader { fault: None }),
        next == (SurvivalPhase::StopReader { fault: None }) ==> (phase is ReaderProtocol || (
        event matches SurvivalEvent::Output { output } && shows_marker(output, marker))),
        next is ReaderProtocol ==> (event matches SurvivalEvent::Output { output } && shows_marker(
            output,
            marker,
        )),
{
}

} // verus!
