//! What a process in a sandbox has to keep: its output streams while it runs,
//! its input reaches it, and its exit is seen.

use vstd::prelude::*;
use vstd::utf8::*;

use crate::ids::{self, Uuid7};
use crate::text;

verus! {

/// How long a contract's command may run, in seconds.
pub const COMMAND_TIMEOUT_SECS: u64 = 30;

/// How long a contract waits for output, in seconds.
pub const READ_TIMEOUT_SECS: u64 = 10;

/// How long a contract waits for a process to exit, in seconds.
pub const WAIT_TIMEOUT_SECS: u64 = 30;

/// How long a contract waits for the rest of the errors, in seconds.
pub const DRAIN_TIMEOUT_SECS: u64 = 5;

/// A command for a sandbox, run in its default directory.
#[derive(Debug)]
pub struct SandboxCommand {
    pub argv: Vec<String>,
    pub env: Vec<(String, String)>,
    pub timeout_secs: u64,
}

/// The contents of a [`SandboxCommand`].
#[verifier::ext_equal]
pub struct CommandView {
    pub argv: Seq<Seq<char>>,
    pub env: Seq<(Seq<char>, Seq<char>)>,
    pub timeout_secs: u64,
}

impl View for SandboxCommand {
    type V = CommandView;

    open spec fn view(&self) -> CommandView {
        CommandView {
            argv: text::views(self.argv@),
            env: self.env@.map_values(|pair: (String, String)| (pair.0@, pair.1@)),
            timeout_secs: self.timeout_secs,
        }
    }
}

/// A shell command with some environment.
pub open spec fn shell_view(
    flag: Seq<char>,
    source: Seq<char>,
    env: Seq<(Seq<char>, Seq<char>)>,
) -> CommandView {
    CommandView {
        argv: seq!["/bin/sh"@, flag, source],
        env,
        timeout_secs: COMMAND_TIMEOUT_SECS,
    }
}

/// A shell command with some environment.
pub fn shell(flag: &str, source: &str, env: Vec<(String, String)>) -> (command: SandboxCommand)
    ensures
        command@ == shell_view(
            flag@,
            source@,
            env@.map_values(|pair: (String, String)| (pair.0@, pair.1@)),
        ),
{
    let mut argv: Vec<String> = Vec::new();
    argv.push("/bin/sh".to_owned());
    argv.push(flag.to_owned());
    argv.push(source.to_owned());
    assert(text::views(argv@) =~= seq!["/bin/sh"@, flag@, source@]);
    SandboxCommand { argv, env, timeout_secs: COMMAND_TIMEOUT_SECS }
}

/// A name that nothing else has: the prefix, and an id.
pub fn unique_slug(prefix: &str, id: Uuid7) -> (slug: String)
    ensures
        slug@ == prefix@ + "-"@ + ids::uuid_text(id.bits),
{
    let mut slug = prefix.to_owned();
    slug.append("-");
    slug.append(id.to_text().as_str());
    slug
}

/// Which output is read.
#[derive(Debug, Clone, Copy, PartialEq, Eq, Structural)]
pub enum Output {
    ReadyMarker,
    Stdout,
    Protocol,
}

/// A step of a process contract.
#[derive(Debug, Clone, Copy)]
pub enum ProcessStep {
    Start { context: &'static str },
    /// Read as much output as is expected.
    Read {
        expected: &'static str,
        output: Output,
        late: &'static str,
        context: &'static str,
    },
    Write { input: &'static str, context: &'static str },
    CloseStdin { context: &'static str },
    Wait { late: &'static str, context: &'static str },
    /// Read the rest of the errors; `protocol` is whether the process was to
    /// speak the protocol.
    DrainStderr { protocol: bool, late: &'static str, context: &'static str },
}

/// What comes back from a step.
#[derive(Debug)]
pub enum ProcessReply {
    Done,
    Read { bytes: Vec<u8> },
    Exited { code: i32 },
    Stderr { stderr: String },
    Failed { error: String },
    /// The step took too long.
    TimedOut { error: String },
}

/// How a process broke its contract.
#[derive(Debug)]
pub enum ProcessFault {
    /// Something failed.
    Failed { context: &'static str, error: String },
    /// Other output came than is expected.
    Unexpected {
        output: Output,
        context: &'static str,
        expected: &'static str,
        bytes: Vec<u8>,
    },
    ExitCode { protocol: bool, code: i32, stderr: String },
    UnexpectedStderr { protocol: bool, stderr: String },
}

/// Whether this is a reply to that step.
pub open spec fn answers(step: ProcessStep, reply: ProcessReply) -> bool {
    match step {
        ProcessStep::Start { .. }
        | ProcessStep::Write { .. }
        | ProcessStep::CloseStdin { .. } => reply is Done || reply is Failed,
        ProcessStep::Read { .. } => reply is Read || reply is Failed || reply is TimedOut,
        ProcessStep::Wait { .. } => reply is Exited || reply is Failed || reply is TimedOut,
        ProcessStep::DrainStderr { .. } => reply is Stderr || reply is Failed
            || reply is TimedOut,
    }
}

/// The text that goes before the reason of a failure.
pub open spec fn context_of(step: ProcessStep) -> &'static str {
    match step {
        ProcessStep::Start { context } => context,
        ProcessStep::Read { context, .. } => context,
        ProcessStep::Write { context, .. } => context,
        ProcessStep::CloseStdin { context } => context,
        ProcessStep::Wait { context, .. } => context,
        ProcessStep::DrainStderr { context, .. } => context,
    }
}

/// The text that goes before the reason of a step that took too long.
pub open spec fn late_of(step: ProcessStep) -> &'static str {
    match step {
        ProcessStep::Read { late, .. } => late,
        ProcessStep::Wait { late, .. } => late,
        ProcessStep::DrainStderr { late, .. } => late,
        _ => context_of(step),
    }
}

/// What is wrong with a reply, if anything is. The exit code is judged once
/// the errors were read, and goes before them.
pub open spec fn fault_of(
    step: ProcessStep,
    exit_code: i32,
    expected_stderr: Seq<char>,
    reply: ProcessReply,
) -> Option<ProcessFault> {
    match reply {
        ProcessReply::Failed { error } => Some(
            ProcessFault::Failed { context: context_of(step), error },
        ),
        ProcessReply::TimedOut { error } => Some(
            ProcessFault::Failed { context: late_of(step), error },
        ),
        ProcessReply::Read { bytes } => match step {
            ProcessStep::Read { expected, output, context, .. } => if bytes@
                == encode_utf8(expected@) {
                None
            } else {
                Some(ProcessFault::Unexpected { output, context, expected, bytes })
            },
            _ => None,
        },
        ProcessReply::Stderr { stderr } => match step {
            ProcessStep::DrainStderr { protocol, .. } => if exit_code != 0 {
                Some(ProcessFault::ExitCode { protocol, code: exit_code, stderr })
            } else if stderr@ != expected_stderr {
                Some(ProcessFault::UnexpectedStderr { protocol, stderr })
            } else {
                None
            },
            _ => None,
        },
        _ => None,
    }
}

/// The exit code known after a reply.
pub open spec fn code_after(exit_code: i32, reply: ProcessReply) -> i32 {
    match reply {
        ProcessReply::Exited { code } => code,
        _ => exit_code,
    }
}

/// How a process contract stands after a reply.
#[derive(Debug)]
pub enum ProcessProgress {
    Next,
    Passed,
    Violated { fault: ProcessFault },
}

/// A process contract being run.
pub struct ProcessRun {
    pub steps: Vec<ProcessStep>,
    pub expected_stderr: &'static str,
    pub at: usize,
    pub exit_code: i32,
}

/// Whether two byte strings are the same.
fn same_bytes(a: &Vec<u8>, b: &[u8]) -> (same: bool)
    ensures
        same == (a@ == b@),
{
    if a.len() != b.len() {
        return false;
    }
    let mut i: usize = 0;
    while i < a.len()
        invariant
            i <= a.len(),
            a.len() == b@.len(),
            forall|j: int| 0 <= j < i ==> a@[j] == b@[j],
        decreases a.len() - i,
    {
        if a[i] != b[i] {
            return false;
        }
        i += 1;
    }
    assert(a@ =~= b@);
    true
}

impl ProcessRun {
    /// A contract at its start.
    pub open spec fn starts(self, steps: Seq<ProcessStep>, expected_stderr: &'static str) -> bool {
        &&& self.steps@ == steps
        &&& self.expected_stderr == expected_stderr
        &&& self.at == 0
        &&& self.exit_code == 0
    }

    /// Whether there is a step left to run.
    pub open spec fn is_running(self) -> bool {
        self.at < self.steps.len()
    }

    /// The step to run next.
    pub open spec fn next_step(self) -> ProcessStep {
        self.steps@[self.at as int]
    }

    /// The step to run next, if there is one.
    pub fn step(&self) -> (step: Option<ProcessStep>)
        ensures
            step == if self.is_running() {
                Some(self.next_step())
            } else {
                None
            },
    {
        if self.at < self.steps.len() {
            Some(self.steps[self.at])
        } else {
            None
        }
    }

    /// Judge the reply to that step, and go on.
    pub fn advance(&mut self, reply: ProcessReply) -> (progress: ProcessProgress)
        requires
            old(self).is_running(),
            answers(old(self).next_step(), reply),
        ensures
            final(self).steps == old(self).steps,
            final(self).expected_stderr == old(self).expected_stderr,
            match fault_of(
                old(self).next_step(),
                old(self).exit_code,
                old(self).expected_stderr@,
                reply,
            ) {
                Some(fault) => {
                    &&& *final(self) == *old(self)
                    &&& progress == (ProcessProgress::Violated { fault })
                },
                None => {
                    &&& final(self).at == old(self).at + 1
                    &&& final(self).exit_code == code_after(old(self).exit_code, reply)
                    &&& progress == if final(self).is_running() {
                        ProcessProgress::Next
                    } else {
                        ProcessProgress::Passed
                    }
                },
            },
    {
        let step = self.steps[self.at];
        match reply {
            ProcessReply::Failed { error } => {
                let context = match step {
                    ProcessStep::Start { context } => context,
                    ProcessStep::Read { context, .. } => context,
                    ProcessStep::Write { context, .. } => context,
                    ProcessStep::CloseStdin { context } => context,
                    ProcessStep::Wait { context, .. } => context,
                    ProcessStep::DrainStderr { context, .. } => context,
                };
                return ProcessProgress::Violated {
                    fault: ProcessFault::Failed { context, error },
                };
            },
            ProcessReply::TimedOut { error } => {
                let context = match step {
                    ProcessStep::Start { context } => context,
                    ProcessStep::Read { late, .. } => late,
                    ProcessStep::Write { context, .. } => context,
                    ProcessStep::CloseStdin { context } => context,
                    ProcessStep::Wait { late, .. } => late,
                    ProcessStep::DrainStderr { late, .. } => late,
                };
                return ProcessProgress::Violated {
                    fault: ProcessFault::Failed { context, error },
                };
            },
            ProcessReply::Read { bytes } => {
                match step {
                    ProcessStep::Read { expected, output, context, .. } => {
                        if !same_bytes(&bytes, expected.as_bytes()) {
                            return ProcessProgress::Violated {
                                fault: ProcessFault::Unexpected { output, context, expected, bytes },
                            };
                        }
                    },
                    _ => {},
                }
            },
            ProcessReply::Stderr { stderr } => {
                match step {
                    ProcessStep::DrainStderr { protocol, .. } => {
                        if self.exit_code != 0 {
                            return ProcessProgress::Violated {
                                fault: ProcessFault::ExitCode {
                                    protocol,
                                    code: self.exit_code,
                                    stderr,
                                },
                            };
                        }
                        if !text::str_eq(stderr.as_str(), self.expected_stderr) {
                            return ProcessProgress::Violated {
                                fault: ProcessFault::UnexpectedStderr { protocol, stderr },
                            };
                        }
                    },
                    _ => {},
                }
            },
            ProcessReply::Exited { code } => {
                self.exit_code = code;
            },
            ProcessReply::Done => {},
        }
        self.at += 1;
        if self.at < self.steps.len() {
            ProcessProgress::Next
        } else {
            ProcessProgress::Passed
        }
    }
}

/// The source of the command that
/// [`sandbox_handle_start_process_supports_interactive_stdio_and_env`] starts.
pub open spec fn interactive_source() -> Seq<char> {
    "printf 'ready\\n'; IFS= read -r line; printf 'env=%s input=%s\\n' \"$EXO_CONTRACT_ENV\" \"$line\""@
}

/// The command that
/// [`sandbox_handle_start_process_supports_interactive_stdio_and_env`] starts.
pub fn interactive_command() -> (command: SandboxCommand)
    ensures
        command@ == shell_view(
            "-c"@,
            interactive_source(),
            seq![("EXO_CONTRACT_ENV"@, "contract-env-value"@)],
        ),
{
    let mut env: Vec<(String, String)> = Vec::new();
    env.push(("EXO_CONTRACT_ENV".to_owned(), "contract-env-value".to_owned()));
    assert(env@.map_values(|pair: (String, String)| (pair.0@, pair.1@)) =~= seq![
        ("EXO_CONTRACT_ENV"@, "contract-env-value"@),
    ]);
    shell(
        "-c",
        "printf 'ready\\n'; IFS= read -r line; printf 'env=%s input=%s\\n' \"$EXO_CONTRACT_ENV\" \"$line\"",
        env,
    )
}

/// The steps of
/// [`sandbox_handle_start_process_supports_interactive_stdio_and_env`].
pub open spec fn interactive_steps() -> Seq<ProcessStep> {
    seq![
        ProcessStep::Start { context: "start_process should start before the command exits" },
        ProcessStep::Read {
            expected: "ready\n",
            output: Output::ReadyMarker,
            late: "process should stream initial stdout before stdin is written",
            context: "read ready marker",
        },
        ProcessStep::Write { input: "contract-stdin-value\n", context: "write process stdin" },
        ProcessStep::CloseStdin { context: "close process stdin" },
        ProcessStep::Read {
            expected: "env=contract-env-value input=contract-stdin-value\n",
            output: Output::Stdout,
            late: "process should stream stdout after stdin is written",
            context: "read final stdout",
        },
        ProcessStep::Wait {
            late: "process wait should finish after final stdout \"env=contract-env-value input=contract-stdin-value\\n\"",
            context: "process wait should succeed",
        },
        ProcessStep::DrainStderr {
            protocol: false,
            late: "stderr should drain after process exit",
            context: "read stderr",
        },
    ]
}

/// A process streams its output before and after its input is written, sees
/// its environment, and exits cleanly with no errors.
pub fn sandbox_handle_start_process_supports_interactive_stdio_and_env() -> (run: ProcessRun)
    ensures
        run.starts(interactive_steps(), ""),
{
    let mut steps: Vec<ProcessStep> = Vec::new();
    steps.push(
        ProcessStep::Start { context: "start_process should start before the command exits" },
    );
    steps.push(
        ProcessStep::Read {
            expected: "ready\n",
            output: Output::ReadyMarker,
            late: "process should stream initial stdout before stdin is written",
            context: "read ready marker",
        },
    );
    steps.push(
        ProcessStep::Write { input: "contract-stdin-value\n", context: "write process stdin" },
    );
    steps.push(ProcessStep::CloseStdin { context: "close process stdin" });
    steps.push(
        ProcessStep::Read {
            expected: "env=contract-env-value input=contract-stdin-value\n",
            output: Output::Stdout,
            late: "process should stream stdout after stdin is written",
            context: "read final stdout",
        },
    );
    steps.push(
        ProcessStep::Wait {
            late: "process wait should finish after final stdout \"env=contract-env-value input=contract-stdin-value\\n\"",
            context: "process wait should succeed",
        },
    );
    steps.push(
        ProcessStep::DrainStderr {
            protocol: false,
            late: "stderr should drain after process exit",
            context: "read stderr",
        },
    );
    assert(steps@ =~= interactive_steps());
    ProcessRun { steps, expected_stderr: "", at: 0, exit_code: 0 }
}

/// The source of the command that
/// [`sandbox_handle_start_process_supports_long_running_request_response_protocol`]
/// starts.
pub open spec fn protocol_source() -> Seq<char> {
    "printf 'protocol-ready\\n'\nwhile IFS= read -r line; do\n  case \"$line\" in\n    request-one) printf 'response-one\\n' ;;\n    request-two) printf 'protocol-stderr-two\\n' >&2; printf 'response-two\\n' ;;\n    request-three) printf 'response-three\\n'; exit 0 ;;\n    *) printf 'unexpected:%s\\n' \"$line\"; exit 9 ;;\n  esac\ndone\nexit 8"@
}

/// The command that
/// [`sandbox_handle_start_process_supports_long_running_request_response_protocol`]
/// starts.
pub fn protocol_command() -> (command: SandboxCommand)
    ensures
        command@ == shell_view("-c"@, protocol_source(), seq![]),
{
    let env: Vec<(String, String)> = Vec::new();
    assert(env@.map_values(|pair: (String, String)| (pair.0@, pair.1@)) =~= seq![]);
    shell(
        "-c",
        "printf 'protocol-ready\\n'\nwhile IFS= read -r line; do\n  case \"$line\" in\n    request-one) printf 'response-one\\n' ;;\n    request-two) printf 'protocol-stderr-two\\n' >&2; printf 'response-two\\n' ;;\n    request-three) printf 'response-three\\n'; exit 0 ;;\n    *) printf 'unexpected:%s\\n' \"$line\"; exit 9 ;;\n  esac\ndone\nexit 8",
        env,
    )
}

/// The reading of a line of the protocol.
#[verifier::allow_in_spec]
pub fn reading(expected: &'static str, context: &'static str) -> ProcessStep
    returns
        (ProcessStep::Read { expected, output: Output::Protocol, late: context, context }),
{
    ProcessStep::Read { expected, output: Output::Protocol, late: context, context }
}

/// The steps of
/// [`sandbox_handle_start_process_supports_long_running_request_response_protocol`].
pub open spec fn protocol_steps() -> Seq<ProcessStep> {
    seq![
        ProcessStep::Start {
            context: "start_process should start a long-running protocol process",
        },
        reading("protocol-ready\n", "read protocol ready marker"),
        ProcessStep::Write { input: "request-one\n", context: "write first protocol request" },
        reading("response-one\n", "read first protocol response"),
        ProcessStep::Write { input: "request-two\n", context: "write second protocol request" },
        reading("response-two\n", "read second protocol response"),
        ProcessStep::Write {
            input: "request-three\n",
            context: "write shutdown protocol request",
        },
        ProcessStep::CloseStdin { context: "close process stdin" },
        reading("response-three\n", "read shutdown protocol response"),
        ProcessStep::Wait {
            late: "protocol process wait should finish after shutdown",
            context: "protocol process wait should succeed",
        },
        ProcessStep::DrainStderr {
            protocol: true,
            late: "stderr should drain after protocol process exit",
            context: "read protocol stderr",
        },
    ]
}

/// A process that runs on answers each request before the next is written,
/// keeps its errors apart from its output, and exits when asked to.
pub fn sandbox_handle_start_process_supports_long_running_request_response_protocol() -> (run:
    ProcessRun)
    ensures
        run.starts(protocol_steps(), "protocol-stderr-two\n"),
{
    let mut steps: Vec<ProcessStep> = Vec::new();
    steps.push(
        ProcessStep::Start {
            context: "start_process should start a long-running protocol process",
        },
    );
    steps.push(reading("protocol-ready\n", "read protocol ready marker"));
    steps.push(
        ProcessStep::Write { input: "request-one\n", context: "write first protocol request" },
    );
    steps.push(reading("response-one\n", "read first protocol response"));
    steps.push(
        ProcessStep::Write { input: "request-two\n", context: "write second protocol request" },
    );
    steps.push(reading("response-two\n", "read second protocol response"));
    steps.push(
        ProcessStep::Write {
            input: "request-three\n",
            context: "write shutdown protocol request",
        },
    );
    steps.push(ProcessStep::CloseStdin { context: "close process stdin" });
    steps.push(reading("response-three\n", "read shutdown protocol response"));
    steps.push(
        ProcessStep::Wait {
            late: "protocol process wait should finish after shutdown",
            context: "protocol process wait should succeed",
        },
    );
    steps.push(
        ProcessStep::DrainStderr {
            protocol: true,
            late: "stderr should drain after protocol process exit",
            context: "read protocol stderr",
        },
    );
    assert(steps@ =~= protocol_steps());
    ProcessRun { steps, expected_stderr: "protocol-stderr-two\n", at: 0, exit_code: 0 }
}

} // verus!
