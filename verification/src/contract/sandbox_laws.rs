//! What a sandbox's contracts find wrong, told by what came back.

use vstd::prelude::*;
use vstd::utf8::*;

use super::process::{
    self, Output, ProcessFault, ProcessReply, ProcessStep, SandboxCommand,
};
use super::survival::{
    self, CommandOutput, SandboxFault, Survival, SurvivalEvent, SurvivalPhase, Verdict,
};
use crate::text;

verus! {

/// What was read is taken exactly where it is what was expected, byte for byte;
/// anything else is a fault that shows what came.
pub proof fn output_has_to_be_as_expected(
    expected: &'static str,
    output: Output,
    late: &'static str,
    context: &'static str,
    exit_code: i32,
    stderr: Seq<char>,
    bytes: Vec<u8>,
)
    ensures
        match process::fault_of(
            ProcessStep::Read { expected, output, late, context },
            exit_code,
            stderr,
            ProcessReply::Read { bytes },
        ) {
            None => bytes@ == encode_utf8(expected@),
            Some(fault) => bytes@ != encode_utf8(expected@) && fault == (ProcessFault::Unexpected {
                output,
                context,
                expected,
                bytes,
            }),
        },
{
}

/// A process has to exit with 0, and to have written what it was to write to its
/// errors. The exit code goes first.
pub proof fn processes_have_to_exit_well(
    protocol: bool,
    late: &'static str,
    context: &'static str,
    exit_code: i32,
    expected: Seq<char>,
    stderr: String,
)
    ensures
        ({
            let fault = process::fault_of(
                ProcessStep::DrainStderr { protocol, late, context },
                exit_code,
                expected,
                ProcessReply::Stderr { stderr },
            );
            if exit_code != 0 {
                fault == Some(ProcessFault::ExitCode { protocol, code: exit_code, stderr })
            } else if stderr@ != expected {
                fault == Some(ProcessFault::UnexpectedStderr { protocol, stderr })
            } else {
                fault is None
            }
        }),
{
}

/// Whether a step can take too long, in which case this is said of it.
pub open spec fn can_be_late(step: ProcessStep, words: &'static str) -> bool {
    match step {
        ProcessStep::Read { late, .. } => words == late,
        ProcessStep::Wait { late, .. } => words == late,
        ProcessStep::DrainStderr { late, .. } => words == late,
        _ => false,
    }
}

/// Whether this is said of a step that fails.
pub open spec fn is_said_of(step: ProcessStep, words: &'static str) -> bool {
    match step {
        ProcessStep::Start { context } => words == context,
        ProcessStep::Read { context, .. } => words == context,
        ProcessStep::Write { context, .. } => words == context,
        ProcessStep::CloseStdin { context } => words == context,
        ProcessStep::Wait { context, .. } => words == context,
        ProcessStep::DrainStderr { context, .. } => words == context,
    }
}

/// A step that fails is a fault in the words meant for it, and one that takes
/// too long in the words meant for that, with the error that came. A step that
/// is just done, and an exit, are none.
pub proof fn failures_are_faults(
    step: ProcessStep,
    exit_code: i32,
    expected: Seq<char>,
    error: String,
    code: i32,
)
    ensures
        process::fault_of(step, exit_code, expected, ProcessReply::Failed { error })
            matches Some(ProcessFault::Failed { context, error: told }) && told == error
            && is_said_of(step, context),
        process::answers(step, ProcessReply::TimedOut { error }) ==> (process::fault_of(
            step,
            exit_code,
            expected,
            ProcessReply::TimedOut { error },
        ) matches Some(ProcessFault::Failed { context, error: told }) && told == error
            && can_be_late(step, context)),
        process::fault_of(step, exit_code, expected, ProcessReply::Done) is None,
        process::fault_of(step, exit_code, expected, ProcessReply::Exited { code }) is None,
        process::code_after(exit_code, ProcessReply::Exited { code }) == code,
        process::code_after(exit_code, ProcessReply::Done) == exit_code,
        process::code_after(exit_code, ProcessReply::Failed { error }) == exit_code,
        process::code_after(exit_code, ProcessReply::Stderr { stderr: error }) == exit_code,
{
}

/// A verdict hides nothing: it is a pass exactly where nothing went wrong and
/// the sandbox was stopped, and otherwise tells what went wrong, why the stop
/// failed, or both.
pub proof fn verdicts_hide_nothing(
    fault: Option<SandboxFault>,
    context: &'static str,
    stop_error: Option<String>,
)
    ensures
        survival::verdict(fault, context, stop_error) is Passed <==> fault is None
            && stop_error is None,
        fault matches Some(wrong) ==> match survival::verdict(fault, context, stop_error) {
            Verdict::Failed { fault: told } => told == wrong && stop_error is None,
            Verdict::FailedAndNotStopped { fault: told, .. } => told == wrong
                && stop_error is Some,
            _ => false,
        },
        stop_error matches Some(why) ==> match survival::verdict(fault, context, stop_error) {
            Verdict::NotStopped { context: words, error } => words == context && error == why
                && fault is None,
            Verdict::FailedAndNotStopped { context: words, error, .. } => words == context && error
                == why && fault is Some,
            _ => false,
        },
{
}

/// What comes of the first sandbox: it is written into once it was acquired,
/// after the protocol contract where that has to hold too, and whatever went
/// wrong in it is carried to its stop. It is acquired again only where nothing
/// went wrong.
pub proof fn a_writer_writes_and_is_stopped(
    survival: Survival,
    marker: Seq<char>,
    event: SurvivalEvent,
    next: SurvivalPhase,
    fault: Option<SandboxFault>,
)
    ensures
        survival::is_next(survival, marker, SurvivalPhase::AcquireWriter, event, next)
            && event is Acquired ==> (if survival == Survival::ProtocolAndWorkdir {
            next is WriterProtocol
        } else {
            next is Write
        }),
        survival::is_next(survival, marker, SurvivalPhase::WriterProtocol, event, next) ==> (
        event matches SurvivalEvent::Protocol { fault: found } ==> (match found {
            None => next is Write,
            Some(wrong) => next == (SurvivalPhase::StopWriter {
                fault: Some(SandboxFault::Process { fault: wrong }),
            }),
        })),
        survival::is_next(survival, marker, SurvivalPhase::Write, event, next) ==> (match event {
            SurvivalEvent::Output { output } => next == (SurvivalPhase::StopWriter {
                fault: if output.ok {
                    None
                } else {
                    Some(SandboxFault::MarkerNotWritten { output })
                },
            }),
            SurvivalEvent::Failed { error } => next matches SurvivalPhase::StopWriter {
                fault: Some(SandboxFault::Failed { error: told, .. }),
            } && told == error,
            _ => true,
        }),
        survival::is_next(survival, marker, SurvivalPhase::StopWriter { fault }, event, next)
            && survival::answers(SurvivalPhase::StopWriter { fault }, event) ==> (
        next is AcquireReader <==> fault is None && event is Stopped),
{
}

/// What comes of the second sandbox: it is read once it was acquired, and what
/// is read has to be the marker; then the protocol contract is run where that
/// has to hold too. Whatever went wrong in it is carried to its stop.
pub proof fn a_reader_has_to_find_the_marker(
    survival: Survival,
    marker: Seq<char>,
    event: SurvivalEvent,
    next: SurvivalPhase,
    output: CommandOutput,
)
    ensures
        survival::is_next(survival, marker, SurvivalPhase::AcquireReader, event, next)
            && event is Acquired ==> next is Read,
        survival::is_next(
            survival,
            marker,
            SurvivalPhase::Read,
            SurvivalEvent::Output { output },
            next,
        ) ==> (if !output.ok {
            next == (SurvivalPhase::StopReader {
                fault: Some(SandboxFault::MarkerNotRead { output }),
            })
        } else if output.stdout@ != marker {
            next matches SurvivalPhase::StopReader {
                fault: Some(SandboxFault::MarkerMismatch { expected, found }),
            } && expected@ == marker && found@ == output.stdout@
        } else if survival == Survival::ProtocolAndWorkdir {
            next is ReaderProtocol
        } else {
            next == (SurvivalPhase::StopReader { fault: None })
        }),
        survival::is_next(survival, marker, SurvivalPhase::ReaderProtocol, event, next) ==> (
        event matches SurvivalEvent::Protocol { fault: found } ==> (match found {
            None => next == (SurvivalPhase::StopReader { fault: None }),
            Some(wrong) => next == (SurvivalPhase::StopReader {
                fault: Some(SandboxFault::Process { fault: wrong }),
            }),
        })),
{
}

/// How a contract ends: after the second stop, well exactly where nothing was
/// carried to it and it went well; before that only where an acquisition, or
/// the first sandbox, went wrong.
pub proof fn a_contract_ends_as_it_went(
    survival: Survival,
    marker: Seq<char>,
    event: SurvivalEvent,
    next: SurvivalPhase,
    fault: Option<SandboxFault>,
)
    requires
        event is Stopped || event is Failed,
    ensures
        survival::is_next(survival, marker, SurvivalPhase::StopReader { fault }, event, next) ==> (
        next matches SurvivalPhase::Ended { verdict } && (verdict is Passed <==> fault is None
            && event is Stopped)),
        survival::is_next(survival, marker, SurvivalPhase::StopWriter { fault }, event, next) ==> (
        next matches SurvivalPhase::Ended { verdict } ==> !(verdict is Passed)),
        survival::is_next(survival, marker, SurvivalPhase::AcquireWriter, event, next)
            && event is Failed ==> (next matches SurvivalPhase::Ended {
            verdict: Verdict::Failed { fault: SandboxFault::Failed { error, .. } },
        } && error == event->error),
        survival::is_next(survival, marker, SurvivalPhase::AcquireReader, event, next)
            && event is Failed ==> (next matches SurvivalPhase::Ended {
            verdict: Verdict::Failed { fault: SandboxFault::Failed { error, .. } },
        } && error == event->error),
{
}

/// Whether two commands are the same.
pub open spec fn same_command(a: SandboxCommand, b: SandboxCommand) -> bool {
    &&& a.timeout_secs == b.timeout_secs
    &&& a.argv.len() == b.argv.len()
    &&& a.env.len() == b.env.len()
    &&& forall|i: int| 0 <= i < a.argv.len() ==> (#[trigger] a.argv@[i])@ == b.argv@[i]@
    &&& forall|i: int|
        0 <= i < a.env.len() ==> (#[trigger] a.env@[i]).0@ == b.env@[i].0@ && a.env@[i].1@
            == b.env@[i].1@
}

/// A command's view shows its words, its environment and its time limit.
pub proof fn a_command_shows_every_field(a: SandboxCommand, b: SandboxCommand)
    requires
        a@ == b@,
    ensures
        same_command(a, b),
{
    assert(text::views(a.argv@).len() == text::views(b.argv@).len());
    let x = a@.env;
    let y = b@.env;
    assert(x.len() == a.env@.len() && y.len() == b.env@.len());
    assert forall|i: int| 0 <= i < a.argv.len() implies (#[trigger] a.argv@[i])@
        == b.argv@[i]@ by {
        assert(text::views(a.argv@)[i] == text::views(b.argv@)[i]);
    }
    assert forall|i: int| 0 <= i < a.env.len() implies (#[trigger] a.env@[i]).0@ == b.env@[i].0@
        && a.env@[i].1@ == b.env@[i].1@ by {
        assert(x[i] == (a.env@[i].0@, a.env@[i].1@));
        assert(y[i] == (b.env@[i].0@, b.env@[i].1@));
    }
}

/// A shell command is run by the shell with its source, and nothing else.
pub proof fn a_shell_runs_its_source(
    flag: Seq<char>,
    source: Seq<char>,
    env: Seq<(Seq<char>, Seq<char>)>,
)
    ensures
        ({
            let command = process::shell_view(flag, source, env);
            &&& command.argv.len() == 3
            &&& command.argv[0] == "/bin/sh"@
            &&& command.argv[1] == flag
            &&& command.argv[2] == source
            &&& command.env == env
        }),
{
}

/// The exit code that is known before a reply.
pub open spec fn code_before(replies: Seq<ProcessReply>, i: int) -> i32
    decreases i,
{
    if i <= 0 {
        0
    } else {
        match replies[i - 1] {
            ProcessReply::Exited { code } => code,
            _ => code_before(replies, i - 1),
        }
    }
}

/// Whether a process passed a contract with these replies: nothing is wrong with
/// any of them.
pub open spec fn process_passed(
    steps: Seq<ProcessStep>,
    expected: Seq<char>,
    replies: Seq<ProcessReply>,
) -> bool {
    &&& replies.len() == steps.len()
    &&& forall|i: int|
        0 <= i < steps.len() ==> process::answers(steps[i], #[trigger] replies[i])
            && process::fault_of(steps[i], code_before(replies, i), expected, replies[i]) is None
}

/// Whether a reply is that some text was read.
pub open spec fn reads(reply: ProcessReply, text: &'static str) -> bool {
    reply matches ProcessReply::Read { bytes } && bytes@ == encode_utf8(text@)
}

/// Whether a step writes some text.
pub open spec fn writes(step: ProcessStep, text: &'static str) -> bool {
    step matches ProcessStep::Write { input, .. } && input == text
}

/// A process that passes streamed its output before and after its input was
/// written, saw its environment, and exited cleanly with no errors.
pub proof fn a_passing_process_is_interactive(replies: Seq<ProcessReply>)
    requires
        process_passed(process::interactive_steps(), ""@, replies),
    ensures
        replies.len() == 7,
        reads(replies[1], "ready\n"),
        writes(process::interactive_steps()[2], "contract-stdin-value\n"),
        process::interactive_steps()[3] is CloseStdin,
        reads(replies[4], "env=contract-env-value input=contract-stdin-value\n"),
        replies[5] == (ProcessReply::Exited { code: 0 }),
        replies[6] matches ProcessReply::Stderr { stderr } && stderr@ == ""@,
{
    let steps = process::interactive_steps();
    assert(process::answers(steps[1], replies[1]));
    assert(process::answers(steps[4], replies[4]));
    assert(process::answers(steps[5], replies[5]));
    assert(process::answers(steps[6], replies[6]));
    assert(code_before(replies, 6) == replies[5]->code);
}

/// A process that passes answered each request before the next was written, kept
/// its errors apart from its output, and exited when asked to.
pub proof fn a_passing_process_speaks_the_protocol(replies: Seq<ProcessReply>)
    requires
        process_passed(process::protocol_steps(), "protocol-stderr-two\n"@, replies),
    ensures
        replies.len() == 11,
        reads(replies[1], "protocol-ready\n"),
        writes(process::protocol_steps()[2], "request-one\n"),
        reads(replies[3], "response-one\n"),
        writes(process::protocol_steps()[4], "request-two\n"),
        reads(replies[5], "response-two\n"),
        writes(process::protocol_steps()[6], "request-three\n"),
        process::protocol_steps()[7] is CloseStdin,
        reads(replies[8], "response-three\n"),
        replies[9] == (ProcessReply::Exited { code: 0 }),
        replies[10] matches ProcessReply::Stderr { stderr } && stderr@
            == "protocol-stderr-two\n"@,
{
    let steps = process::protocol_steps();
    assert(process::answers(steps[1], replies[1]));
    assert(process::answers(steps[3], replies[3]));
    assert(process::answers(steps[5], replies[5]));
    assert(process::answers(steps[8], replies[8]));
    assert(process::answers(steps[9], replies[9]));
    assert(process::answers(steps[10], replies[10]));
    assert(code_before(replies, 10) == replies[9]->code);
}

} // verus!
