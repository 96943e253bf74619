//! Running a script against a harness.

use vstd::prelude::*;

use super::request::{self, Request};
use super::script::{self, Kept, Reply, Step};
use crate::ids::Uuid7;

verus! {

/// How a script stands after a reply.
#[derive(Debug, Clone, Copy, PartialEq, Eq)]
pub enum Progress {
    /// There is a next call to make.
    Next,
    /// Every call was answered as it has to be.
    Passed,
    /// This step was not.
    Violated { step: usize, label: &'static str },
}

/// A script being run.
pub struct ContractRun {
    pub script: Vec<Step>,
    /// What came back so far, a step each.
    pub kept: Vec<Kept>,
    /// An id that names nothing.
    pub unknown: Uuid7,
}

/// Whether replies answer the first steps of a script as they have to be
/// answered, each judged by what came back before it.
pub open spec fn all_met(script: Seq<Step>, replies: Seq<Reply>) -> bool {
    forall|i: int|
        0 <= i < replies.len() ==> #[trigger] script::is_met(
            script[i].expect,
            kept_before(replies, i),
            replies[i],
        )
}

/// What came back before a step.
pub open spec fn kept_before(replies: Seq<Reply>, step: int) -> Seq<Kept> {
    replies.take(step).map_values(|reply: Reply| script::kept_of(reply))
}

impl ContractRun {
    /// Whether there is a step left to run.
    pub open spec fn is_running(self) -> bool {
        self.kept.len() < self.script.len()
    }

    /// The run of a script that got these replies so far.
    pub open spec fn has_run(self, script: Seq<Step>, unknown: Uuid7, replies: Seq<Reply>) -> bool {
        &&& self.script@ == script
        &&& self.unknown == unknown
        &&& replies.len() <= script.len()
        &&& self.kept@ == kept_before(replies, replies.len() as int)
        &&& all_met(script, replies)
    }

    /// A script at its start.
    pub fn new(script: Vec<Step>, unknown: Uuid7) -> (run: ContractRun)
        ensures
            run.has_run(script@, unknown, Seq::empty()),
    {
        let run = ContractRun { script, kept: Vec::new(), unknown };
        assert(kept_before(Seq::empty(), 0) =~= Seq::empty());
        run
    }

    /// The call to make next, if there is one.
    pub fn request(&self) -> (request: Option<Request>)
        ensures
            match request {
                Some(request) => self.is_running() && request == request::request_for(
                    self.kept@,
                    self.unknown,
                    self.script@[self.kept.len() as int].call,
                ),
                None => !self.is_running(),
            },
    {
        let at = self.kept.len();
        if at < self.script.len() {
            Some(request::resolve(&self.kept, self.unknown, self.script[at].call))
        } else {
            None
        }
    }

    /// Judge the reply to that call, and go on.
    pub fn advance(&mut self, reply: &Reply) -> (progress: Progress)
        requires
            old(self).is_running(),
        ensures
            final(self).script == old(self).script,
            final(self).unknown == old(self).unknown,
            ({
                let at = old(self).kept.len();
                let step = old(self).script@[at as int];
                if script::is_met(step.expect, old(self).kept@, *reply) {
                    &&& final(self).kept@ == old(self).kept@.push(script::kept_of(*reply))
                    &&& progress == if at + 1 == old(self).script.len() {
                        Progress::Passed
                    } else {
                        Progress::Next
                    }
                } else {
                    &&& final(self).kept == old(self).kept
                    &&& progress == Progress::Violated { step: at, label: step.label }
                }
            }),
    {
        let at = self.kept.len();
        let step = self.script[at];
        if script::meets(step.expect, &self.kept, reply) {
            self.kept.push(script::keep(reply));
            if self.kept.len() == self.script.len() {
                Progress::Passed
            } else {
                Progress::Next
            }
        } else {
            Progress::Violated { step: at, label: step.label }
        }
    }
}

/// Going on after a reply that is as it has to be is having run one step
/// more; so a run that passes has had every reply of its script met.
pub proof fn a_met_reply_is_one_step_more(
    before: ContractRun,
    after: ContractRun,
    script: Seq<Step>,
    unknown: Uuid7,
    replies: Seq<Reply>,
    reply: Reply,
)
    requires
        before.has_run(script, unknown, replies),
        before.is_running(),
        script::is_met(script[before.kept.len() as int].expect, before.kept@, reply),
        after.script == before.script,
        after.unknown == before.unknown,
        after.kept@ == before.kept@.push(script::kept_of(reply)),
    ensures
        after.has_run(script, unknown, replies.push(reply)),
{
    let more = replies.push(reply);
    assert(kept_before(more, more.len() as int) =~= kept_before(
        replies,
        replies.len() as int,
    ).push(script::kept_of(reply)));
    assert forall|i: int| 0 <= i < more.len() implies #[trigger] script::is_met(
        script[i].expect,
        kept_before(more, i),
        more[i],
    ) by {
        assert(more.take(i) =~= replies.take(i));
        if i < replies.len() {
            assert(script::is_met(script[i].expect, kept_before(replies, i), replies[i]));
        }
    }
}

} // verus!
