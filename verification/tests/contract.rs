use exo_attention::clock::DateTimeUtc;
use exo_attention::contract::conversations::{
    begin_turn_tracks_events_through_finish,
    conversation_scope_overrides_agent_scope_and_fork_copies_bindings,
    list_conversations_returns_recent_first_and_paginates, supports_agent_and_conversation_crud,
    supports_thread_api_and_conversation_compatibility, turn_events_continue_after_artifact_writes,
};
use exo_attention::contract::leases::turn_leases_enforce_single_writer_with_epoch_fencing;
use exo_attention::contract::operations::operation_records_cover_the_crash_table;
use exo_attention::contract::process::{
    interactive_command, protocol_command,
    sandbox_handle_start_process_supports_interactive_stdio_and_env,
    sandbox_handle_start_process_supports_long_running_request_response_protocol, unique_slug,
    Output, ProcessFault, ProcessProgress, ProcessReply, ProcessRun, ProcessStep,
};
use exo_attention::contract::request::Request;
use exo_attention::contract::run::{ContractRun, Progress};
use exo_attention::contract::script::{
    BindingInfo, Call, EventInfo, EventName, LeaseInfo, OperationInfo, OperationOutcome,
    OperationState, Reply, Step,
};
use exo_attention::contract::survival::{
    sandbox_backend_durable_file_system_survives_stop_and_reacquire,
    sandbox_backend_long_running_process_and_workdir_survive_stop_and_reacquire,
    sandbox_backend_workdir_survives_stop_and_reacquire, stop_after_contract, CommandOutput,
    SandboxFault, SurvivalEffect, SurvivalEvent, SurvivalPhase, SurvivalRun, Verdict,
};
use exo_attention::ids::Uuid7;

/// What a faulty harness gets wrong.
#[derive(Clone, Copy, Default)]
struct Flaws {
    reuses_epochs: bool,
    fences_nothing: bool,
    forgets_keys: bool,
    lists_in_creation_order: bool,
}

struct Operation {
    kind: &'static str,
    key: &'static str,
    info: OperationInfo,
}

struct Lease {
    id: Uuid7,
    epoch: u64,
    holder: &'static str,
    expires_at_ms: u64,
}

#[derive(Default)]
struct Conversation {
    id: u128,
    deleted: bool,
    events: Vec<EventInfo>,
    lease: Option<Lease>,
    last_epoch: u64,
    released: Vec<(Uuid7, u64)>,
    operations: Vec<Operation>,
    bindings: Vec<(Uuid7, &'static str)>,
}

struct Turn {
    id: Uuid7,
    session_id: Uuid7,
    conversation: usize,
    epoch: Option<u64>,
}

#[derive(Clone, Copy)]
enum Handle {
    Nothing,
    Agent(usize),
    Conversation(usize),
    Turn(usize),
}

/// A harness in memory. Everything it makes is found again by the step that
/// made it.
#[derive(Default)]
struct Harness {
    flaws: Flaws,
    now_ms: u64,
    minted: u128,
    agents: Vec<(Uuid7, &'static str, bool)>,
    agent_bindings: Vec<(Uuid7, &'static str)>,
    conversations: Vec<Conversation>,
    turns: Vec<Turn>,
    handles: Vec<Handle>,
}

fn instant(ms: u64) -> DateTimeUtc {
    DateTimeUtc::new((ms / 1_000) as i64, (ms % 1_000) as u32 * 1_000_000).expect("instant")
}

impl Harness {
    fn mint(&mut self) -> Uuid7 {
        self.minted += 1;
        Uuid7 { bits: self.minted }
    }

    fn conversation(&self, step: usize) -> usize {
        match self.handles[step] {
            Handle::Conversation(at) => at,
            _ => panic!("step {step} made no conversation"),
        }
    }

    fn turn(&self, step: usize) -> usize {
        match self.handles[step] {
            Handle::Turn(at) => at,
            _ => panic!("step {step} made no turn"),
        }
    }

    fn record(&mut self, at: usize, data: EventName, turn: Option<usize>) -> Uuid7 {
        let id = self.mint();
        let thread_id = Uuid7 { bits: self.conversations[at].id };
        let session_id = turn.map(|turn| self.turns[turn].session_id);
        let turn_id = turn.map(|turn| self.turns[turn].id);
        self.conversations[at].events.push(EventInfo {
            id,
            data,
            kind: data,
            thread_id,
            session_id,
            turn_id,
        });
        id
    }

    fn live_epoch(&self, at: usize) -> Option<u64> {
        if self.flaws.fences_nothing {
            return None;
        }
        self.live_lease(at).map(|lease| lease.epoch)
    }

    fn live_lease(&self, at: usize) -> Option<&Lease> {
        self.conversations[at]
            .lease
            .as_ref()
            .filter(|lease| self.now_ms <= lease.expires_at_ms)
    }

    fn may_write(&self, at: usize, epoch: Option<u64>) -> bool {
        match self.live_epoch(at) {
            Some(live) => epoch == Some(live),
            None => true,
        }
    }

    fn make_conversation(&mut self) -> (Handle, Reply) {
        let id = self.mint();
        self.conversations.push(Conversation { id: id.bits, ..Conversation::default() });
        let at = self.conversations.len() - 1;
        let latest = self.record(at, EventName::ThreadCreated, None);
        (Handle::Conversation(at), Reply::Made { id, latest_event_id: Some(latest) })
    }

    fn find(&self, id: Uuid7) -> Option<usize> {
        self.conversations
            .iter()
            .position(|conversation| conversation.id == id.bits && !conversation.deleted)
    }

    fn delete(&mut self, id: Uuid7) -> Reply {
        match self.find(id) {
            Some(at) => {
                self.conversations[at].deleted = true;
                Reply::Deleted { deleted: true }
            }
            None => Reply::Deleted { deleted: false },
        }
    }

    fn list(&self, cursor: Option<Uuid7>, limit: Option<u32>) -> Reply {
        let mut found: Vec<(u128, u128)> = self
            .conversations
            .iter()
            .filter(|conversation| !conversation.deleted)
            .map(|conversation| {
                (conversation.events.last().expect("an event").id.bits, conversation.id)
            })
            .collect();
        if self.flaws.lists_in_creation_order {
            found.sort_by_key(|entry| entry.1);
        } else {
            found.sort_by(|a, b| b.cmp(a));
        }
        if let Some(cursor) = cursor {
            found.retain(|entry| entry.0 < cursor.bits);
        }
        let limit = limit.unwrap_or(100) as usize;
        let more = found.len() > limit;
        found.truncate(limit);
        let next_cursor = found.last().filter(|_| more).map(|entry| Uuid7 { bits: entry.0 });
        Reply::Listed {
            ids: found.into_iter().map(|entry| Uuid7 { bits: entry.1 }).collect(),
            next_cursor,
        }
    }

    fn begin_operation(
        &mut self,
        at: usize,
        kind: &'static str,
        key: &'static str,
        max_attempts: Option<u32>,
    ) -> Reply {
        let mut supersedes = None;
        for operation in self.conversations[at].operations.iter().rev() {
            if operation.key != key || self.flaws.forgets_keys {
                continue;
            }
            if operation.kind != kind {
                return Reply::Failed;
            }
            if operation.info.state == OperationState::Failed {
                supersedes = Some(operation.info.operation_id);
                break;
            }
            return Reply::Begun { created: false, operation: operation.info };
        }
        let info = OperationInfo {
            operation_id: self.mint(),
            state: OperationState::Open,
            max_attempts,
            supersedes,
            completion_epoch: None,
        };
        self.conversations[at].operations.push(Operation { kind, key, info });
        self.record(at, EventName::OperationIntent, None);
        Reply::Begun { created: true, operation: info }
    }

    fn complete_operation(
        &mut self,
        at: usize,
        id: Uuid7,
        outcome: OperationOutcome,
        epoch: Option<u64>,
    ) -> Reply {
        let next = match outcome {
            OperationOutcome::Succeeded => OperationState::Succeeded,
            OperationOutcome::Failed => OperationState::Failed,
            OperationOutcome::Uncertain => OperationState::Uncertain,
        };
        let found = self.conversations[at]
            .operations
            .iter_mut()
            .find(|operation| operation.info.operation_id == id);
        let Some(operation) = found else {
            return Reply::Failed;
        };
        let state = operation.info.state;
        let settled = state == OperationState::Succeeded || state == OperationState::Failed;
        if state == next || (settled && outcome == OperationOutcome::Uncertain) {
            return Reply::Completed { operation: operation.info };
        }
        if settled {
            return Reply::Failed;
        }
        operation.info.state = next;
        operation.info.completion_epoch = epoch;
        let info = operation.info;
        self.record(at, EventName::OperationCompleted, None);
        Reply::Completed { operation: info }
    }

    fn acquire(&mut self, at: usize, holder: &'static str, ttl_ms: u64) -> Reply {
        if let Some(lease) = self.live_lease(at) {
            return Reply::Lease {
                acquired: lease.holder == holder,
                lease: LeaseInfo {
                    lease_id: lease.id,
                    epoch: lease.epoch,
                    holder: lease.holder.to_string(),
                    expires_at: instant(lease.expires_at_ms),
                },
            };
        }
        let id = self.mint();
        let expires_at_ms = self.now_ms + ttl_ms;
        let conversation = &mut self.conversations[at];
        if conversation.last_epoch == 0 || !self.flaws.reuses_epochs {
            conversation.last_epoch += 1;
        }
        let epoch = conversation.last_epoch;
        conversation.lease = Some(Lease { id, epoch, holder, expires_at_ms });
        Reply::Lease {
            acquired: true,
            lease: LeaseInfo {
                lease_id: id,
                epoch,
                holder: holder.to_string(),
                expires_at: instant(expires_at_ms),
            },
        }
    }

    fn call(&mut self, request: Request) -> Reply {
        let mut handle = Handle::Nothing;
        let reply = match request {
            Call::NewAgent { name, .. } => {
                let id = self.mint();
                self.agents.push((id, name, false));
                handle = Handle::Agent(self.agents.len() - 1);
                Reply::Made { id, latest_event_id: None }
            }
            Call::NewAgentUnderSlugOf { agent, name } => match self.handles[agent] {
                Handle::Agent(at) if self.agents[at].2 => {
                    let id = self.mint();
                    self.agents.push((id, name, false));
                    handle = Handle::Agent(self.agents.len() - 1);
                    Reply::Made { id, latest_event_id: None }
                }
                _ => Reply::Failed,
            },
            Call::NewThread { .. }
            | Call::NewConversation { .. }
            | Call::NewPlainConversation { .. } => {
                let (made, reply) = self.make_conversation();
                handle = made;
                reply
            }
            Call::GetConversation { id, .. } | Call::GetThread { id, .. } => {
                Reply::Found { found: self.find(id).is_some() }
            }
            Call::ListAgents => Reply::Listed {
                ids: self.agents.iter().map(|agent| agent.0).collect(),
                next_cursor: None,
            },
            Call::ListConversations { cursor, limit, .. } => self.list(cursor, limit),
            Call::ListThreads { .. } => self.list(None, None),
            Call::DeleteThread { id, .. } | Call::DeleteConversation { id, .. } => self.delete(id),
            Call::DeleteAgent { id } => {
                let found = self.agents.iter_mut().find(|agent| agent.0 == id && !agent.2);
                let deleted = found.map(|agent| agent.2 = true).is_some();
                Reply::Deleted { deleted }
            }
            Call::GetEvents { conversation, turn, kind, .. } => {
                let at = self.conversation(conversation);
                let wanted = match kind {
                    Some(EventName::ConversationCreated) => Some(EventName::ThreadCreated),
                    kind => kind,
                };
                Reply::Events {
                    events: self.conversations[at]
                        .events
                        .iter()
                        .filter(|event| turn.is_none() || event.turn_id == turn)
                        .filter(|event| wanted.map_or(true, |wanted| event.data == wanted))
                        .copied()
                        .collect(),
                }
            }
            Call::AddCustomEvent { conversation, .. } => {
                let at = self.conversation(conversation);
                self.record(at, EventName::Other, None);
                Reply::Done
            }
            Call::AddOperationCompleted { .. } | Call::AddLeaseReleased { .. } => Reply::Failed,
            Call::BeginTurn { conversation, lease_epoch, .. } => {
                let at = self.conversation(conversation);
                if self.may_write(at, lease_epoch) {
                    let id = self.mint();
                    let session_id = self.mint();
                    self.turns.push(Turn { id, session_id, conversation: at, epoch: lease_epoch });
                    let turn = self.turns.len() - 1;
                    self.record(at, EventName::SessionStarted, Some(turn));
                    self.record(at, EventName::TurnStarted, Some(turn));
                    self.record(at, EventName::Messages, Some(turn));
                    handle = Handle::Turn(turn);
                    Reply::Turn { id, session_id }
                } else {
                    Reply::Failed
                }
            }
            Call::AddTurnMessage { turn, .. } => {
                let turn = self.turn(turn);
                let at = self.turns[turn].conversation;
                if self.may_write(at, self.turns[turn].epoch) {
                    self.record(at, EventName::Messages, Some(turn));
                    Reply::Done
                } else {
                    Reply::Failed
                }
            }
            Call::WriteArtifact { turn, .. } => {
                let turn = self.turn(turn);
                let at = self.turns[turn].conversation;
                self.record(at, EventName::ArtifactWritten, Some(turn));
                Reply::Done
            }
            Call::FinishTurn { turn } => {
                let turn = self.turn(turn);
                let at = self.turns[turn].conversation;
                let event_id = self.record(at, EventName::TurnEnded, Some(turn));
                Reply::TurnFinished { event_id }
            }
            Call::OpenOperations { conversation } => {
                let at = self.conversation(conversation);
                Reply::Operations {
                    operations: self.conversations[at]
                        .operations
                        .iter()
                        .map(|operation| operation.info)
                        .filter(|info| {
                            info.state == OperationState::Open
                                || info.state == OperationState::Uncertain
                        })
                        .collect(),
                }
            }
            Call::BeginOperation {
                conversation,
                effect_kind,
                idempotency_key,
                max_attempts,
                lease_epoch,
                ..
            } => {
                let at = self.conversation(conversation);
                if self.may_write(at, lease_epoch) {
                    self.begin_operation(at, effect_kind, idempotency_key, max_attempts)
                } else {
                    Reply::Failed
                }
            }
            Call::CompleteOperation { conversation, operation, outcome, lease_epoch, .. } => {
                let at = self.conversation(conversation);
                self.complete_operation(at, operation, outcome, lease_epoch)
            }
            Call::AcquireLease { conversation, holder, ttl_ms } => {
                let at = self.conversation(conversation);
                self.acquire(at, holder, ttl_ms)
            }
            Call::CurrentLease { conversation } => Reply::CurrentLease {
                held: self.live_lease(self.conversation(conversation)).is_some(),
            },
            Call::RenewLease { conversation, lease, epoch, ttl_ms } => {
                let at = self.conversation(conversation);
                let expires_at_ms = self.now_ms + ttl_ms;
                let held = self
                    .live_lease(at)
                    .map_or(false, |live| live.id == lease && live.epoch == epoch);
                match &mut self.conversations[at].lease {
                    Some(live) if held => {
                        live.expires_at_ms = expires_at_ms;
                        Reply::Renewed { expires_at: instant(expires_at_ms) }
                    }
                    _ => Reply::Failed,
                }
            }
            Call::ReleaseLease { conversation, lease, epoch } => {
                let at = self.conversation(conversation);
                let held = self
                    .live_lease(at)
                    .map_or(false, |live| live.id == lease && live.epoch == epoch);
                let conversation = &mut self.conversations[at];
                if held {
                    conversation.lease = None;
                    conversation.released.push((lease, epoch));
                    Reply::Released { released: true }
                } else if conversation.released.contains(&(lease, epoch)) {
                    Reply::Released { released: true }
                } else {
                    Reply::Failed
                }
            }
            Call::PutAgentBinding { name, .. } => {
                let id = self.mint();
                self.agent_bindings.push((id, name));
                Reply::Bound { id }
            }
            Call::PutConversationBinding { conversation, name } => {
                let id = self.mint();
                let at = self.conversation(conversation);
                self.conversations[at].bindings.push((id, name));
                Reply::Bound { id }
            }
            Call::ListBindings { conversation } => {
                let at = self.conversation(conversation);
                let bindings = self.conversations[at].bindings.iter().chain(&self.agent_bindings);
                Reply::Bindings {
                    bindings: bindings
                        .map(|(id, name)| BindingInfo { id: *id, name: name.to_string() })
                        .collect(),
                }
            }
            Call::Fork { conversation, .. } => {
                let from = self.conversation(conversation);
                let bindings = self.conversations[from].bindings.clone();
                let (made, reply) = self.make_conversation();
                let at = self.conversations.len() - 1;
                self.conversations[at].bindings = bindings;
                self.record(at, EventName::ThreadForked, None);
                handle = made;
                reply
            }
            Call::Sleep { millis } => {
                self.now_ms += millis;
                Reply::Done
            }
        };
        self.handles.push(handle);
        reply
    }
}

fn run_contract(script: Vec<Step>, flaws: Flaws) -> Progress {
    let mut harness = Harness { flaws, now_ms: 1_000, ..Harness::default() };
    let mut run = ContractRun::new(script, Uuid7 { bits: u128::MAX });
    let mut progress = Progress::Next;
    while let Some(request) = run.request() {
        let reply = harness.call(request);
        progress = run.advance(&reply);
        if progress != Progress::Next {
            break;
        }
    }
    progress
}

fn scripts() -> Vec<Vec<Step>> {
    vec![
        turn_leases_enforce_single_writer_with_epoch_fencing(),
        operation_records_cover_the_crash_table(),
        supports_thread_api_and_conversation_compatibility(),
        supports_agent_and_conversation_crud(),
        list_conversations_returns_recent_first_and_paginates(),
        begin_turn_tracks_events_through_finish(),
        turn_events_continue_after_artifact_writes(),
        conversation_scope_overrides_agent_scope_and_fork_copies_bindings(),
    ]
}

#[test]
fn a_harness_that_keeps_its_contracts_passes_them() {
    for script in scripts() {
        assert_eq!(run_contract(script, Flaws::default()), Progress::Passed);
    }
}

#[test]
fn a_harness_that_reuses_epochs_is_caught() {
    let progress = run_contract(
        turn_leases_enforce_single_writer_with_epoch_fencing(),
        Flaws { reuses_epochs: true, ..Flaws::default() },
    );
    assert_eq!(progress, Progress::Violated { step: 21, label: "second acquire" });
}

#[test]
fn a_harness_that_fences_nothing_is_caught() {
    let progress = run_contract(
        turn_leases_enforce_single_writer_with_epoch_fencing(),
        Flaws { fences_nothing: true, ..Flaws::default() },
    );
    assert_eq!(progress, Progress::Violated { step: 8, label: "begin without the epoch" });
}

#[test]
fn a_harness_that_forgets_keys_is_caught() {
    let progress = run_contract(
        operation_records_cover_the_crash_table(),
        Flaws { forgets_keys: true, ..Flaws::default() },
    );
    assert_eq!(progress, Progress::Violated { step: 5, label: "resumed begin" });
}

#[test]
fn a_harness_that_lists_in_another_order_is_caught() {
    let progress = run_contract(
        list_conversations_returns_recent_first_and_paginates(),
        Flaws { lists_in_creation_order: true, ..Flaws::default() },
    );
    assert_eq!(progress, Progress::Violated { step: 8, label: "first page" });
}

#[test]
fn a_harness_that_answers_nothing_passes_nothing() {
    for script in scripts() {
        let mut run = ContractRun::new(script, Uuid7 { bits: 1 });
        assert!(matches!(
            run.advance(&Reply::Failed),
            Progress::Violated { step: 0, .. }
        ));
        assert!(run.request().is_some());
    }
}

/// A process that answers as the command it stands for would.
fn process_reply(step: ProcessStep, code: i32, stderr: &str) -> ProcessReply {
    match step {
        ProcessStep::Start { .. } | ProcessStep::Write { .. } | ProcessStep::CloseStdin { .. } => {
            ProcessReply::Done
        }
        ProcessStep::Read { expected, .. } => {
            ProcessReply::Read { bytes: expected.as_bytes().to_vec() }
        }
        ProcessStep::Wait { .. } => ProcessReply::Exited { code },
        ProcessStep::DrainStderr { .. } => ProcessReply::Stderr { stderr: stderr.to_string() },
    }
}

fn run_process(mut run: ProcessRun, code: i32, stderr: &str) -> ProcessProgress {
    let mut progress = ProcessProgress::Next;
    while let Some(step) = run.step() {
        progress = run.advance(process_reply(step, code, stderr));
        if !matches!(progress, ProcessProgress::Next) {
            break;
        }
    }
    progress
}

#[test]
fn processes_that_behave_pass() {
    let interactive = sandbox_handle_start_process_supports_interactive_stdio_and_env();
    assert!(matches!(run_process(interactive, 0, ""), ProcessProgress::Passed));
    let protocol = sandbox_handle_start_process_supports_long_running_request_response_protocol();
    assert!(matches!(
        run_process(protocol, 0, "protocol-stderr-two\n"),
        ProcessProgress::Passed
    ));
}

#[test]
fn processes_that_misbehave_are_caught() {
    let interactive = sandbox_handle_start_process_supports_interactive_stdio_and_env;
    // The exit code is judged before the errors.
    assert!(matches!(
        run_process(interactive(), 3, "oops"),
        ProcessProgress::Violated {
            fault: ProcessFault::ExitCode { protocol: false, code: 3, .. }
        }
    ));
    assert!(matches!(
        run_process(interactive(), 0, "oops"),
        ProcessProgress::Violated {
            fault: ProcessFault::UnexpectedStderr { protocol: false, stderr }
        } if stderr == "oops"
    ));
    let mut run = interactive();
    run.advance(ProcessReply::Done);
    assert!(matches!(
        run.advance(ProcessReply::Read { bytes: b"ready?".to_vec() }),
        ProcessProgress::Violated {
            fault: ProcessFault::Unexpected { output: Output::ReadyMarker, expected: "ready\n", .. }
        }
    ));
    assert!(matches!(
        run.advance(ProcessReply::TimedOut { error: "deadline".to_string() }),
        ProcessProgress::Violated {
            fault: ProcessFault::Failed {
                context: "process should stream initial stdout before stdin is written",
                ..
            }
        }
    ));
    assert!(matches!(
        run.advance(ProcessReply::Failed { error: "broken pipe".to_string() }),
        ProcessProgress::Violated {
            fault: ProcessFault::Failed { context: "read ready marker", .. }
        }
    ));
}

#[test]
fn contract_commands_run_in_a_shell() {
    let command = interactive_command();
    assert_eq!(command.argv[0], "/bin/sh");
    assert_eq!(command.argv[1], "-c");
    assert_eq!(
        command.argv[2],
        "printf 'ready\\n'; IFS= read -r line; printf 'env=%s input=%s\\n' \"$EXO_CONTRACT_ENV\" \"$line\""
    );
    assert_eq!(
        command.env,
        vec![("EXO_CONTRACT_ENV".to_string(), "contract-env-value".to_string())]
    );
    assert_eq!(command.timeout_secs, 30);
    let command = protocol_command();
    assert_eq!(
        command.argv[2],
        [
            "printf 'protocol-ready\\n'",
            "while IFS= read -r line; do",
            "  case \"$line\" in",
            "    request-one) printf 'response-one\\n' ;;",
            "    request-two) printf 'protocol-stderr-two\\n' >&2; printf 'response-two\\n' ;;",
            "    request-three) printf 'response-three\\n'; exit 0 ;;",
            "    *) printf 'unexpected:%s\\n' \"$line\"; exit 9 ;;",
            "  esac",
            "done",
            "exit 8",
        ]
        .join("\n")
    );
    assert!(command.env.is_empty());
    assert_eq!(
        unique_slug("agent", Uuid7 { bits: 0x0189_0a5d_ac96_774b_bcce_b302_099a_8057 }),
        "agent-01890a5d-ac96-774b-bcce-b302099a8057"
    );
}

/// Run a survival contract on a sandbox that keeps a marker file, or loses it.
fn run_survival(mut run: SurvivalRun, keeps: bool, stops: bool) -> Verdict {
    let mut stored = String::new();
    loop {
        let event = match run.effect() {
            SurvivalEffect::Acquire { .. } => SurvivalEvent::Acquired,
            SurvivalEffect::RunProtocol => SurvivalEvent::Protocol { fault: None },
            SurvivalEffect::Run { command, .. } => {
                assert_eq!(command.argv[1], "-lc");
                assert_eq!(command.env[0].1, run.mount_path);
                let stdout = if command.env.len() == 2 {
                    stored = command.env[1].1.clone();
                    String::new()
                } else if keeps {
                    stored.clone()
                } else {
                    "gone".to_string()
                };
                SurvivalEvent::Output {
                    output: CommandOutput {
                        ok: true,
                        exit_code: Some(0),
                        stdout,
                        stderr: String::new(),
                    },
                }
            }
            SurvivalEffect::Stop { .. } if stops => SurvivalEvent::Stopped,
            SurvivalEffect::Stop { .. } => SurvivalEvent::Failed { error: "stuck".to_string() },
            SurvivalEffect::End => match run.phase {
                SurvivalPhase::Ended { verdict } => return verdict,
                _ => unreachable!(),
            },
        };
        run.advance(event);
    }
}

#[test]
fn sandboxes_that_keep_their_files_pass() {
    let id = Uuid7 { bits: 7 };
    let durable = sandbox_backend_durable_file_system_survives_stop_and_reacquire(
        &vec!["/durable".to_string()],
        id,
    )
    .expect("a durable file system");
    assert_eq!(durable.marker, "durable-00000000-0000-0000-0000-000000000007");
    assert!(matches!(run_survival(durable, true, true), Verdict::Passed));
    let workdir = sandbox_backend_workdir_survives_stop_and_reacquire("/work", id);
    assert!(matches!(run_survival(workdir, true, true), Verdict::Passed));
    let protocol =
        sandbox_backend_long_running_process_and_workdir_survive_stop_and_reacquire("/work", id);
    assert!(matches!(run_survival(protocol, true, true), Verdict::Passed));
    assert!(matches!(
        sandbox_backend_durable_file_system_survives_stop_and_reacquire(&Vec::new(), id),
        Err(SandboxFault::NoDurableFileSystem)
    ));
}

#[test]
fn sandboxes_that_lose_their_files_are_caught() {
    let id = Uuid7 { bits: 7 };
    let workdir = sandbox_backend_workdir_survives_stop_and_reacquire("/work", id);
    match run_survival(workdir, false, true) {
        Verdict::Failed { fault: SandboxFault::MarkerMismatch { expected, found } } => {
            assert_eq!(expected, "workdir-00000000-0000-0000-0000-000000000007");
            assert_eq!(found, "gone");
        }
        other => panic!("another marker is no marker: {other:?}"),
    }
    let workdir = sandbox_backend_workdir_survives_stop_and_reacquire("/work", id);
    assert!(matches!(
        run_survival(workdir, true, false),
        Verdict::NotStopped { context: "stop sandbox after workdir write", .. }
    ));
}

#[test]
fn a_sandbox_that_fails_midway_is_still_stopped() {
    let id = Uuid7 { bits: 7 };
    let mut run =
        sandbox_backend_long_running_process_and_workdir_survive_stop_and_reacquire("/work", id);
    run.advance(SurvivalEvent::Acquired);
    assert!(matches!(run.effect(), SurvivalEffect::RunProtocol));
    run.advance(SurvivalEvent::Protocol {
        fault: Some(ProcessFault::UnexpectedStderr {
            protocol: true,
            stderr: "oops".to_string(),
        }),
    });
    assert!(matches!(run.effect(), SurvivalEffect::Stop { .. }));
    run.advance(SurvivalEvent::Stopped);
    assert!(matches!(
        run.phase,
        SurvivalPhase::Ended { verdict: Verdict::Failed { fault: SandboxFault::Process { .. } } }
    ));

    let mut run = sandbox_backend_workdir_survives_stop_and_reacquire("/work", id);
    run.advance(SurvivalEvent::Acquired);
    run.advance(SurvivalEvent::Output {
        output: CommandOutput {
            ok: false,
            exit_code: Some(1),
            stdout: String::new(),
            stderr: "no".to_string(),
        },
    });
    run.advance(SurvivalEvent::Stopped);
    assert!(matches!(
        run.phase,
        SurvivalPhase::Ended {
            verdict: Verdict::Failed { fault: SandboxFault::MarkerNotWritten { .. } }
        }
    ));
}

#[test]
fn a_failed_stop_does_not_hide_what_went_wrong() {
    let fault = || SandboxFault::Failed { context: "read", error: "no".to_string() };
    assert!(matches!(stop_after_contract(None, "stop", None), Verdict::Passed));
    assert!(matches!(
        stop_after_contract(Some(fault()), "stop", None),
        Verdict::Failed { .. }
    ));
    assert!(matches!(
        stop_after_contract(None, "stop", Some("stuck".to_string())),
        Verdict::NotStopped { context: "stop", .. }
    ));
    assert!(matches!(
        stop_after_contract(Some(fault()), "stop", Some("stuck".to_string())),
        Verdict::FailedAndNotStopped { context: "stop", .. }
    ));
}
