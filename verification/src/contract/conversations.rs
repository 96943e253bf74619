//! What agents, threads, conversations and turns have to keep.

use vstd::prelude::*;

use super::script::{step, Call, EventName, Expect, IdArg, Step};

verus! {

/// The steps of [`supports_thread_api_and_conversation_compatibility`].
pub open spec fn thread_steps() -> Seq<Step> {
    seq![
        step(
            "agent should be created",
            Call::NewAgent { slug_prefix: "agent", name: "Agent" },
            Expect::Succeeds,
        ),
        step(
            "thread should be created",
            Call::NewThread { agent: 0, slug_prefix: "thread", name: "Thread" },
            Expect::Succeeds,
        ),
        step(
            "thread creation event",
            Call::GetEvents { conversation: 1, turn: None, kind: None, ascending: false },
            Expect::CreationEventOf { thread: 1 },
        ),
        step(
            "thread events by their kind",
            Call::GetEvents {
                conversation: 1,
                turn: None,
                kind: Some(EventName::ThreadCreated),
                ascending: false,
            },
            Expect::HasEvent { data: EventName::ThreadCreated },
        ),
        step(
            "thread events by the conversation kind",
            Call::GetEvents {
                conversation: 1,
                turn: None,
                kind: Some(EventName::ConversationCreated),
                ascending: false,
            },
            Expect::HasEvent { data: EventName::ThreadCreated },
        ),
        step(
            "get the thread as a conversation",
            Call::GetConversation { agent: 0, id: IdArg::Of(1) },
            Expect::IsFound,
        ),
        step(
            "list the thread as a conversation",
            Call::ListConversations { agent: 0, cursor: None, limit: None },
            Expect::ListHolds { id: 1 },
        ),
        step(
            "conversation should be created",
            Call::NewConversation { agent: 0, slug_prefix: "conversation", name: "Conversation" },
            Expect::Succeeds,
        ),
        step(
            "get the conversation as a thread",
            Call::GetThread { agent: 0, id: IdArg::Of(7) },
            Expect::IsFound,
        ),
        step(
            "list the conversation as a thread",
            Call::ListThreads { agent: 0 },
            Expect::ListHolds { id: 7 },
        ),
        step("delete thread", Call::DeleteThread { agent: 0, id: IdArg::Of(1) }, Expect::IsDeleted),
        step(
            "delete conversation",
            Call::DeleteConversation { agent: 0, id: IdArg::Of(7) },
            Expect::IsDeleted,
        ),
    ]
}

/// Threads and conversations are one thing, made, read, listed and deleted through either name.
pub fn supports_thread_api_and_conversation_compatibility() -> (script: Vec<Step>)
    ensures
        script@ == thread_steps(),
{
    let mut script: Vec<Step> = Vec::new();
    script.push(
        step(
            "agent should be created",
            Call::NewAgent { slug_prefix: "agent", name: "Agent" },
            Expect::Succeeds,
        ),
    );
    script.push(
        step(
            "thread should be created",
            Call::NewThread { agent: 0, slug_prefix: "thread", name: "Thread" },
            Expect::Succeeds,
        ),
    );
    script.push(
        step(
            "thread creation event",
            Call::GetEvents { conversation: 1, turn: None, kind: None, ascending: false },
            Expect::CreationEventOf { thread: 1 },
        ),
    );
    script.push(
        step(
            "thread events by their kind",
            Call::GetEvents {
                conversation: 1,
                turn: None,
                kind: Some(EventName::ThreadCreated),
                ascending: false,
            },
            Expect::HasEvent { data: EventName::ThreadCreated },
        ),
    );
    script.push(
        step(
            "thread events by the conversation kind",
            Call::GetEvents {
                conversation: 1,
                turn: None,
                kind: Some(EventName::ConversationCreated),
                ascending: false,
            },
            Expect::HasEvent { data: EventName::ThreadCreated },
        ),
    );
    script.push(
        step(
            "get the thread as a conversation",
            Call::GetConversation { agent: 0, id: IdArg::Of(1) },
            Expect::IsFound,
        ),
    );
    script.push(
        step(
            "list the thread as a conversation",
            Call::ListConversations { agent: 0, cursor: None, limit: None },
            Expect::ListHolds { id: 1 },
        ),
    );
    script.push(
        step(
            "conversation should be created",
            Call::NewConversation { agent: 0, slug_prefix: "conversation", name: "Conversation" },
            Expect::Succeeds,
        ),
    );
    script.push(
        step(
            "get the conversation as a thread",
            Call::GetThread { agent: 0, id: IdArg::Of(7) },
            Expect::IsFound,
        ),
    );
    script.push(
        step(
            "list the conversation as a thread",
            Call::ListThreads { agent: 0 },
            Expect::ListHolds { id: 7 },
        ),
    );
    script.push(
        step("delete thread", Call::DeleteThread { agent: 0, id: IdArg::Of(1) }, Expect::IsDeleted),
    );
    script.push(
        step(
            "delete conversation",
            Call::DeleteConversation { agent: 0, id: IdArg::Of(7) },
            Expect::IsDeleted,
        ),
    );
    script
}

/// The steps of [`supports_agent_and_conversation_crud`].
pub open spec fn crud_steps() -> Seq<Step> {
    seq![
        step(
            "agent should be created",
            Call::NewAgent { slug_prefix: "agent", name: "Agent" },
            Expect::Succeeds,
        ),
        step(
            "conversation should be created",
            Call::NewConversation { agent: 0, slug_prefix: "conversation", name: "Conversation" },
            Expect::Succeeds,
        ),
        step(
            "get conversation events",
            Call::GetEvents { conversation: 1, turn: None, kind: None, ascending: false },
            Expect::HasEvent { data: EventName::ThreadCreated },
        ),
        step("list agents", Call::ListAgents, Expect::ListHolds { id: 0 }),
        step(
            "list conversations",
            Call::ListConversations { agent: 0, cursor: None, limit: None },
            Expect::ListHolds { id: 1 },
        ),
        step(
            "delete conversation",
            Call::DeleteConversation { agent: 0, id: IdArg::Of(1) },
            Expect::IsDeleted,
        ),
        step("delete agent", Call::DeleteAgent { id: IdArg::Of(0) }, Expect::IsDeleted),
        step(
            "slug should be reusable after agent deletion",
            Call::NewAgentUnderSlugOf { agent: 0, name: "Agent" },
            Expect::Succeeds,
        ),
        step("delete reused agent", Call::DeleteAgent { id: IdArg::Of(7) }, Expect::IsDeleted),
    ]
}

/// Agents and conversations are made, listed and deleted, and the slug of a deleted agent is free again.
pub fn supports_agent_and_conversation_crud() -> (script: Vec<Step>)
    ensures
        script@ == crud_steps(),
{
    let mut script: Vec<Step> = Vec::new();
    script.push(
        step(
            "agent should be created",
            Call::NewAgent { slug_prefix: "agent", name: "Agent" },
            Expect::Succeeds,
        ),
    );
    script.push(
        step(
            "conversation should be created",
            Call::NewConversation { agent: 0, slug_prefix: "conversation", name: "Conversation" },
            Expect::Succeeds,
        ),
    );
    script.push(
        step(
            "get conversation events",
            Call::GetEvents { conversation: 1, turn: None, kind: None, ascending: false },
            Expect::HasEvent { data: EventName::ThreadCreated },
        ),
    );
    script.push(step("list agents", Call::ListAgents, Expect::ListHolds { id: 0 }));
    script.push(
        step(
            "list conversations",
            Call::ListConversations { agent: 0, cursor: None, limit: None },
            Expect::ListHolds { id: 1 },
        ),
    );
    script.push(
        step(
            "delete conversation",
            Call::DeleteConversation { agent: 0, id: IdArg::Of(1) },
            Expect::IsDeleted,
        ),
    );
    script.push(step("delete agent", Call::DeleteAgent { id: IdArg::Of(0) }, Expect::IsDeleted));
    script.push(
        step(
            "slug should be reusable after agent deletion",
            Call::NewAgentUnderSlugOf { agent: 0, name: "Agent" },
            Expect::Succeeds,
        ),
    );
    script.push(
        step("delete reused agent", Call::DeleteAgent { id: IdArg::Of(7) }, Expect::IsDeleted),
    );
    script
}

/// The steps of [`list_conversations_returns_recent_first_and_paginates`].
pub open spec fn listing_steps() -> Seq<Step> {
    seq![
        step(
            "agent should be created",
            Call::NewAgent { slug_prefix: "agent", name: "Agent" },
            Expect::Succeeds,
        ),
        step(
            "first conversation",
            Call::NewConversation { agent: 0, slug_prefix: "first", name: "First" },
            Expect::Succeeds,
        ),
        step("let time pass", Call::Sleep { millis: 2 }, Expect::Succeeds),
        step(
            "second conversation",
            Call::NewConversation { agent: 0, slug_prefix: "second", name: "Second" },
            Expect::Succeeds,
        ),
        step("let time pass", Call::Sleep { millis: 2 }, Expect::Succeeds),
        step(
            "third conversation",
            Call::NewConversation { agent: 0, slug_prefix: "third", name: "Third" },
            Expect::Succeeds,
        ),
        step("let time pass", Call::Sleep { millis: 2 }, Expect::Succeeds),
        step(
            "touch first conversation",
            Call::AddCustomEvent { conversation: 1, event_type: "touch" },
            Expect::Succeeds,
        ),
        step(
            "first page",
            Call::ListConversations { agent: 0, cursor: None, limit: Some(2) },
            Expect::PageOfTwo { first: 1, second: 5 },
        ),
        step(
            "second page",
            Call::ListConversations { agent: 0, cursor: Some(IdArg::CursorOf(8)), limit: Some(2) },
            Expect::LastPage { only: 3 },
        ),
    ]
}

/// Conversations are listed with the latest touched first, page after page.
pub fn list_conversations_returns_recent_first_and_paginates() -> (script: Vec<Step>)
    ensures
        script@ == listing_steps(),
{
    let mut script: Vec<Step> = Vec::new();
    script.push(
        step(
            "agent should be created",
            Call::NewAgent { slug_prefix: "agent", name: "Agent" },
            Expect::Succeeds,
        ),
    );
    script.push(
        step(
            "first conversation",
            Call::NewConversation { agent: 0, slug_prefix: "first", name: "First" },
            Expect::Succeeds,
        ),
    );
    script.push(step("let time pass", Call::Sleep { millis: 2 }, Expect::Succeeds));
    script.push(
        step(
            "second conversation",
            Call::NewConversation { agent: 0, slug_prefix: "second", name: "Second" },
            Expect::Succeeds,
        ),
    );
    script.push(step("let time pass", Call::Sleep { millis: 2 }, Expect::Succeeds));
    script.push(
        step(
            "third conversation",
            Call::NewConversation { agent: 0, slug_prefix: "third", name: "Third" },
            Expect::Succeeds,
        ),
    );
    script.push(step("let time pass", Call::Sleep { millis: 2 }, Expect::Succeeds));
    script.push(
        step(
            "touch first conversation",
            Call::AddCustomEvent { conversation: 1, event_type: "touch" },
            Expect::Succeeds,
        ),
    );
    script.push(
        step(
            "first page",
            Call::ListConversations { agent: 0, cursor: None, limit: Some(2) },
            Expect::PageOfTwo { first: 1, second: 5 },
        ),
    );
    script.push(
        step(
            "second page",
            Call::ListConversations { agent: 0, cursor: Some(IdArg::CursorOf(8)), limit: Some(2) },
            Expect::LastPage { only: 3 },
        ),
    );
    script
}

/// The steps of [`begin_turn_tracks_events_through_finish`].
pub open spec fn turn_steps() -> Seq<Step> {
    seq![
        step("agent", Call::NewAgent { slug_prefix: "agent", name: "Agent" }, Expect::Succeeds),
        step("conversation", Call::NewPlainConversation { agent: 0 }, Expect::Succeeds),
        step(
            "turn",
            Call::BeginTurn { conversation: 1, input: "ping", lease_epoch: None },
            Expect::Succeeds,
        ),
        step(
            "append assistant message",
            Call::AddTurnMessage { turn: 2, text: "pong" },
            Expect::Succeeds,
        ),
        step("finish turn", Call::FinishTurn { turn: 2 }, Expect::Succeeds),
        step(
            "get events",
            Call::GetEvents {
                conversation: 1,
                turn: Some(IdArg::Of(2)),
                kind: None,
                ascending: true,
            },
            Expect::WholeTurn { finish: 4 },
        ),
    ]
}

/// A turn records its session, its start, its messages and its end, which is its last event.
pub fn begin_turn_tracks_events_through_finish() -> (script: Vec<Step>)
    ensures
        script@ == turn_steps(),
{
    let mut script: Vec<Step> = Vec::new();
    script.push(
        step("agent", Call::NewAgent { slug_prefix: "agent", name: "Agent" }, Expect::Succeeds),
    );
    script.push(step("conversation", Call::NewPlainConversation { agent: 0 }, Expect::Succeeds));
    script.push(
        step(
            "turn",
            Call::BeginTurn { conversation: 1, input: "ping", lease_epoch: None },
            Expect::Succeeds,
        ),
    );
    script.push(
        step(
            "append assistant message",
            Call::AddTurnMessage { turn: 2, text: "pong" },
            Expect::Succeeds,
        ),
    );
    script.push(step("finish turn", Call::FinishTurn { turn: 2 }, Expect::Succeeds));
    script.push(
        step(
            "get events",
            Call::GetEvents {
                conversation: 1,
                turn: Some(IdArg::Of(2)),
                kind: None,
                ascending: true,
            },
            Expect::WholeTurn { finish: 4 },
        ),
    );
    script
}

/// The steps of [`turn_events_continue_after_artifact_writes`].
pub open spec fn artifact_steps() -> Seq<Step> {
    seq![
        step("agent", Call::NewAgent { slug_prefix: "agent", name: "Agent" }, Expect::Succeeds),
        step("conversation", Call::NewPlainConversation { agent: 0 }, Expect::Succeeds),
        step(
            "turn",
            Call::BeginTurn { conversation: 1, input: "ping", lease_epoch: None },
            Expect::Succeeds,
        ),
        step(
            "write artifact",
            Call::WriteArtifact {
                turn: 2,
                path: "tool-results/example.json",
                contents: "{\"ok\":true}",
            },
            Expect::Succeeds,
        ),
        step(
            "append after artifact write",
            Call::AddTurnMessage { turn: 2, text: "pong" },
            Expect::Succeeds,
        ),
        step("finish after artifact write", Call::FinishTurn { turn: 2 }, Expect::Succeeds),
        step(
            "artifact event",
            Call::GetEvents {
                conversation: 1,
                turn: None,
                kind: Some(EventName::ArtifactWritten),
                ascending: true,
            },
            Expect::FirstEventOfTurn { turn: 2 },
        ),
    ]
}

/// An artifact written in a turn belongs to it, and the turn goes on after it.
pub fn turn_events_continue_after_artifact_writes() -> (script: Vec<Step>)
    ensures
        script@ == artifact_steps(),
{
    let mut script: Vec<Step> = Vec::new();
    script.push(
        step("agent", Call::NewAgent { slug_prefix: "agent", name: "Agent" }, Expect::Succeeds),
    );
    script.push(step("conversation", Call::NewPlainConversation { agent: 0 }, Expect::Succeeds));
    script.push(
        step(
            "turn",
            Call::BeginTurn { conversation: 1, input: "ping", lease_epoch: None },
            Expect::Succeeds,
        ),
    );
    script.push(
        step(
            "write artifact",
            Call::WriteArtifact {
                turn: 2,
                path: "tool-results/example.json",
                contents: "{\"ok\":true}",
            },
            Expect::Succeeds,
        ),
    );
    script.push(
        step(
            "append after artifact write",
            Call::AddTurnMessage { turn: 2, text: "pong" },
            Expect::Succeeds,
        ),
    );
    script.push(
        step("finish after artifact write", Call::FinishTurn { turn: 2 }, Expect::Succeeds),
    );
    script.push(
        step(
            "artifact event",
            Call::GetEvents {
                conversation: 1,
                turn: None,
                kind: Some(EventName::ArtifactWritten),
                ascending: true,
            },
            Expect::FirstEventOfTurn { turn: 2 },
        ),
    );
    script
}

/// The steps of [`conversation_scope_overrides_agent_scope_and_fork_copies_bindings`].
pub open spec fn binding_steps() -> Seq<Step> {
    seq![
        step("agent", Call::NewAgent { slug_prefix: "agent", name: "Agent" }, Expect::Succeeds),
        step(
            "conversation",
            Call::NewConversation { agent: 0, slug_prefix: "base", name: "Base" },
            Expect::Succeeds,
        ),
        step(
            "agent binding",
            Call::PutAgentBinding { agent: 0, name: "OPENAI_API_KEY" },
            Expect::Succeeds,
        ),
        step(
            "conversation binding",
            Call::PutConversationBinding { conversation: 1, name: "OPENAI_API_KEY" },
            Expect::Succeeds,
        ),
        step(
            "effective binding",
            Call::ListBindings { conversation: 1 },
            Expect::BindingIs { name: "OPENAI_API_KEY", binding: 3 },
        ),
        step(
            "fork",
            Call::Fork { conversation: 1, slug_prefix: "fork", name: "Fork" },
            Expect::Succeeds,
        ),
        step(
            "forked effective binding",
            Call::ListBindings { conversation: 5 },
            Expect::HasBinding { name: "OPENAI_API_KEY" },
        ),
        step(
            "get forked events",
            Call::GetEvents { conversation: 5, turn: None, kind: None, ascending: true },
            Expect::HasEvent { data: EventName::ThreadForked },
        ),
    ]
}

/// A conversation's binding goes before its agent's, and a fork has the bindings of what it was forked from.
pub fn conversation_scope_overrides_agent_scope_and_fork_copies_bindings() -> (script: Vec<Step>)
    ensures
        script@ == binding_steps(),
{
    let mut script: Vec<Step> = Vec::new();
    script.push(
        step("agent", Call::NewAgent { slug_prefix: "agent", name: "Agent" }, Expect::Succeeds),
    );
    script.push(
        step(
            "conversation",
            Call::NewConversation { agent: 0, slug_prefix: "base", name: "Base" },
            Expect::Succeeds,
        ),
    );
    script.push(
        step(
            "agent binding",
            Call::PutAgentBinding { agent: 0, name: "OPENAI_API_KEY" },
            Expect::Succeeds,
        ),
    );
    script.push(
        step(
            "conversation binding",
            Call::PutConversationBinding { conversation: 1, name: "OPENAI_API_KEY" },
            Expect::Succeeds,
        ),
    );
    script.push(
        step(
            "effective binding",
            Call::ListBindings { conversation: 1 },
            Expect::BindingIs { name: "OPENAI_API_KEY", binding: 3 },
        ),
    );
    script.push(
        step(
            "fork",
            Call::Fork { conversation: 1, slug_prefix: "fork", name: "Fork" },
            Expect::Succeeds,
        ),
    );
    script.push(
        step(
            "forked effective binding",
            Call::ListBindings { conversation: 5 },
            Expect::HasBinding { name: "OPENAI_API_KEY" },
        ),
    );
    script.push(
        step(
            "get forked events",
            Call::GetEvents { conversation: 5, turn: None, kind: None, ascending: true },
            Expect::HasEvent { data: EventName::ThreadForked },
        ),
    );
    script
}

} // verus!
