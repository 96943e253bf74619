use exo_attention::pairs::ConversationKey;
use exo_attention::task_order::{
    conversations_to_check, order_due_tasks_for_attention, order_tasks_by_attention, Check,
    CheckedConversation, ScheduledTaskRecord,
};

fn task(id: &str, agent_id: &str, conversation_id: &str) -> ScheduledTaskRecord {
    ScheduledTaskRecord {
        id: id.to_string(),
        agent_id: agent_id.to_string(),
        conversation_id: conversation_id.to_string(),
    }
}

fn key(agent_id: &str, conversation_id: &str) -> ConversationKey {
    ConversationKey {
        agent_id: agent_id.to_string(),
        conversation_id: conversation_id.to_string(),
    }
}

fn ids(tasks: &[ScheduledTaskRecord]) -> Vec<&str> {
    tasks.iter().map(|task| task.id.as_str()).collect()
}

fn due() -> Vec<ScheduledTaskRecord> {
    vec![
        task("task-1", "agent-1", "conversation-a"),
        task("task-2", "agent-1", "conversation-b"),
        task("task-3", "agent-1", "conversation-a"),
        task("task-4", "agent-2", "conversation-c"),
    ]
}

#[test]
fn blocked_conversations_surface_first_and_order_is_stable() {
    let blocked = vec![
        key("agent-1", "conversation-b"),
        key("agent-2", "conversation-c"),
    ];
    let ordered = order_tasks_by_attention(due(), &blocked);
    assert_eq!(ids(&ordered), vec!["task-2", "task-4", "task-1", "task-3"]);
}

#[test]
fn empty_blocked_set_preserves_order() {
    let due = vec![
        task("task-1", "agent-1", "conversation-a"),
        task("task-2", "agent-1", "conversation-b"),
    ];
    let ordered = order_tasks_by_attention(due, &Vec::new());
    assert_eq!(ids(&ordered), vec!["task-1", "task-2"]);
}

#[test]
fn a_blocked_conversation_of_another_agent_moves_nothing() {
    let ordered = order_tasks_by_attention(due(), &vec![key("agent-2", "conversation-b")]);
    assert_eq!(ids(&ordered), vec!["task-1", "task-2", "task-3", "task-4"]);
}

#[test]
fn each_conversation_is_checked_once() {
    let keys = conversations_to_check(&due());
    let names: Vec<(&str, &str)> = keys
        .iter()
        .map(|key| (key.agent_id.as_str(), key.conversation_id.as_str()))
        .collect();
    assert_eq!(
        names,
        vec![
            ("agent-1", "conversation-a"),
            ("agent-1", "conversation-b"),
            ("agent-2", "conversation-c"),
        ]
    );
}

#[test]
fn failed_lookups_leave_their_tasks_where_they_were() {
    let checked = vec![
        CheckedConversation {
            key: key("agent-1", "conversation-a"),
            check: Check::Failed,
        },
        CheckedConversation {
            key: key("agent-1", "conversation-b"),
            check: Check::Clear,
        },
        CheckedConversation {
            key: key("agent-2", "conversation-c"),
            check: Check::Aged,
        },
    ];
    let ordered = order_due_tasks_for_attention(due(), &checked);
    assert_eq!(ids(&ordered), vec!["task-4", "task-1", "task-2", "task-3"]);
}
