//! The start order of due tasks, told task by task.

use vstd::prelude::*;

use crate::filters;
use crate::pairs::KeyView;
use crate::task_order::{self, Check, CheckedConversation, ScheduledTaskRecord, TaskView};

verus! {

/// Whether one due task starts before another: its conversation is blocked and
/// the other's is not, or they are alike in that and it was due before it.
pub open spec fn starts_before(
    tasks: Seq<TaskView>,
    blocked: Seq<KeyView>,
    i: int,
    j: int,
) -> bool {
    if blocked.contains(tasks[i].key) == blocked.contains(tasks[j].key) {
        i < j
    } else {
        blocked.contains(tasks[i].key)
    }
}

/// Whether `ordered` is the due tasks, each once, in the order in which they
/// start: `from` says where each was due.
pub open spec fn is_start_order(
    tasks: Seq<TaskView>,
    blocked: Seq<KeyView>,
    ordered: Seq<TaskView>,
    from: Seq<int>,
) -> bool {
    &&& from.len() == tasks.len()
    &&& ordered.len() == tasks.len()
    &&& forall|k: int|
        0 <= k < from.len() ==> 0 <= (#[trigger] from[k]) < tasks.len() && ordered[k]
            == tasks[from[k]]
    &&& forall|j: int, k: int|
        0 <= j < k < from.len() ==> starts_before(
            tasks,
            blocked,
            #[trigger] from[j],
            #[trigger] from[k],
        )
}

/// The order is stable: tasks of blocked conversations start first, and apart
/// from that every task starts where it was due.
pub proof fn due_tasks_start_in_order(tasks: Seq<TaskView>, blocked: Seq<KeyView>)
    ensures
        exists|from: Seq<int>| #[trigger]
            is_start_order(tasks, blocked, task_order::blocked_first(tasks, blocked), from),
{
    let yes = |task: TaskView| blocked.contains(task.key);
    let no = |task: TaskView| !blocked.contains(task.key);
    let a = filters::kept_positions(tasks, yes);
    let b = filters::kept_positions(tasks, no);
    let from = a + b;
    let ordered = task_order::blocked_first(tasks, blocked);
    task_order::ordering_keeps_every_task(tasks, blocked);
    assert forall|k: int| 0 <= k < from.len() implies 0 <= (#[trigger] from[k]) < tasks.len()
        && ordered[k] == tasks[from[k]] by {
        if k < a.len() {
            assert(from[k] == a[k]);
        } else {
            assert(from[k] == b[k - a.len()]);
        }
    }
    assert forall|j: int, k: int| 0 <= j < k < from.len() implies starts_before(
        tasks,
        blocked,
        #[trigger] from[j],
        #[trigger] from[k],
    ) by {
        if k < a.len() {
            assert(from[j] == a[j] && from[k] == a[k]);
            assert((|i: int| yes(tasks[i]))(a[j]) && (|i: int| yes(tasks[i]))(a[k]));
        } else if j < a.len() {
            assert(from[j] == a[j] && from[k] == b[k - a.len()]);
            assert((|i: int| yes(tasks[i]))(a[j]) && (|i: int| no(tasks[i]))(b[k - a.len()]));
        } else {
            assert(from[j] == b[j - a.len()] && from[k] == b[k - a.len()]);
            assert((|i: int| no(tasks[i]))(b[j - a.len()]) && (|i: int| no(tasks[i]))(
                b[k - a.len()],
            ));
        }
    }
    assert(is_start_order(tasks, blocked, ordered, from));
}

/// Whether a conversation was found to have an aged request.
pub open spec fn was_found_aged(checked: Seq<CheckedConversation>, key: KeyView) -> bool {
    exists|i: int|
        0 <= i < checked.len() && (#[trigger] checked[i]).check == Check::Aged
            && checked[i].key.agent_id@ == key.0 && checked[i].key.conversation_id@ == key.1
}

/// A conversation is blocked exactly where a lookup found it to have an aged
/// request: a lookup that failed blocks nothing.
pub proof fn aged_conversations_are_blocked(checked: Seq<CheckedConversation>, key: KeyView)
    ensures
        task_order::blocked_among(checked).contains(key) <==> was_found_aged(checked, key),
{
    let keep = |entry: CheckedConversation| entry.check is Aged;
    let from = filters::kept_positions(checked, keep);
    let blocked = task_order::blocked_among(checked);
    if blocked.contains(key) {
        let k = choose|k: int| 0 <= k < blocked.len() && blocked[k] == key;
        assert((|i: int| keep(checked[i]))(from[k]));
        assert(checked[from[k]].key@ == key);
    }
    if was_found_aged(checked, key) {
        let i = choose|i: int|
            0 <= i < checked.len() && (#[trigger] checked[i]).check == Check::Aged
                && checked[i].key.agent_id@ == key.0 && checked[i].key.conversation_id@ == key.1;
        assert((|i: int| keep(checked[i]))(i));
        assert(from.contains(i));
        let k = choose|k: int| 0 <= k < from.len() && from[k] == i;
        assert(blocked[k] == checked[i].key@);
        assert(blocked[k] == key);
    }
}

/// A task's view shows its id and its conversation.
pub proof fn a_task_shows_every_field(task: ScheduledTaskRecord)
    ensures
        task@.id == task.id@,
        task@.key.0 == task.agent_id@,
        task@.key.1 == task.conversation_id@,
{
}

/// The contents of a run of tasks are theirs, one for one and in order.
pub proof fn task_contents_are_those_of_the_tasks(tasks: Seq<ScheduledTaskRecord>)
    ensures
        task_order::task_views(tasks).len() == tasks.len(),
        forall|i: int|
            0 <= i < tasks.len() ==> #[trigger] task_order::task_views(tasks)[i] == tasks[i]@,
{
}

} // verus!
