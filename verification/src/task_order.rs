//! The start order of due tasks: those of conversations that wait on a human
//! go first.

use vstd::prelude::*;

use crate::pairs::{self, ConversationKey, KeyView};

verus! {

/// A scheduled task that is due, as far as its start order goes.
#[derive(Debug)]
pub struct ScheduledTaskRecord {
    pub id: String,
    pub agent_id: String,
    pub conversation_id: String,
}

/// The contents of a [`ScheduledTaskRecord`].
#[verifier::ext_equal]
pub struct TaskView {
    pub id: Seq<char>,
    pub key: KeyView,
}

impl View for ScheduledTaskRecord {
    type V = TaskView;

    open spec fn view(&self) -> TaskView {
        TaskView { id: self.id@, key: (self.agent_id@, self.conversation_id@) }
    }
}

impl Clone for ScheduledTaskRecord {
    fn clone(&self) -> (copy: Self)
        ensures
            copy@ == self@,
    {
        ScheduledTaskRecord {
            id: self.id.clone(),
            agent_id: self.agent_id.clone(),
            conversation_id: self.conversation_id.clone(),
        }
    }
}

/// The contents of each task.
pub open spec fn task_views(tasks: Seq<ScheduledTaskRecord>) -> Seq<TaskView> {
    tasks.map_values(|task: ScheduledTaskRecord| task@)
}

/// The tasks of blocked conversations in the order they were due, then the
/// others in theirs.
pub open spec fn blocked_first(tasks: Seq<TaskView>, blocked: Seq<KeyView>) -> Seq<TaskView> {
    tasks.filter(|task: TaskView| blocked.contains(task.key)) + tasks.filter(
        |task: TaskView| !blocked.contains(task.key),
    )
}

/// The conversation of a task.
fn key_of(task: &ScheduledTaskRecord) -> (key: ConversationKey)
    ensures
        key@ == task@.key,
{
    ConversationKey {
        agent_id: task.agent_id.clone(),
        conversation_id: task.conversation_id.clone(),
    }
}

/// Orders due tasks: those of blocked conversations first, and otherwise as
/// they came.
pub fn order_tasks_by_attention(due: Vec<ScheduledTaskRecord>, blocked: &Vec<ConversationKey>) -> (ordered: Vec<
    ScheduledTaskRecord,
>)
    ensures
        task_views(ordered@) == blocked_first(task_views(due@), pairs::key_views(blocked@)),
{
    let ghost tasks = task_views(due@);
    let ghost keys = pairs::key_views(blocked@);
    let mut ordered = select_tasks(&due, blocked, true);
    let mut rest = select_tasks(&due, blocked, false);
    let ghost first = ordered@;
    let ghost second = rest@;
    ordered.append(&mut rest);
    proof {
        assert(task_views(ordered@) =~= task_views(first) + task_views(second));
        assert(tasks.filter(|task: TaskView| keys.contains(task.key) == true) == tasks.filter(
            |task: TaskView| keys.contains(task.key),
        )) by {
            crate::filters::equal_filters(
                tasks,
                |task: TaskView| keys.contains(task.key) == true,
                |task: TaskView| keys.contains(task.key),
            );
        }
        assert(tasks.filter(|task: TaskView| keys.contains(task.key) == false) == tasks.filter(
            |task: TaskView| !keys.contains(task.key),
        )) by {
            crate::filters::equal_filters(
                tasks,
                |task: TaskView| keys.contains(task.key) == false,
                |task: TaskView| !keys.contains(task.key),
            );
        }
    }
    ordered
}

/// The tasks whose conversation is blocked, or is not, as they came.
fn select_tasks(
    due: &Vec<ScheduledTaskRecord>,
    blocked: &Vec<ConversationKey>,
    wanted: bool,
) -> (selected: Vec<ScheduledTaskRecord>)
    ensures
        task_views(selected@) == task_views(due@).filter(
            |task: TaskView| pairs::key_views(blocked@).contains(task.key) == wanted,
        ),
{
    let ghost tasks = task_views(due@);
    let ghost pred = |task: TaskView| pairs::key_views(blocked@).contains(task.key) == wanted;
    let mut selected: Vec<ScheduledTaskRecord> = Vec::new();
    let mut i: usize = 0;
    proof {
        reveal(Seq::filter);
        assert(tasks.take(0) =~= Seq::empty());
        assert(task_views(selected@) =~= tasks.take(0).filter(pred));
    }
    while i < due.len()
        invariant
            i <= due.len(),
            tasks == task_views(due@),
            pred == (|task: TaskView| pairs::key_views(blocked@).contains(task.key) == wanted),
            task_views(selected@) == tasks.take(i as int).filter(pred),
        decreases due.len() - i,
    {
        let ghost before = selected@;
        proof {
            assert(tasks.take(i + 1).drop_last() =~= tasks.take(i as int));
            assert(tasks.take(i + 1).last() == due@[i as int]@);
            reveal(Seq::filter);
        }
        if pairs::holds_key(blocked, &key_of(&due[i])) == wanted {
            selected.push(due[i].clone());
            assert(task_views(selected@) =~= task_views(before).push(due@[i as int]@));
        }
        i += 1;
    }
    assert(tasks.take(i as int) =~= tasks);
    selected
}

/// The conversations whose pending requests decide the order, each once.
pub fn conversations_to_check(due: &Vec<ScheduledTaskRecord>) -> (keys: Vec<ConversationKey>)
    ensures
        pairs::key_views(keys@) == pairs::distinct(
            task_views(due@).map_values(|task: TaskView| task.key),
        ),
{
    let mut all: Vec<ConversationKey> = Vec::new();
    let mut i: usize = 0;
    while i < due.len()
        invariant
            i <= due.len(),
            all.len() == i,
            forall|j: int| 0 <= j < i ==> (#[trigger] all@[j])@ == due@[j]@.key,
        decreases due.len() - i,
    {
        all.push(key_of(&due[i]));
        i += 1;
    }
    assert(pairs::key_views(all@) =~= task_views(due@).map_values(|task: TaskView| task.key));
    pairs::distinct_keys(&all)
}

/// What looking up a conversation's pending requests gave.
#[derive(Debug, Clone, Copy, PartialEq, Eq, Structural)]
pub enum Check {
    /// One of them is aged.
    Aged,
    /// None is, or the conversation is gone.
    Clear,
    /// The lookup failed.
    Failed,
}

/// A conversation and what looking it up gave.
#[derive(Debug)]
pub struct CheckedConversation {
    pub key: ConversationKey,
    pub check: Check,
}

/// The conversations that are blocked, by what looking them up gave.
pub open spec fn blocked_among(checked: Seq<CheckedConversation>) -> Seq<KeyView> {
    checked.filter(|entry: CheckedConversation| entry.check is Aged).map_values(
        |entry: CheckedConversation| entry.key@,
    )
}

/// Orders due tasks by what looking their conversations up gave: a lookup that
/// failed leaves its tasks where they were.
pub fn order_due_tasks_for_attention(
    due: Vec<ScheduledTaskRecord>,
    checked: &Vec<CheckedConversation>,
) -> (ordered: Vec<ScheduledTaskRecord>)
    ensures
        task_views(ordered@) == blocked_first(task_views(due@), blocked_among(checked@)),
{
    let mut blocked: Vec<ConversationKey> = Vec::new();
    let mut i: usize = 0;
    proof {
        reveal(Seq::filter);
        assert(checked@.take(0) =~= Seq::empty());
        assert(pairs::key_views(blocked@) =~= blocked_among(checked@.take(0)));
    }
    while i < checked.len()
        invariant
            i <= checked.len(),
            pairs::key_views(blocked@) == blocked_among(checked@.take(i as int)),
        decreases checked.len() - i,
    {
        let ghost before = blocked@;
        let ghost earlier = blocked_among(checked@.take(i as int));
        let ghost now = blocked_among(checked@.take(i + 1));
        proof {
            assert(checked@.take(i + 1).drop_last() =~= checked@.take(i as int));
            assert(checked@.take(i + 1).last() == checked@[i as int]);
            reveal(Seq::filter);
        }
        if checked[i].check == Check::Aged {
            blocked.push(checked[i].key.clone());
            assert(now =~= earlier.push(checked@[i as int].key@));
            assert(pairs::key_views(blocked@) =~= pairs::key_views(before).push(
                checked@[i as int].key@,
            ));
        } else {
            assert(now =~= earlier);
        }
        i += 1;
    }
    assert(checked@.take(i as int) =~= checked@);
    order_tasks_by_attention(due, &blocked)
}

/// Nothing blocked, nothing moved.
pub proof fn nothing_blocked_keeps_the_order(tasks: Seq<TaskView>)
    ensures
        blocked_first(tasks, Seq::empty()) == tasks,
{
    let none = Seq::<KeyView>::empty();
    let yes = |task: TaskView| none.contains(task.key);
    let no = |task: TaskView| !none.contains(task.key);
    tasks.lemma_all_neg_filter_empty(yes);
    crate::filters::keeping_all(tasks, no);
    assert(tasks.filter(yes) =~= Seq::empty());
    assert(blocked_first(tasks, none) =~= tasks);
}

/// Ordering starts every due task once: it neither loses nor doubles one.
pub proof fn ordering_keeps_every_task(tasks: Seq<TaskView>, blocked: Seq<KeyView>)
    ensures
        blocked_first(tasks, blocked).to_multiset() == tasks.to_multiset(),
        blocked_first(tasks, blocked).len() == tasks.len(),
    decreases tasks.len(),
{
    broadcast use vstd::seq_lib::group_to_multiset_ensures;
    broadcast use vstd::multiset::group_multiset_axioms;

    reveal(Seq::filter);
    let yes = |task: TaskView| blocked.contains(task.key);
    let no = |task: TaskView| !blocked.contains(task.key);
    if tasks.len() > 0 {
        let rest = tasks.drop_last();
        let last = tasks.last();
        ordering_keeps_every_task(rest, blocked);
        assert(rest.push(last) =~= tasks);
        vstd::seq_lib::lemma_multiset_commutative(rest.filter(yes), rest.filter(no));
        vstd::seq_lib::lemma_multiset_commutative(tasks.filter(yes), tasks.filter(no));
        if yes(last) {
            assert(tasks.filter(yes) == rest.filter(yes).push(last));
            assert(tasks.filter(no) == rest.filter(no));
        } else {
            assert(tasks.filter(yes) == rest.filter(yes));
            assert(tasks.filter(no) == rest.filter(no).push(last));
        }
        assert(blocked_first(tasks, blocked).to_multiset() =~= tasks.to_multiset());
    } else {
        assert(blocked_first(tasks, blocked) =~= tasks);
    }
}

/// Every task of a blocked conversation starts before every other task.
pub proof fn blocked_tasks_start_first(
    tasks: Seq<TaskView>,
    blocked: Seq<KeyView>,
    i: int,
    j: int,
)
    requires
        0 <= i < blocked_first(tasks, blocked).len(),
        0 <= j < blocked_first(tasks, blocked).len(),
        blocked.contains(blocked_first(tasks, blocked)[i].key),
        !blocked.contains(blocked_first(tasks, blocked)[j].key),
    ensures
        i < j,
{
    let yes = |task: TaskView| blocked.contains(task.key);
    let no = |task: TaskView| !blocked.contains(task.key);
    let first = tasks.filter(yes);
    let second = tasks.filter(no);
    if j < first.len() {
        assert(yes(first[j]));
    }
    if i >= first.len() {
        assert(no(second[i - first.len()]));
    }
}

} // verus!
