use vstd::prelude::*;

use crate::deadline::{parse_deadline, parsed_deadline};
use crate::models::{is_empty_task, query_of, task_from_row, QueryTask, Task, TaskPriority};

verus! {

/// What can go wrong when a task is created.
#[derive(PartialEq, Eq, Structural, Debug, Clone, Copy)]
pub enum TaskError {
    MissingTitle,
    MissingDescription,
    BadDeadline,
    NotStored,
}

/// The message shown to the user for an error.
pub open spec fn message_of(e: TaskError) -> Seq<char> {
    match e {
        TaskError::MissingTitle => "Task title should be specified."@,
        TaskError::MissingDescription => "Task description should not be empty."@,
        TaskError::BadDeadline => "Wrong deadline format."@,
        TaskError::NotStored => "Error while adding task to database."@,
    }
}

impl TaskError {
    /// The message shown to the user.
    pub fn message(&self) -> (r: &'static str)
        ensures
            r@ == message_of(*self),
    {
        match self {
            TaskError::MissingTitle => "Task title should be specified.",
            TaskError::MissingDescription => "Task description should not be empty.",
            TaskError::BadDeadline => "Wrong deadline format.",
            TaskError::NotStored => "Error while adding task to database.",
        }
    }
}

/// How the task list is ordered before it is shown.
#[derive(PartialEq, Eq, Structural, Debug, Clone, Copy)]
pub enum SortMode {
    /// In the order the tasks were loaded or created.
    Unsorted,
    /// Highest priority first.
    Priority,
    /// Earliest deadline first.
    Deadline,
}

/// The errors that a draft with this title, description and parsed
/// deadline gets, in this order: title, description, deadline.
pub open spec fn validation_errors(
    title: Seq<char>,
    description: Seq<char>,
    parsed: Option<i64>,
) -> Seq<TaskError> {
    (if title.len() == 0 {
        seq![TaskError::MissingTitle]
    } else {
        Seq::empty()
    }) + (if description.len() == 0 {
        seq![TaskError::MissingDescription]
    } else {
        Seq::empty()
    }) + (if parsed is None {
        seq![TaskError::BadDeadline]
    } else {
        Seq::empty()
    })
}

/// The draft after validation: the parsed deadline where there is one,
/// else the deadline it had.
pub open spec fn checked_task(t: Task, parsed: Option<i64>) -> Task {
    match parsed {
        Some(d) => Task { deadline: d, ..t },
        None => t,
    }
}

/// Validates a draft against the deadline read from its text: rebuilds
/// `errors` from nothing and, where the deadline was read, stores it.
pub fn check_new_task_with(new_task: &mut Task, errors: &mut Vec<TaskError>, parsed: Option<i64>)
    ensures
        final(errors)@ == validation_errors(old(new_task).title@, old(new_task).description@, parsed),
        *final(new_task) == checked_task(*old(new_task), parsed),
{
    errors.clear();
    if new_task.title.as_str().is_empty() {
        errors.push(TaskError::MissingTitle);
    }
    if new_task.description.as_str().is_empty() {
        errors.push(TaskError::MissingDescription);
    }
    match parsed {
        Some(d) => {
            new_task.deadline = d;
        },
        None => {
            errors.push(TaskError::BadDeadline);
        },
    }
    assert(errors@ =~= validation_errors(old(new_task).title@, old(new_task).description@, parsed));
}

/// Validates a draft: title and description must not be empty and the
/// deadline text must read as a timestamp. `errors` is rebuilt from nothing.
pub fn check_new_task(new_task: &mut Task, errors: &mut Vec<TaskError>)
    ensures
        final(errors)@ == validation_errors(
            old(new_task).title@,
            old(new_task).description@,
            parsed_deadline(old(new_task).deadline_string@),
        ),
        *final(new_task) == checked_task(*old(new_task), parsed_deadline(old(new_task).deadline_string@)),
{
    let parsed = parse_deadline(new_task.deadline_string.as_str());
    check_new_task_with(new_task, errors, parsed);
}

/// Each of an empty title, an empty description and an unreadable deadline
/// gives exactly one error of its own; a draft with none of them gives none.
pub proof fn lemma_one_error_per_fault(title: Seq<char>, description: Seq<char>, parsed: Option<i64>)
    ensures
        validation_errors(title, description, parsed).len() == (if title.len() == 0 {
            1int
        } else {
            0
        }) + (if description.len() == 0 {
            1int
        } else {
            0
        }) + (if parsed is None {
            1int
        } else {
            0
        }),
        validation_errors(title, description, parsed).contains(TaskError::MissingTitle) <==> title.len() == 0,
        validation_errors(title, description, parsed).contains(TaskError::MissingDescription) <==> description.len() == 0,
        validation_errors(title, description, parsed).contains(TaskError::BadDeadline) <==> parsed is None,
        !validation_errors(title, description, parsed).contains(TaskError::NotStored),
{
    let e = validation_errors(title, description, parsed);
    if title.len() == 0 {
        assert(e[0] == TaskError::MissingTitle);
    }
    if description.len() == 0 {
        let k: int = if title.len() == 0 { 1 } else { 0 };
        assert(e[k] == TaskError::MissingDescription);
    }
    if parsed is None {
        assert(e[e.len() - 1] == TaskError::BadDeadline);
    }
}

/// Validating a draft a second time, unchanged, gives the same errors as
/// the first time, and leaves the draft as the first time left it.
pub proof fn lemma_validation_repeats(t: Task, parsed: Option<i64>)
    ensures
        checked_task(checked_task(t, parsed), parsed) == checked_task(t, parsed),
        validation_errors(checked_task(t, parsed).title@, checked_task(t, parsed).description@, parsed)
            == validation_errors(t.title@, t.description@, parsed),
        checked_task(t, parsed).deadline_string == t.deadline_string,
{
}

/// The application state: the tasks in memory, the draft of a new task,
/// the errors of the last create attempt and the chosen order.
#[derive(Debug)]
pub struct Todolist {
    pub tasks: Vec<Task>,
    pub new_task: Task,
    pub errors: Vec<TaskError>,
    pub sort_by: SortMode,
}

/// The task with its done flag set.
pub open spec fn done_task(t: Task) -> Task {
    Task { done: true, ..t }
}

impl Todolist {
    /// A list holding the tasks loaded from the store, with an empty draft,
    /// no errors and no ordering chosen.
    pub fn new(tasks: Vec<Task>) -> (r: Todolist)
        ensures
            r.tasks@ == tasks@,
            is_empty_task(r.new_task),
            r.errors@.len() == 0,
            r.sort_by == SortMode::Unsorted,
    {
        Todolist { tasks, new_task: Task::empty(), errors: Vec::new(), sort_by: SortMode::Unsorted }
    }

    /// The tasks for rows loaded from the store, in their order, or `None`
    /// where a row's deadline text does not read as a timestamp.
    pub fn fetch_tasks(rows: &Vec<QueryTask>) -> (r: Option<Vec<Task>>)
        ensures
            r is Some <==> forall|i: int| 0 <= i < rows@.len() ==> (#[trigger] task_from_row(rows@[i])) is Some,
            r matches Some(v) ==> v@.len() == rows@.len() && forall|i: int|
                0 <= i < rows@.len() ==> task_from_row(rows@[i]) == Some(#[trigger] v@[i]),
    {
        let mut out: Vec<Task> = Vec::new();
        let mut i: usize = 0;
        while i < rows.len()
            invariant
                i <= rows@.len(),
                out@.len() == i,
                forall|j: int| 0 <= j < i ==> task_from_row(rows@[j]) == Some(#[trigger] out@[j]),
            decreases rows@.len() - i,
        {
            match rows[i].to_task() {
                Some(t) => out.push(t),
                None => {
                    assert(task_from_row(rows@[i as int]) is None);
                    return None;
                },
            }
            i = i + 1;
        }
        assert forall|j: int| 0 <= j < rows@.len() implies (#[trigger] task_from_row(rows@[j])) is Some by {
            assert(task_from_row(rows@[j]) == Some(out@[j]));
        }
        Some(out)
    }

    /// First half of creating a task, given the deadline read from the
    /// draft's text: numbers the draft after the tasks in memory and
    /// validates it. Returns the row to store where there were no errors.
    pub fn prepare_new_task_with(&mut self, parsed: Option<i64>) -> (r: Option<QueryTask>)
        ensures
            final(self).tasks@ == old(self).tasks@,
            final(self).sort_by == old(self).sort_by,
            final(self).new_task == checked_task(
                Task { id: old(self).tasks@.len() as i32, ..old(self).new_task },
                parsed,
            ),
            final(self).errors@ == validation_errors(
                old(self).new_task.title@,
                old(self).new_task.description@,
                parsed,
            ),
            r is Some <==> final(self).errors@.len() == 0,
            r matches Some(q) ==> q == query_of(final(self).new_task),
    {
        self.new_task.id = self.tasks.len() as i32;
        check_new_task_with(&mut self.new_task, &mut self.errors, parsed);
        if self.errors.len() == 0 {
            Some(self.new_task.to_query())
        } else {
            None
        }
    }

    /// First half of creating a task: numbers the draft after the tasks in
    /// memory and validates it. Returns the row to store where there were
    /// no errors.
    pub fn prepare_new_task(&mut self) -> (r: Option<QueryTask>)
        ensures
            final(self).tasks@ == old(self).tasks@,
            final(self).sort_by == old(self).sort_by,
            final(self).new_task == checked_task(
                Task { id: old(self).tasks@.len() as i32, ..old(self).new_task },
                parsed_deadline(old(self).new_task.deadline_string@),
            ),
            final(self).errors@ == validation_errors(
                old(self).new_task.title@,
                old(self).new_task.description@,
                parsed_deadline(old(self).new_task.deadline_string@),
            ),
            r is Some <==> final(self).errors@.len() == 0,
            r matches Some(q) ==> q == query_of(final(self).new_task),
    {
        let parsed = parse_deadline(self.new_task.deadline_string.as_str());
        self.prepare_new_task_with(parsed)
    }

    /// Second half of creating a task, once the store has answered. Where
    /// it stored the row, the draft joins the tasks, a new empty draft
    /// takes its place and the result is `true` (the form may close).
    /// Where it did not, the tasks and the draft stay and an error is added.
    pub fn finish_new_task(&mut self, stored: bool) -> (closed: bool)
        ensures
            closed == stored,
            final(self).sort_by == old(self).sort_by,
            stored ==> {
                &&& final(self).tasks@ == old(self).tasks@.push(old(self).new_task)
                &&& is_empty_task(final(self).new_task)
                &&& final(self).errors@ == old(self).errors@
            },
            !stored ==> {
                &&& final(self).tasks@ == old(self).tasks@
                &&& final(self).new_task == old(self).new_task
                &&& final(self).errors@ == old(self).errors@.push(TaskError::NotStored)
            },
    {
        if stored {
            let mut draft = Task::empty();
            std::mem::swap(&mut draft, &mut self.new_task);
            self.tasks.push(draft);
            true
        } else {
            self.errors.push(TaskError::NotStored);
            false
        }
    }

    /// Marks the task at `index` done once the store has answered: the flag
    /// is set only where the store reported success.
    pub fn mark_done(&mut self, index: usize, stored: bool)
        requires
            index < old(self).tasks@.len(),
        ensures
            stored ==> final(self).tasks@ == old(self).tasks@.update(index as int, done_task(old(self).tasks@[index as int])),
            !stored ==> final(self).tasks@ == old(self).tasks@,
            final(self).new_task == old(self).new_task,
            final(self).errors@ == old(self).errors@,
            final(self).sort_by == old(self).sort_by,
    {
        if stored {
            let mut t = self.tasks[index].clone();
            t.done = true;
            self.tasks.set(index, t);
        }
    }

    /// The positions, in order, of the tasks that are shown: those not done.
    pub fn visible_tasks(&self) -> (r: Vec<usize>)
        ensures
            forall|k: int| 0 <= k < r@.len() ==> (#[trigger] r@[k]) < self.tasks@.len() && !self.tasks@[r@[k] as int].done,
            forall|k: int, l: int| 0 <= k < l < r@.len() ==> r@[k] < r@[l],
            forall|i: int| 0 <= i < self.tasks@.len() && !(#[trigger] self.tasks@[i]).done ==> r@.contains(i as usize),
    {
        let mut r: Vec<usize> = Vec::new();
        let mut i: usize = 0;
        while i < self.tasks.len()
            invariant
                i <= self.tasks@.len(),
                forall|k: int| 0 <= k < r@.len() ==> (#[trigger] r@[k]) < i && !self.tasks@[r@[k] as int].done,
                forall|k: int, l: int| 0 <= k < l < r@.len() ==> r@[k] < r@[l],
                forall|j: int| 0 <= j < i && !(#[trigger] self.tasks@[j]).done ==> r@.contains(j as usize),
            decreases self.tasks@.len() - i,
        {
            if !self.tasks[i].done {
                let ghost prev = r@;
                r.push(i);
                assert forall|j: int| 0 <= j <= i && !(#[trigger] self.tasks@[j]).done implies r@.contains(
                    j as usize,
                ) by {
                    if j < i {
                        let k = choose|k: int| 0 <= k < prev.len() && prev[k] == j as usize;
                        assert(r@[k] == j as usize);
                    } else {
                        assert(r@[r@.len() - 1] == j as usize);
                    }
                }
            }
            i = i + 1;
        }
        r
    }
}

/// Holds of the tasks with priority `p`.
pub open spec fn priority_is(p: TaskPriority) -> spec_fn(Task) -> bool {
    |t: Task| t.priority == p
}

/// Holds of the tasks due at `d`.
pub open spec fn deadline_is(d: i64) -> spec_fn(Task) -> bool {
    |t: Task| t.deadline == d
}

/// The tasks by descending priority, each priority in the order it had.
pub open spec fn by_priority(s: Seq<Task>) -> Seq<Task> {
    s.filter(priority_is(TaskPriority::High)) + s.filter(priority_is(TaskPriority::Medium)) + s.filter(
        priority_is(TaskPriority::Low),
    )
}

/// Whether the tasks come by ascending deadline.
pub open spec fn sorted_by_deadline(s: Seq<Task>) -> bool {
    forall|a: int, b: int| 0 <= a < b < s.len() ==> s[a].deadline <= s[b].deadline
}

/// Whether, for every deadline, the tasks due then come in the same order.
pub open spec fn same_order_per_deadline(before: Seq<Task>, after: Seq<Task>) -> bool {
    forall|d: i64| #[trigger] after.filter(deadline_is(d)) == before.filter(deadline_is(d))
}

/// Whether `after` is `before` put in the order that `mode` asks for; ties
/// keep the order they had.
pub open spec fn reordered(before: Seq<Task>, after: Seq<Task>, mode: SortMode) -> bool {
    match mode {
        SortMode::Unsorted => after == before,
        SortMode::Priority => after == by_priority(before),
        SortMode::Deadline => sorted_by_deadline(after) && same_order_per_deadline(before, after),
    }
}

/// The tasks with priority `p`, in their order.
fn tasks_with_priority(tasks: &Vec<Task>, p: TaskPriority) -> (r: Vec<Task>)
    ensures
        r@ == tasks@.filter(priority_is(p)),
{
    let mut r: Vec<Task> = Vec::new();
    let mut i: usize = 0;
    while i < tasks.len()
        invariant
            i <= tasks@.len(),
            r@ == tasks@.take(i as int).filter(priority_is(p)),
        decreases tasks@.len() - i,
    {
        proof {
            assert(tasks@.take(i + 1) =~= tasks@.take(i as int).push(tasks@[i as int]));
            tasks@.take(i as int).lemma_filter_push(tasks@[i as int], priority_is(p));
        }
        if tasks[i].priority == p {
            r.push(tasks[i].clone());
        }
        i = i + 1;
    }
    assert(tasks@.take(i as int) =~= tasks@);
    r
}

/// The tasks by descending priority, ties in the order they had.
fn sort_by_priority(tasks: &Vec<Task>) -> (r: Vec<Task>)
    ensures
        r@ == by_priority(tasks@),
{
    let mut r = tasks_with_priority(tasks, TaskPriority::High);
    let mut medium = tasks_with_priority(tasks, TaskPriority::Medium);
    let mut low = tasks_with_priority(tasks, TaskPriority::Low);
    r.append(&mut medium);
    r.append(&mut low);
    r
}

proof fn lemma_filter_single(t: Task, pred: spec_fn(Task) -> bool)
    ensures
        seq![t].filter(pred) == (if pred(t) {
            seq![t]
        } else {
            Seq::<Task>::empty()
        }),
{
    reveal(Seq::filter);
    assert(seq![t].drop_last() =~= Seq::<Task>::empty());
    assert(Seq::<Task>::empty().filter(pred) =~= Seq::<Task>::empty());
}

/// The tasks by ascending deadline, ties in the order they had.
fn sort_by_deadline(tasks: &Vec<Task>) -> (r: Vec<Task>)
    ensures
        sorted_by_deadline(r@),
        same_order_per_deadline(tasks@, r@),
{
    let mut out: Vec<Task> = Vec::new();
    let mut i: usize = 0;
    while i < tasks.len()
        invariant
            i <= tasks@.len(),
            sorted_by_deadline(out@),
            forall|d: i64| #[trigger] out@.filter(deadline_is(d)) == tasks@.take(i as int).filter(deadline_is(d)),
        decreases tasks@.len() - i,
    {
        let t = tasks[i].clone();
        let mut p: usize = 0;
        while p < out.len() && out[p].deadline <= t.deadline
            invariant
                p <= out@.len(),
                forall|k: int| 0 <= k < p ==> (#[trigger] out@[k]).deadline <= t.deadline,
            decreases out@.len() - p,
        {
            p = p + 1;
        }
        let ghost prev = out@;
        out.insert(p, t);
        proof {
            assert(forall|k: int| p <= k < prev.len() ==> (#[trigger] prev[k]).deadline > t.deadline) by {
                assert forall|k: int| p <= k < prev.len() implies (#[trigger] prev[k]).deadline > t.deadline by {
                    assert(prev[p as int].deadline > t.deadline);
                    assert(prev[p as int].deadline <= prev[k].deadline);
                }
            }
            assert(out@ =~= prev.take(p as int) + seq![t] + prev.skip(p as int));
            assert(prev =~= prev.take(p as int) + prev.skip(p as int));
            assert(tasks@.take(i + 1) =~= tasks@.take(i as int).push(t));
            assert forall|d: i64| #[trigger] out@.filter(deadline_is(d)) == tasks@.take(i + 1).filter(deadline_is(d)) by {
                let pred = deadline_is(d);
                Seq::filter_distributes_over_add(prev.take(p as int) + seq![t], prev.skip(p as int), pred);
                Seq::filter_distributes_over_add(prev.take(p as int), seq![t], pred);
                Seq::filter_distributes_over_add(prev.take(p as int), prev.skip(p as int), pred);
                lemma_filter_single(t, pred);
                tasks@.take(i as int).lemma_filter_push(t, pred);
                if d == t.deadline {
                    assert(prev.skip(p as int).all(|x: Task| !pred(x)));
                    prev.skip(p as int).lemma_all_neg_filter_empty(pred);
                    assert(prev.skip(p as int).filter(pred) =~= Seq::<Task>::empty());
                    assert(out@.filter(pred) =~= prev.filter(pred).push(t));
                } else {
                    assert(out@.filter(pred) =~= prev.filter(pred));
                }
            }
            assert forall|a: int, b: int| 0 <= a < b < out@.len() implies out@[a].deadline <= out@[b].deadline by {
                if b < p {
                } else if b == p {
                } else if a < p {
                    assert(out@[b] == prev[b - 1]);
                } else if a == p {
                    assert(out@[b] == prev[b - 1]);
                } else {
                    assert(out@[a] == prev[a - 1]);
                    assert(out@[b] == prev[b - 1]);
                }
            }
        }
        i = i + 1;
    }
    assert(tasks@.take(i as int) =~= tasks@);
    out
}

impl Todolist {
    /// Puts the tasks in the order that `sort_by` asks for: highest priority
    /// first, or earliest deadline first; ties keep their order. With no
    /// order chosen the tasks stay as they are.
    pub fn sort_tasks(&mut self)
        ensures
            reordered(old(self).tasks@, final(self).tasks@, old(self).sort_by),
            final(self).new_task == old(self).new_task,
            final(self).errors@ == old(self).errors@,
            final(self).sort_by == old(self).sort_by,
    {
        match self.sort_by {
            SortMode::Unsorted => {},
            SortMode::Priority => {
                self.tasks = sort_by_priority(&self.tasks);
            },
            SortMode::Deadline => {
                self.tasks = sort_by_deadline(&self.tasks);
            },
        }
    }
}

/// Sorting in any mode keeps every task in the list: a task that is done,
/// and so not shown, can still be found and marked.
pub proof fn lemma_sorting_keeps_tasks(before: Seq<Task>, after: Seq<Task>, mode: SortMode, i: int)
    requires
        reordered(before, after, mode),
        0 <= i < before.len(),
    ensures
        after.contains(before[i]),
{
    let t = before[i];
    match mode {
        SortMode::Unsorted => {
            assert(after[i] == t);
        },
        SortMode::Priority => {
            let hi = before.filter(priority_is(TaskPriority::High));
            let mid = before.filter(priority_is(TaskPriority::Medium));
            let lo = before.filter(priority_is(TaskPriority::Low));
            before.lemma_filter_contains(priority_is(t.priority), i);
            let part = before.filter(priority_is(t.priority));
            let k = choose|k: int| 0 <= k < part.len() && part[k] == t;
            if t.priority == TaskPriority::High {
                assert(after[k] == t);
            } else if t.priority == TaskPriority::Medium {
                assert(after[hi.len() + k] == t);
            } else {
                assert(after[hi.len() + mid.len() + k] == t);
            }
        },
        SortMode::Deadline => {
            let pred = deadline_is(t.deadline);
            before.lemma_filter_contains(pred, i);
            assert(after.filter(pred) == before.filter(pred));
            after.lemma_filter_contains_rev(pred, t);
        },
    }
}

} // verus!
