use vstd::prelude::*;

use crate::deadline::{parse_deadline, parsed_deadline};

verus! {

/// How urgent a task is, ordered `Low < Medium < High`.
#[derive(PartialEq, Eq, Structural, Debug, Clone, Copy)]
pub enum TaskPriority {
    Low,
    Medium,
    High,
}

/// The rank of a priority: 1 for `Low`, 2 for `Medium`, 3 for `High`.
pub open spec fn rank_of(p: TaskPriority) -> i32 {
    match p {
        TaskPriority::Low => 1,
        TaskPriority::Medium => 2,
        TaskPriority::High => 3,
    }
}

/// The priority that a stored code stands for: 1 is `Low`, 2 is `Medium`,
/// every other code is `High`.
pub open spec fn priority_of_code(code: i32) -> TaskPriority {
    if code == 1 {
        TaskPriority::Low
    } else if code == 2 {
        TaskPriority::Medium
    } else {
        TaskPriority::High
    }
}

impl TaskPriority {
    /// The integer under which the priority is stored.
    pub fn code(&self) -> (r: i32)
        ensures
            r == rank_of(*self),
    {
        match self {
            TaskPriority::Low => 1,
            TaskPriority::Medium => 2,
            TaskPriority::High => 3,
        }
    }

    /// The priority for a stored integer.
    pub fn from_code(code: i32) -> (r: TaskPriority)
        ensures
            r == priority_of_code(code),
    {
        if code == 1 {
            TaskPriority::Low
        } else if code == 2 {
            TaskPriority::Medium
        } else {
            TaskPriority::High
        }
    }
}

/// A task as the store keeps it: the deadline as its short text and the
/// priority as an integer code.
#[derive(Debug)]
pub struct QueryTask {
    pub id: i32,
    pub done: bool,
    pub title: String,
    pub description: String,
    pub deadline: String,
    pub priority: i32,
}

/// A task in memory: the deadline both parsed (Unix seconds, UTC) and as
/// the short text it was written in.
#[derive(Debug)]
pub struct Task {
    pub id: i32,
    pub done: bool,
    pub title: String,
    pub description: String,
    pub deadline: i64,
    pub deadline_string: String,
    pub priority: TaskPriority,
}

/// Whether a task is the empty draft: no text, identifier 0, not done,
/// deadline at the epoch, priority `Low`.
pub open spec fn is_empty_task(t: Task) -> bool {
    &&& t.id == 0
    &&& !t.done
    &&& t.title@.len() == 0
    &&& t.description@.len() == 0
    &&& t.deadline == 0
    &&& t.deadline_string@.len() == 0
    &&& t.priority == TaskPriority::Low
}

impl Task {
    /// The empty draft.
    pub fn empty() -> (r: Task)
        ensures
            is_empty_task(r),
    {
        Task {
            id: 0,
            done: false,
            title: String::new(),
            description: String::new(),
            deadline: 0,
            deadline_string: String::new(),
            priority: TaskPriority::Low,
        }
    }
}

impl Default for Task {
    fn default() -> (r: Task)
        ensures
            is_empty_task(r),
    {
        Task::empty()
    }
}

impl Clone for Task {
    fn clone(&self) -> (r: Task)
        ensures
            r == *self,
    {
        Task {
            id: self.id,
            done: self.done,
            title: self.title.clone(),
            description: self.description.clone(),
            deadline: self.deadline,
            deadline_string: self.deadline_string.clone(),
            priority: self.priority,
        }
    }
}

/// The in-memory task for a stored row whose deadline text reads as `deadline`.
pub open spec fn task_of(q: QueryTask, deadline: i64) -> Task {
    Task {
        id: q.id,
        done: q.done,
        title: q.title,
        description: q.description,
        deadline,
        deadline_string: q.deadline,
        priority: priority_of_code(q.priority),
    }
}

/// The stored row for an in-memory task.
pub open spec fn query_of(t: Task) -> QueryTask {
    QueryTask {
        id: t.id,
        done: t.done,
        title: t.title,
        description: t.description,
        deadline: t.deadline_string,
        priority: rank_of(t.priority),
    }
}

/// The in-memory task for a stored row, or `None` where its deadline text
/// does not read as a timestamp.
pub open spec fn task_from_row(q: QueryTask) -> Option<Task> {
    match parsed_deadline(q.deadline@) {
        Some(d) => Some(task_of(q, d)),
        None => None,
    }
}

impl QueryTask {
    /// Converts a stored row to an in-memory task, given what its deadline
    /// text reads as.
    pub fn to_task_with(&self, parsed: Option<i64>) -> (r: Option<Task>)
        ensures
            r == (match parsed {
                Some(d) => Some(task_of(*self, d)),
                None => None::<Task>,
            }),
    {
        match parsed {
            Some(d) => Some(
                Task {
                    id: self.id,
                    done: self.done,
                    title: self.title.clone(),
                    description: self.description.clone(),
                    deadline: d,
                    deadline_string: self.deadline.clone(),
                    priority: TaskPriority::from_code(self.priority),
                },
            ),
            None => None,
        }
    }

    /// Converts a stored row to an in-memory task, parsing its deadline.
    pub fn to_task(&self) -> (r: Option<Task>)
        ensures
            r == task_from_row(*self),
    {
        self.to_task_with(parse_deadline(self.deadline.as_str()))
    }
}

impl Task {
    /// The row under which the task is stored.
    pub fn to_query(&self) -> (r: QueryTask)
        ensures
            r == query_of(*self),
    {
        QueryTask {
            id: self.id,
            done: self.done,
            title: self.title.clone(),
            description: self.description.clone(),
            deadline: self.deadline_string.clone(),
            priority: self.priority.code(),
        }
    }
}

/// Converting a row to a task and back keeps the identifier, the done flag,
/// the title, the description and the deadline text; the priority code
/// comes back as its bucket: 1 and 2 stay, every other code becomes 3.
pub proof fn lemma_row_round_trip(q: QueryTask, deadline: i64)
    ensures
        query_of(task_of(q, deadline)).id == q.id,
        query_of(task_of(q, deadline)).done == q.done,
        query_of(task_of(q, deadline)).title == q.title,
        query_of(task_of(q, deadline)).description == q.description,
        query_of(task_of(q, deadline)).deadline == q.deadline,
        query_of(task_of(q, deadline)).priority == (if q.priority == 1 {
            1i32
        } else if q.priority == 2 {
            2i32
        } else {
            3i32
        }),
        1 <= q.priority <= 3 ==> query_of(task_of(q, deadline)) == q,
{
}

/// A code other than 1 and 2 always gives `High`, whose code is 3.
pub proof fn lemma_other_codes_are_high(code: i32)
    requires
        code != 1,
        code != 2,
    ensures
        priority_of_code(code) == TaskPriority::High,
        rank_of(priority_of_code(code)) == 3,
{
}

} // verus!
