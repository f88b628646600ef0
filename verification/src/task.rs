//! The task record and its mathematical view.

use vstd::prelude::*;

verus! {

/// One entry of the task list.
#[derive(Debug, Clone, PartialEq, Eq)]
pub struct Task {
    /// Identifier, unique among all tasks of a store, open or completed.
    pub id: usize,
    /// Name shown in the menu; distinct among the open tasks.
    pub name: String,
    /// Free text, possibly empty.
    pub description: String,
    /// Seconds since the epoch at which the task was created.
    pub time_created: u64,
    /// Whether the task has been completed.
    pub completed: bool,
    /// Seconds since the epoch at which the task was completed; `0` while open.
    pub time_completed: u64,
}

/// What a [`Task`] stands for in contracts.
pub struct TaskView {
    pub id: nat,
    pub name: Seq<char>,
    pub description: Seq<char>,
    pub time_created: nat,
    pub completed: bool,
    pub time_completed: nat,
}

impl View for Task {
    type V = TaskView;

    open spec fn view(&self) -> TaskView {
        TaskView {
            id: self.id as nat,
            name: self.name@,
            description: self.description@,
            time_created: self.time_created as nat,
            completed: self.completed,
            time_completed: self.time_completed as nat,
        }
    }
}

impl TaskView {
    /// A task as it stands right after creation.
    pub open spec fn fresh(id: nat, name: Seq<char>, description: Seq<char>, now: nat) -> TaskView {
        TaskView {
            id,
            name,
            description,
            time_created: now,
            completed: false,
            time_completed: 0,
        }
    }

    /// The same task, completed at `now`: every other field is kept.
    pub open spec fn closed_at(self, now: nat) -> TaskView {
        TaskView { completed: true, time_completed: now, ..self }
    }

    /// The task fits the machine types of [`Task`].
    pub open spec fn representable(self) -> bool {
        &&& self.id <= usize::MAX
        &&& self.time_created <= u64::MAX
        &&& self.time_completed <= u64::MAX
    }
}

/// The views of a sequence of tasks, in the same order.
pub open spec fn views(tasks: Seq<Task>) -> Seq<TaskView> {
    Seq::new(tasks.len(), |i: int| tasks[i]@)
}

impl Task {
    /// Builds the record of a newly created task.
    pub fn new(id: usize, name: String, description: String, now: u64) -> (task: Task)
        ensures
            task@ == TaskView::fresh(id as nat, name@, description@, now as nat),
    {
        Task { id, name, description, time_created: now, completed: false, time_completed: 0 }
    }

    /// Marks the task as completed at `now`, keeping every other field.
    pub fn close(self, now: u64) -> (task: Task)
        ensures
            task@ == self@.closed_at(now as nat),
    {
        Task { completed: true, time_completed: now, ..self }
    }
}

} // verus!
