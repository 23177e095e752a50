//! The task record and its mathematical model.

use vstd::prelude::*;

verus! {

/// One to-do item: what is to be done, and whether it has been done.
#[derive(Debug, Clone, PartialEq, Eq)]
pub struct Task {
    pub description: String,
    pub completed: bool,
}

/// The mathematical value of a [`Task`].
pub ghost struct TaskView {
    pub description: Seq<char>,
    pub completed: bool,
}

impl View for Task {
    type V = TaskView;

    open spec fn view(&self) -> TaskView {
        TaskView { description: self.description@, completed: self.completed }
    }
}

/// The sequence of task values that a vector of tasks stands for.
pub open spec fn model(tasks: Seq<Task>) -> Seq<TaskView> {
    Seq::new(tasks.len(), |i: int| tasks[i]@)
}

impl Task {
    /// A task that is still to be done.
    pub fn new(description: &str) -> (task: Task)
        ensures
            task@ == (TaskView { description: description@, completed: false }),
    {
        Task { description: description.to_owned(), completed: false }
    }
}

} // verus!
