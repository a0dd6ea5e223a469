use vstd::prelude::*;

verus! {

/// Where a task stands.
#[derive(Clone, Copy, Debug, PartialEq, Eq, Structural)]
pub enum Status {
    Todo,
    InProgress,
    Done,
}

/// A task: its identifier, what is to be done, and where it stands.
#[derive(Clone, Debug, PartialEq)]
pub struct Task {
    pub id: u32,
    pub description: String,
    pub status: Status,
}

/// The mathematical value of a task.
pub struct TaskView {
    pub id: u32,
    pub description: Seq<char>,
    pub status: Status,
}

impl View for Task {
    type V = TaskView;

    open spec fn view(&self) -> TaskView {
        TaskView { id: self.id, description: self.description@, status: self.status }
    }
}

/// The views of a sequence of tasks, in order.
pub open spec fn views(tasks: Seq<Task>) -> Seq<TaskView> {
    tasks.map_values(|t: Task| t@)
}

impl Task {
    /// A task equal to this one, with its own description.
    pub fn duplicate(&self) -> (r: Task)
        ensures
            r == *self,
    {
        Task { id: self.id, description: self.description.clone(), status: self.status }
    }
}

} // verus!
