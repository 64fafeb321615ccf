use vstd::prelude::*;

verus! {

/// The status of a task handed to a worker.
#[derive(Debug, Clone, Copy, PartialEq, Eq, Structural)]
pub enum TaskStatus {
    Queued,
    Running,
    Success,
    Failed,
}

/// A unit of work for a worker: its type selects the handler, `data` is its payload.
#[derive(Debug, PartialEq)]
pub struct Task {
    pub task_type: String,
    pub data: serde_json::Value,
    pub status: TaskStatus,
}

impl Clone for Task {
    fn clone(&self) -> (r: Self)
        ensures
            r == *self,
    {
        Task { task_type: self.task_type.clone(), data: self.data.clone(), status: self.status }
    }
}

impl Task {
    /// A queued task of type `task_type` over `data`.
    pub fn new(task_type: String, data: serde_json::Value) -> (r: Self)
        ensures
            r.task_type == task_type,
            r.data == data,
            r.status == TaskStatus::Queued,
    {
        Task { task_type, data, status: TaskStatus::Queued }
    }
}

} // verus!
