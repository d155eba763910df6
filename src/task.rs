use vstd::prelude::*;

verus! {

/// Identity of a task, unique within the executor that owns it.
pub type TaskId = u64;

/// Scheduling priority of a task; a larger level is served first.
#[derive(Debug, Clone, Copy, PartialEq, Eq, Structural)]
pub struct TaskPriority(pub u8);

impl Default for TaskPriority {
    /// The priority given to a task for which none is specified.
    fn default() -> (r: Self)
        ensures
            r.0 == 0,
    {
        TaskPriority(0)
    }
}

/// One suspend/resume computation, as the scheduler sees it: its identity and
/// its priority. The computation itself is held by whoever polls it.
#[derive(Debug, Clone, Copy, PartialEq, Eq, Structural)]
pub struct Task {
    pub id: TaskId,
    pub priority: TaskPriority,
}

impl Task {
    pub fn new(id: TaskId, priority: TaskPriority) -> (r: Task)
        ensures
            r.id == id,
            r.priority == priority,
    {
        Task { id, priority }
    }
}

} // verus!
