use vstd::prelude::*;

use crate::error::{InternalError, Result};
use crate::task::{Task, TaskId};

verus! {

/// Identity of an executor, unique within the inspector that owns it.
pub type ExecutorId = u64;

/// Scheduling priority of an executor; a larger level is served first.
#[derive(Debug, Clone, Copy, PartialEq, Eq, Structural)]
pub struct ExecutorPriority(pub u8);

impl Default for ExecutorPriority {
    /// The priority given to an executor for which none is specified.
    fn default() -> (r: Self)
        ensures
            r.0 == 0,
    {
        ExecutorPriority(0)
    }
}

/// Aggregate state of an executor's task pool.
#[derive(Debug, Clone, Copy, PartialEq, Eq, Structural)]
pub enum ExecutorStatus {
    Runnable,
    Finished,
}

/// Whether `i` is the position of the task served next: the first among those
/// of the highest priority.
pub open spec fn is_next_task(s: Seq<Task>, i: int) -> bool {
    &&& 0 <= i < s.len()
    &&& forall|j: int| 0 <= j < s.len() ==> s[j].priority.0 <= s[i].priority.0
    &&& forall|j: int| 0 <= j < i ==> s[j].priority.0 < s[i].priority.0
}

/// The pool after one poll of the task at `i`: a completed task is dropped, a
/// pending one goes to the tail.
pub open spec fn after_poll(s: Seq<Task>, i: int, ready: bool) -> Seq<Task> {
    if ready {
        s.remove(i)
    } else {
        s.remove(i).push(s[i])
    }
}

/// No two tasks of `s` share an id.
pub open spec fn task_ids_unique(s: Seq<Task>) -> bool {
    forall|a: int, b: int| 0 <= a < s.len() && 0 <= b < s.len() && a != b ==> s[a].id != s[b].id
}

/// Some task of `s` has id `id`.
pub open spec fn has_task(s: Seq<Task>, id: TaskId) -> bool {
    exists|k: int| 0 <= k < s.len() && s[k].id == id
}

/// A pool of tasks of one priority class.
pub struct Executor {
    id: ExecutorId,
    priority: ExecutorPriority,
    tasks: Vec<Task>,
}

impl Executor {
    pub closed spec fn spec_id(&self) -> ExecutorId {
        self.id
    }

    pub closed spec fn spec_priority(&self) -> ExecutorPriority {
        self.priority
    }

    /// The tasks in the order in which they wait.
    pub closed spec fn tasks(&self) -> Seq<Task> {
        self.tasks@
    }

    /// Task ids are unique within the pool.
    pub open spec fn wf(&self) -> bool {
        task_ids_unique(self.tasks())
    }

    /// Finished once every task has completed.
    pub open spec fn spec_status(&self) -> ExecutorStatus {
        if self.tasks().len() == 0 {
            ExecutorStatus::Finished
        } else {
            ExecutorStatus::Runnable
        }
    }

    pub fn new(id: ExecutorId, priority: ExecutorPriority, task: Task) -> (r: Executor)
        ensures
            r.wf(),
            r.spec_id() == id,
            r.spec_priority() == priority,
            r.tasks() == seq![task],
    {
        let mut tasks: Vec<Task> = Vec::new();
        tasks.push(task);
        proof {
            assert(tasks@ == seq![task]);
        }
        Executor { id, priority, tasks }
    }

    pub fn id(&self) -> (r: ExecutorId)
        ensures
            r == self.spec_id(),
    {
        self.id
    }

    pub fn priority(&self) -> (r: ExecutorPriority)
        ensures
            r == self.spec_priority(),
    {
        self.priority
    }

    pub fn status(&self) -> (r: ExecutorStatus)
        ensures
            r == self.spec_status(),
    {
        if self.tasks.len() == 0 {
            ExecutorStatus::Finished
        } else {
            ExecutorStatus::Runnable
        }
    }

    /// Adds a task at the tail of the pool, unless its id is taken.
    pub fn spawn(&mut self, task: Task) -> (r: Result<()>)
        requires
            old(self).wf(),
        ensures
            final(self).wf(),
            final(self).spec_id() == old(self).spec_id(),
            final(self).spec_priority() == old(self).spec_priority(),
            has_task(old(self).tasks(), task.id) ==> r == Err::<(), InternalError>(
                InternalError::DuplicateTaskId,
            ) && final(self).tasks() == old(self).tasks(),
            !has_task(old(self).tasks(), task.id) ==> r is Ok && final(self).tasks() == old(
                self,
            ).tasks().push(task),
    {
        let mut k: usize = 0;
        while k < self.tasks.len()
            invariant
                0 <= k <= self.tasks@.len(),
                *self == *old(self),
                self.wf(),
                forall|j: int| 0 <= j < k ==> self.tasks@[j].id != task.id,
            decreases self.tasks@.len() - k,
        {
            if self.tasks[k].id == task.id {
                return Err(InternalError::DuplicateTaskId);
            }
            k = k + 1;
        }
        self.tasks.push(task);
        Ok(())
    }

    fn next_index(&self) -> (r: usize)
        requires
            self.tasks().len() > 0,
        ensures
            is_next_task(self.tasks(), r as int),
    {
        let mut best: usize = 0;
        let mut k: usize = 1;
        while k < self.tasks.len()
            invariant
                1 <= k <= self.tasks@.len(),
                0 <= best < k,
                forall|j: int| 0 <= j < k ==> self.tasks@[j].priority.0 <= self.tasks@[best as int].priority.0,
                forall|j: int| 0 <= j < best ==> self.tasks@[j].priority.0 < self.tasks@[best as int].priority.0,
            decreases self.tasks@.len() - k,
        {
            if self.tasks[k].priority.0 > self.tasks[best].priority.0 {
                best = k;
            }
            k = k + 1;
        }
        best
    }

    /// The task that the next poll serves: the first of the highest priority.
    pub fn next_task(&self) -> (r: Option<TaskId>)
        ensures
            self.tasks().len() == 0 ==> r is None,
            self.tasks().len() > 0 ==> exists|i: int|
                is_next_task(self.tasks(), i) && r == Some(self.tasks()[i].id),
    {
        if self.tasks.len() == 0 {
            None
        } else {
            let i = self.next_index();
            Some(self.tasks[i].id)
        }
    }

    /// Polls the next task once: the first of the highest priority. `ready`
    /// is whether that poll completed it.
    pub fn run_task(&mut self, ready: bool) -> (r: Option<TaskId>)
        requires
            old(self).wf(),
        ensures
            final(self).wf(),
            final(self).spec_id() == old(self).spec_id(),
            final(self).spec_priority() == old(self).spec_priority(),
            old(self).tasks().len() == 0 ==> r is None && final(self).tasks() == old(self).tasks(),
            old(self).tasks().len() > 0 ==> exists|i: int|
                is_next_task(old(self).tasks(), i) && r == Some(old(self).tasks()[i].id)
                    && final(self).tasks() == after_poll(old(self).tasks(), i, ready),
    {
        if self.tasks.len() == 0 {
            return None;
        }
        let best = self.next_index();
        let ghost old_tasks = self.tasks@;
        let task = self.tasks.remove(best);
        if !ready {
            self.tasks.push(task);
        }
        proof {
            assert(is_next_task(old_tasks, best as int));
            assert(self.tasks@ == after_poll(old_tasks, best as int, ready));
            let s = old_tasks.remove(best as int);
            assert forall|a: int, b: int| 0 <= a < self.tasks@.len() && 0 <= b < self.tasks@.len() && a != b implies self.tasks@[a].id != self.tasks@[b].id by {
                let oa = if a < s.len() { if a < best { a } else { a + 1 } } else { best as int };
                let ob = if b < s.len() { if b < best { b } else { b + 1 } } else { best as int };
                assert(self.tasks@[a] == old_tasks[oa]);
                assert(self.tasks@[b] == old_tasks[ob]);
            }
        }
        Some(task.id)
    }
}

} // verus!
