use vstd::prelude::*;

use crate::error::{InternalError, Result};
use crate::executor::{is_next_task, after_poll, Executor, ExecutorId, ExecutorStatus};
use crate::task::TaskId;

verus! {

/// Identity of an inspector, unique within the runtime that owns it.
pub type InspectorId = u64;

/// The kind of scheduling domain an inspector is.
#[derive(Debug, Clone, Copy, PartialEq, Eq, Structural)]
pub enum InspectorMode {
    /// The domain created at boot around the initial task.
    Bootstrap,
    /// A domain spawned while the system runs.
    Partition,
}

#[derive(Debug, Clone, Copy, PartialEq, Eq, Structural)]
pub enum InspectorStatus {
    /// Some executor still owns a task.
    Runnable,
    /// Every executor has completed.
    Finished,
}

/// Whether `i` is the position of the executor served next: the first among
/// those of the highest priority.
pub open spec fn is_next_executor(s: Seq<Executor>, i: int) -> bool {
    &&& 0 <= i < s.len()
    &&& forall|j: int| 0 <= j < s.len() ==> s[j].spec_priority().0 <= s[i].spec_priority().0
    &&& forall|j: int| 0 <= j < i ==> s[j].spec_priority().0 < s[i].spec_priority().0
}

/// Whether `after` is `before` once its next task has been polled, with
/// `ready` telling whether that poll completed the task.
pub open spec fn polled(before: Executor, after: Executor, ready: bool) -> bool {
    &&& after.wf()
    &&& after.spec_id() == before.spec_id()
    &&& after.spec_priority() == before.spec_priority()
    &&& before.tasks().len() == 0 ==> after.tasks() == before.tasks()
    &&& before.tasks().len() > 0 ==> exists|j: int|
        is_next_task(before.tasks(), j) && after.tasks() == after_poll(before.tasks(), j, ready)
}

/// The pool once the executor at `i` has become `e`: a finished executor is
/// dropped, any other goes to the tail.
pub open spec fn after_turn(s: Seq<Executor>, i: int, e: Executor) -> Seq<Executor> {
    if e.tasks().len() == 0 {
        s.remove(i)
    } else {
        s.remove(i).push(e)
    }
}

/// Whether `after` is `before` once it has run one turn, with `ready`
/// telling whether the poll of that turn completed its task.
pub open spec fn ran(before: Inspector, after: Inspector, ready: bool) -> bool {
    &&& after.wf()
    &&& after.spec_id() == before.spec_id()
    &&& after.spec_mode() == before.spec_mode()
    &&& before.executors().len() == 0 ==> after.executors() == before.executors()
    &&& before.executors().len() > 0 ==> exists|i: int, e: Executor|
        is_next_executor(before.executors(), i) && polled(before.executors()[i], e, ready)
            && after.executors() == after_turn(before.executors(), i, e)
}

/// Every executor of `s` is well formed and no two share an id.
pub open spec fn executors_wf(s: Seq<Executor>) -> bool {
    &&& forall|k: int| 0 <= k < s.len() ==> #[trigger] s[k].wf()
    &&& forall|a: int, b: int|
        0 <= a < s.len() && 0 <= b < s.len() && a != b ==> s[a].spec_id() != s[b].spec_id()
}

/// Some executor of `s` has id `id`.
pub open spec fn has_executor(s: Seq<Executor>, id: ExecutorId) -> bool {
    exists|k: int| 0 <= k < s.len() && s[k].spec_id() == id
}

/// A scheduling domain: a pool of executors served by priority.
pub struct Inspector {
    id: InspectorId,
    mode: InspectorMode,
    executors: Vec<Executor>,
}

impl Inspector {
    pub closed spec fn spec_id(&self) -> InspectorId {
        self.id
    }

    pub closed spec fn spec_mode(&self) -> InspectorMode {
        self.mode
    }

    /// The executors in the order in which they wait.
    pub closed spec fn executors(&self) -> Seq<Executor> {
        self.executors@
    }

    /// Executors are well formed and their ids unique within the pool.
    pub open spec fn wf(&self) -> bool {
        executors_wf(self.executors())
    }

    /// Finished once every executor has completed.
    pub open spec fn spec_status(&self) -> InspectorStatus {
        if self.executors().len() == 0 {
            InspectorStatus::Finished
        } else {
            InspectorStatus::Runnable
        }
    }

    pub fn new(id: InspectorId, mode: InspectorMode, executor: Executor) -> (r: Inspector)
        requires
            executor.wf(),
        ensures
            r.wf(),
            r.spec_id() == id,
            r.spec_mode() == mode,
            r.executors() == seq![executor],
    {
        let mut executors: Vec<Executor> = Vec::new();
        executors.push(executor);
        proof {
            assert(executors@ == seq![executor]);
        }
        Inspector { id, mode, executors }
    }

    pub fn id(&self) -> (r: InspectorId)
        ensures
            r == self.spec_id(),
    {
        self.id
    }

    pub fn mode(&self) -> (r: InspectorMode)
        ensures
            r == self.spec_mode(),
    {
        self.mode
    }

    pub fn status(&self) -> (r: InspectorStatus)
        ensures
            r == self.spec_status(),
    {
        if self.executors.len() == 0 {
            InspectorStatus::Finished
        } else {
            InspectorStatus::Runnable
        }
    }

    /// Adds an executor at the tail of the pool, unless its id is taken.
    pub fn register_executor(&mut self, executor: Executor) -> (r: Result<()>)
        requires
            old(self).wf(),
            executor.wf(),
        ensures
            final(self).wf(),
            final(self).spec_id() == old(self).spec_id(),
            final(self).spec_mode() == old(self).spec_mode(),
            has_executor(old(self).executors(), executor.spec_id()) ==> r == Err::<(), InternalError>(
                InternalError::DuplicateExecutorId,
            ) && final(self).executors() == old(self).executors(),
            !has_executor(old(self).executors(), executor.spec_id()) ==> r is Ok
                && final(self).executors() == old(self).executors().push(executor),
    {
        let mut k: usize = 0;
        while k < self.executors.len()
            invariant
                0 <= k <= self.executors@.len(),
                *self == *old(self),
                self.wf(),
                forall|j: int| 0 <= j < k ==> self.executors@[j].spec_id() != executor.spec_id(),
            decreases self.executors@.len() - k,
        {
            if self.executors[k].id() == executor.id() {
                return Err(InternalError::DuplicateExecutorId);
            }
            k = k + 1;
        }
        let ghost pre = self.executors@;
        self.executors.push(executor);
        proof {
            assert forall|k: int| 0 <= k < self.executors@.len() implies #[trigger] self.executors@[k].wf() by {
                if k < pre.len() {
                    assert(self.executors@[k] == pre[k]);
                }
            }
        }
        Ok(())
    }

    fn next_index(&self) -> (r: usize)
        requires
            self.executors().len() > 0,
        ensures
            is_next_executor(self.executors(), r as int),
    {
        let mut best: usize = 0;
        let mut k: usize = 1;
        while k < self.executors.len()
            invariant
                1 <= k <= self.executors@.len(),
                0 <= best < k,
                forall|j: int| 0 <= j < k ==> self.executors@[j].spec_priority().0 <= self.executors@[best as int].spec_priority().0,
                forall|j: int| 0 <= j < best ==> self.executors@[j].spec_priority().0 < self.executors@[best as int].spec_priority().0,
            decreases self.executors@.len() - k,
        {
            if self.executors[k].priority().0 > self.executors[best].priority().0 {
                best = k;
            }
            k = k + 1;
        }
        best
    }

    /// The executor and task that the next turn serves.
    pub fn next_task(&self) -> (r: Option<(ExecutorId, TaskId)>)
        requires
            self.wf(),
        ensures
            self.executors().len() == 0 ==> r is None,
            self.executors().len() > 0 ==> exists|i: int|
                is_next_executor(self.executors(), i)
                    && (self.executors()[i].tasks().len() == 0 ==> r is None)
                    && (self.executors()[i].tasks().len() > 0 ==> exists|j: int|
                    is_next_task(self.executors()[i].tasks(), j)
                        && r == Some((self.executors()[i].spec_id(), self.executors()[i].tasks()[j].id))),
    {
        if self.executors.len() == 0 {
            return None;
        }
        let i = self.next_index();
        match self.executors[i].next_task() {
            Some(t) => Some((self.executors[i].id(), t)),
            None => None,
        }
    }

    /// Runs one turn: the next executor (the first of the highest priority)
    /// polls its next task once, `ready` telling whether that poll completed
    /// the task. Returns the executor that ran.
    pub fn run(&mut self, ready: bool) -> (r: Option<ExecutorId>)
        requires
            old(self).wf(),
        ensures
            ran(*old(self), *final(self), ready),
            old(self).executors().len() == 0 ==> r is None && final(self).executors() == old(self).executors(),
            old(self).executors().len() > 0 ==> exists|i: int, e: Executor|
                is_next_executor(old(self).executors(), i) && polled(old(self).executors()[i], e, ready)
                    && r == Some(old(self).executors()[i].spec_id())
                    && final(self).executors() == after_turn(old(self).executors(), i, e),
    {
        if self.executors.len() == 0 {
            return None;
        }
        let best = self.next_index();
        let ghost old_execs = self.executors@;
        let mut executor = self.executors.remove(best);
        proof {
            assert(old_execs[best as int].wf());
        }
        let _ = executor.run_task(ready);
        let id = executor.id();
        let ghost e = executor;
        if executor.status() == ExecutorStatus::Runnable {
            self.executors.push(executor);
        }
        proof {
            let s = old_execs.remove(best as int);
            assert(polled(old_execs[best as int], e, ready));
            assert(self.executors@ == after_turn(old_execs, best as int, e));
            assert forall|k: int| 0 <= k < self.executors@.len() implies #[trigger] self.executors@[k].wf() by {
                if k < s.len() {
                    if k < best {
                        assert(self.executors@[k] == old_execs[k]);
                    } else {
                        assert(self.executors@[k] == old_execs[k + 1]);
                    }
                }
            }
            assert forall|a: int, b: int| 0 <= a < self.executors@.len() && 0 <= b < self.executors@.len() && a != b implies self.executors@[a].spec_id() != self.executors@[b].spec_id() by {
                let oa = if a < s.len() { if a < best { a } else { a + 1 } } else { best as int };
                let ob = if b < s.len() { if b < best { b } else { b + 1 } } else { best as int };
                assert(self.executors@[a].spec_id() == old_execs[oa].spec_id());
                assert(self.executors@[b].spec_id() == old_execs[ob].spec_id());
            }
        }
        Some(id)
    }
}

/// A task that completes on its first poll, as the only task of its
/// executor, leaves that executor finished; when that executor was the
/// inspector's only one, the inspector is finished after that same turn.
pub proof fn lemma_lone_task_round_trip(before: Inspector, after: Inspector)
    requires
        before.wf(),
        before.executors().len() == 1,
        before.executors()[0].tasks().len() == 1,
        ran(before, after, true),
    ensures
        forall|e: Executor| #[trigger] polled(before.executors()[0], e, true) ==> e.spec_status() == ExecutorStatus::Finished,
        after.spec_status() == InspectorStatus::Finished,
{
    let x = before.executors()[0];
    assert forall|e: Executor| #[trigger] polled(x, e, true) implies e.spec_status() == ExecutorStatus::Finished by {
        let j = choose|j: int| is_next_task(x.tasks(), j) && e.tasks() == after_poll(x.tasks(), j, true);
        assert(j == 0);
    }
    let (i, e) = choose|i: int, e: Executor|
        is_next_executor(before.executors(), i) && polled(before.executors()[i], e, true)
            && after.executors() == after_turn(before.executors(), i, e);
    assert(i == 0);
}

} // verus!
