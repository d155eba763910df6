use vstd::prelude::*;

use std::collections::VecDeque;

use crate::error::{InternalError, Result};
use crate::executor::{Executor, ExecutorId, ExecutorPriority};
use crate::inspector::{ran, Inspector, InspectorId, InspectorMode, InspectorStatus};
use crate::task::{Task, TaskId, TaskPriority};

verus! {

/// State of one CPU's runtime.
#[derive(Debug, Clone, Copy, PartialEq, Eq, Structural)]
pub enum RuntimeStatus {
    /// Not yet running.
    Init,
    /// No inspector is executing.
    Idle,
    /// Control is inside this inspector.
    Running(InspectorId),
    /// No work is left on this CPU; it waits for an IPI or the global halt.
    Endpoint,
}

/// What the scheduling loop does next.
#[derive(Debug, Clone, Copy, PartialEq, Eq, Structural)]
pub enum RuntimeAction {
    /// Switch into this inspector's context.
    SwitchInto(InspectorId),
    /// The queue is empty: run the shutdown coordination step.
    Coordinate,
}

/// Outcome of the shutdown coordination step.
#[derive(Debug, Clone, Copy, PartialEq, Eq, Structural)]
pub enum Coordination {
    /// Halt the whole system with a normal exit.
    Halt,
    /// The caller is now parked at its endpoint; wake the given CPU, if any.
    Park { ipi: Option<usize> },
}

/// The ids of the inspectors of `s`, in order.
pub open spec fn inspector_ids(s: Seq<Inspector>) -> Seq<InspectorId> {
    s.map_values(|i: Inspector| i.spec_id())
}

/// Every inspector of `s` is well formed and no two share an id.
pub open spec fn inspectors_wf(s: Seq<Inspector>) -> bool {
    &&& forall|k: int| 0 <= k < s.len() ==> #[trigger] s[k].wf()
    &&& inspector_ids(s).no_duplicates()
}

/// The registered ids after registering `id`: appended, unless already there.
pub open spec fn register_rule(ids: Seq<InspectorId>, id: InspectorId) -> Seq<InspectorId> {
    if ids.contains(id) {
        ids
    } else {
        ids.push(id)
    }
}

/// The queue after one turn of its head: it goes to the tail if `keep`,
/// else it is dropped.
pub open spec fn next_queue(q: Seq<InspectorId>, keep: bool) -> Seq<InspectorId> {
    if keep {
        q.drop_first().push(q[0])
    } else {
        q.drop_first()
    }
}

/// The per-CPU top-level scheduler: a registry of inspectors and the FIFO
/// queue of those awaiting a turn.
pub struct Runtime {
    cpu_id: usize,
    inspector_registry: Vec<Inspector>,
    inspector_queue: VecDeque<InspectorId>,
    inspector_switch_pending: bool,
    status: RuntimeStatus,
}

impl Runtime {
    pub closed spec fn spec_cpu_id(&self) -> usize {
        self.cpu_id
    }

    /// The registered inspectors, in the order of registration.
    pub closed spec fn registry(&self) -> Seq<Inspector> {
        self.inspector_registry@
    }

    /// The ids awaiting a turn, head first.
    pub closed spec fn queue(&self) -> Seq<InspectorId> {
        self.inspector_queue@
    }

    pub closed spec fn switch_pending(&self) -> bool {
        self.inspector_switch_pending
    }

    pub closed spec fn spec_status(&self) -> RuntimeStatus {
        self.status
    }

    /// This runtime with its status replaced.
    pub closed spec fn with_status(&self, status: RuntimeStatus) -> Runtime {
        Runtime { status, ..*self }
    }

    pub open spec fn registry_ids(&self) -> Seq<InspectorId> {
        inspector_ids(self.registry())
    }

    /// Inspector `id` is registered.
    pub open spec fn registered(&self, id: InspectorId) -> bool {
        self.registry_ids().contains(id)
    }

    /// Registered inspectors are well formed and their ids unique.
    pub open spec fn wf(&self) -> bool {
        inspectors_wf(self.registry())
    }

    /// What `with_status` changes and what it keeps.
    pub proof fn lemma_with_status(&self, status: RuntimeStatus)
        ensures
            self.with_status(status).spec_status() == status,
            self.with_status(status).spec_cpu_id() == self.spec_cpu_id(),
            self.with_status(status).registry() == self.registry(),
            self.with_status(status).queue() == self.queue(),
            self.with_status(status).switch_pending() == self.switch_pending(),
    {
    }

    /// A runtime for CPU `cpu_id` with `root_inspector` registered and queued.
    pub fn new(cpu_id: usize, root_inspector: Inspector) -> (r: Runtime)
        requires
            root_inspector.wf(),
        ensures
            r.wf(),
            r.spec_cpu_id() == cpu_id,
            r.registry() == seq![root_inspector],
            r.queue() == seq![root_inspector.spec_id()],
            !r.switch_pending(),
            r.spec_status() == RuntimeStatus::Init,
    {
        let id = root_inspector.id();
        let mut inspector_registry: Vec<Inspector> = Vec::new();
        inspector_registry.push(root_inspector);
        let mut inspector_queue: VecDeque<InspectorId> = VecDeque::new();
        inspector_queue.push_back(id);
        proof {
            assert(inspector_registry@ == seq![root_inspector]);
            assert(inspector_queue@ == seq![id]);
            assert(inspector_ids(inspector_registry@) =~= seq![id]);
            assert(seq![id].no_duplicates());
        }
        Runtime {
            cpu_id,
            inspector_registry,
            inspector_queue,
            inspector_switch_pending: false,
            status: RuntimeStatus::Init,
        }
    }

    pub fn cpu_id(&self) -> (r: usize)
        ensures
            r == self.spec_cpu_id(),
    {
        self.cpu_id
    }

    fn find(&self, id: InspectorId) -> (r: Option<usize>)
        requires
            self.wf(),
        ensures
            r is None ==> !self.registered(id),
            r matches Some(i) ==> i < self.registry().len() && self.registry()[i as int].spec_id() == id,
    {
        let mut k: usize = 0;
        while k < self.inspector_registry.len()
            invariant
                0 <= k <= self.inspector_registry@.len(),
                forall|j: int| 0 <= j < k ==> self.inspector_registry@[j].spec_id() != id,
            decreases self.inspector_registry@.len() - k,
        {
            if self.inspector_registry[k].id() == id {
                return Some(k);
            }
            k = k + 1;
        }
        proof {
            if self.registered(id) {
                let j = choose|j: int| 0 <= j < self.registry_ids().len() && self.registry_ids()[j] == id;
                assert(self.inspector_registry@[j].spec_id() == id);
            }
        }
        None
    }

    /// Registers an inspector and queues it at the tail, unless its id is
    /// taken.
    pub fn register_inspector(&mut self, inspector: Inspector) -> (r: Result<()>)
        requires
            old(self).wf(),
            inspector.wf(),
        ensures
            final(self).wf(),
            final(self).registry_ids() == register_rule(old(self).registry_ids(), inspector.spec_id()),
            old(self).registered(inspector.spec_id()) ==> r == Err::<(), InternalError>(
                InternalError::DuplicateInspectorId,
            ) && *final(self) == *old(self),
            !old(self).registered(inspector.spec_id()) ==> r is Ok
                && final(self).registry() == old(self).registry().push(inspector)
                && final(self).queue() == old(self).queue().push(inspector.spec_id())
                && final(self).spec_cpu_id() == old(self).spec_cpu_id()
                && final(self).switch_pending() == old(self).switch_pending()
                && final(self).spec_status() == old(self).spec_status(),
    {
        let id = inspector.id();
        if let Some(i) = self.find(id) {
            proof {
                assert(self.registry_ids()[i as int] == id);
            }
            return Err(InternalError::DuplicateInspectorId);
        }
        let ghost pre = self.inspector_registry@;
        self.inspector_registry.push(inspector);
        self.inspector_queue.push_back(id);
        proof {
            assert(inspector_ids(self.inspector_registry@) =~= inspector_ids(pre).push(id));
            assert forall|k: int| 0 <= k < self.inspector_registry@.len() implies #[trigger] self.inspector_registry@[k].wf() by {
                if k < pre.len() {
                    assert(self.inspector_registry@[k] == pre[k]);
                }
            }
        }
        Ok(())
    }

    /// Removes an inspector from the registry. Its queue entries stay; they
    /// are never queued again.
    pub fn unregister_inspector(&mut self, id: InspectorId) -> (r: Result<()>)
        requires
            old(self).wf(),
        ensures
            final(self).wf(),
            !final(self).registered(id),
            !old(self).registered(id) ==> r == Err::<(), InternalError>(
                InternalError::InvalidInspectorId,
            ) && *final(self) == *old(self),
            old(self).registered(id) ==> r is Ok && (exists|i: int|
                0 <= i < old(self).registry().len() && old(self).registry()[i].spec_id() == id
                    && final(self).registry() == old(self).registry().remove(i))
                && old(self).same_but_registry(*final(self)),
    {
        match self.find(id) {
            None => Err(InternalError::InvalidInspectorId),
            Some(i) => {
                let ghost pre = self.inspector_registry@;
                proof {
                    assert(self.registry_ids()[i as int] == id);
                }
                let _ = self.inspector_registry.remove(i);
                proof {
                    let ids = inspector_ids(pre);
                    assert(inspector_ids(self.inspector_registry@) =~= ids.remove(i as int));
                    assert forall|k: int| 0 <= k < self.inspector_registry@.len() implies #[trigger] self.inspector_registry@[k].wf() by {
                        if k < i {
                            assert(self.inspector_registry@[k] == pre[k]);
                        } else {
                            assert(self.inspector_registry@[k] == pre[k + 1]);
                        }
                    }
                    assert(ids[i as int] == id);
                    if self.registered(id) {
                        let j = choose|j: int| 0 <= j < ids.remove(i as int).len() && ids.remove(i as int)[j] == id;
                        if j < i {
                            assert(ids[j] == id);
                        } else {
                            assert(ids[j + 1] == id);
                        }
                    }
                }
                Ok(())
            }
        }
    }

    /// Whether `other` differs from this runtime in its queue at most.
    pub open spec fn same_but_queue(&self, other: Runtime) -> bool {
        &&& other.spec_cpu_id() == self.spec_cpu_id()
        &&& other.registry() == self.registry()
        &&& other.switch_pending() == self.switch_pending()
        &&& other.spec_status() == self.spec_status()
    }

    /// Whether `other` differs from this runtime in its registry at most.
    pub open spec fn same_but_registry(&self, other: Runtime) -> bool {
        &&& other.spec_cpu_id() == self.spec_cpu_id()
        &&& other.queue() == self.queue()
        &&& other.switch_pending() == self.switch_pending()
        &&& other.spec_status() == self.spec_status()
    }

    /// Whether `other` differs from this runtime in its switch-pending flag
    /// at most.
    pub open spec fn same_but_pending(&self, other: Runtime) -> bool {
        &&& other.spec_cpu_id() == self.spec_cpu_id()
        &&& other.registry() == self.registry()
        &&& other.queue() == self.queue()
        &&& other.spec_status() == self.spec_status()
    }

    /// Inspector `id` is registered and has finished.
    pub open spec fn finished(&self, id: InspectorId) -> bool {
        exists|i: int|
            0 <= i < self.registry().len() && self.registry()[i].spec_id() == id
                && self.registry()[i].spec_status() == InspectorStatus::Finished
    }

    pub fn set_inspector_switch_pending(&mut self)
        ensures
            final(self).switch_pending(),
            old(self).same_but_pending(*final(self)),
    {
        self.inspector_switch_pending = true;
    }

    pub fn get_inspector_switch_pending(&self) -> (r: bool)
        ensures
            r == self.switch_pending(),
    {
        self.inspector_switch_pending
    }

    pub fn clr_inspector_switch_pending(&mut self)
        ensures
            !final(self).switch_pending(),
            old(self).same_but_pending(*final(self)),
    {
        self.inspector_switch_pending = false;
    }

    pub fn status(&self) -> (r: RuntimeStatus)
        ensures
            r == self.spec_status(),
    {
        self.status
    }

    /// Marks this runtime as running inspector `id`, or idle for `None`.
    pub fn set_current_inspector(&mut self, id: Option<InspectorId>)
        ensures
            *final(self) == old(self).with_status(
                match id {
                    Some(i) => RuntimeStatus::Running(i),
                    None => RuntimeStatus::Idle,
                },
            ),
    {
        match id {
            Some(i) => {
                self.status = RuntimeStatus::Running(i);
            },
            None => {
                self.status = RuntimeStatus::Idle;
            },
        }
    }

    /// Takes the id at the head of the queue.
    pub fn pop_inspector(&mut self) -> (r: Option<InspectorId>)
        ensures
            old(self).same_but_queue(*final(self)),
            old(self).queue().len() == 0 ==> r is None && final(self).queue() == old(self).queue(),
            old(self).queue().len() > 0 ==> r == Some(old(self).queue()[0])
                && final(self).queue() == old(self).queue().drop_first(),
    {
        let r = self.inspector_queue.pop_front();
        proof {
            if old(self).queue().len() > 0 {
                assert(self.inspector_queue@ =~= old(self).queue().drop_first());
            }
        }
        r
    }

    /// Queues a registered inspector at the tail.
    pub fn push_inspector(&mut self, id: InspectorId) -> (r: Result<()>)
        requires
            old(self).wf(),
        ensures
            !old(self).registered(id) ==> r == Err::<(), InternalError>(
                InternalError::InvalidInspectorId,
            ) && *final(self) == *old(self),
            old(self).registered(id) ==> r is Ok
                && old(self).same_but_queue(*final(self))
                && final(self).queue() == old(self).queue().push(id),
    {
        if let Some(i) = self.find(id) {
            proof {
                assert(self.registry_ids()[i as int] == id);
            }
            self.inspector_queue.push_back(id);
            Ok(())
        } else {
            Err(InternalError::InvalidInspectorId)
        }
    }

    /// The status of a registered inspector.
    pub fn inspector_status(&self, id: InspectorId) -> (r: Result<InspectorStatus>)
        requires
            self.wf(),
        ensures
            !self.registered(id) ==> r == Err::<InspectorStatus, InternalError>(
                InternalError::InvalidInspectorId,
            ),
            self.registered(id) ==> r is Ok,
            r == Ok::<InspectorStatus, InternalError>(InspectorStatus::Finished) <==> self.finished(id),
    {
        proof {
            if self.finished(id) {
                let j = choose|j: int|
                    0 <= j < self.registry().len() && self.registry()[j].spec_id() == id
                        && self.registry()[j].spec_status() == InspectorStatus::Finished;
                assert(self.registry_ids()[j] == id);
            }
        }
        match self.find(id) {
            None => Err(InternalError::InvalidInspectorId),
            Some(i) => {
                let status = self.inspector_registry[i].status();
                proof {
                    assert(self.registry_ids()[i as int] == id);
                    assert(self.registry()[i as int].spec_id() == id);
                    if self.finished(id) {
                        let j = choose|j: int|
                            0 <= j < self.registry().len() && self.registry()[j].spec_id() == id
                                && self.registry()[j].spec_status() == InspectorStatus::Finished;
                        assert(self.registry_ids()[j] == self.registry_ids()[i as int]);
                    }
                }
                Ok(status)
            },
        }
    }

    /// Runs one turn of a registered inspector, `ready` telling whether the
    /// poll of that turn completed its task.
    pub fn run_inspector(&mut self, id: InspectorId, ready: bool) -> (r: Result<Option<ExecutorId>>)
        requires
            old(self).wf(),
        ensures
            final(self).wf(),
            final(self).registry_ids() == old(self).registry_ids(),
            !old(self).registered(id) ==> r == Err::<Option<ExecutorId>, InternalError>(
                InternalError::InvalidInspectorId,
            ) && *final(self) == *old(self),
            old(self).registered(id) ==> r is Ok
                && old(self).same_but_registry(*final(self))
                && exists|i: int|
                0 <= i < old(self).registry().len() && old(self).registry()[i].spec_id() == id
                    && final(self).registry() == old(self).registry().update(i, final(self).registry()[i])
                    && ran(old(self).registry()[i], final(self).registry()[i], ready),
    {
        match self.find(id) {
            None => Err(InternalError::InvalidInspectorId),
            Some(i) => {
                let ghost pre = self.inspector_registry@;
                proof {
                    assert(self.registry_ids()[i as int] == id);
                    assert(pre[i as int].wf());
                }
                let mut inspector = self.inspector_registry.remove(i);
                let r = inspector.run(ready);
                self.inspector_registry.insert(i, inspector);
                proof {
                    assert(self.inspector_registry@ =~= pre.update(i as int, inspector));
                    assert(inspector_ids(self.inspector_registry@) =~= inspector_ids(pre));
                    assert forall|k: int| 0 <= k < self.inspector_registry@.len() implies #[trigger] self.inspector_registry@[k].wf() by {
                        if k != i {
                            assert(self.inspector_registry@[k] == pre[k]);
                        }
                    }
                }
                Ok(r)
            },
        }
    }

    /// Begins the next turn of the scheduling loop: the head of the queue is
    /// taken and this runtime is marked as running it. With an empty queue
    /// nothing changes and the loop goes on to shutdown coordination.
    pub fn start(&mut self) -> (r: RuntimeAction)
        requires
            old(self).wf(),
        ensures
            final(self).wf(),
            final(self).registry() == old(self).registry(),
            final(self).spec_cpu_id() == old(self).spec_cpu_id(),
            final(self).switch_pending() == old(self).switch_pending(),
            old(self).queue().len() == 0 ==> r == RuntimeAction::Coordinate
                && final(self).queue() == old(self).queue()
                && final(self).spec_status() == old(self).spec_status(),
            old(self).queue().len() > 0 ==> r == RuntimeAction::SwitchInto(old(self).queue()[0])
                && final(self).queue() == old(self).queue().drop_first()
                && final(self).spec_status() == RuntimeStatus::Running(old(self).queue()[0]),
    {
        match self.pop_inspector() {
            Some(id) => {
                self.set_current_inspector(Some(id));
                proof {
                    self.lemma_with_status(RuntimeStatus::Running(id));
                }
                RuntimeAction::SwitchInto(id)
            },
            None => RuntimeAction::Coordinate,
        }
    }

    /// Ends the turn of inspector `id` once control is back: the pending
    /// switch is cleared, the runtime is idle again, and the inspector is
    /// dropped if it has finished, else queued at the tail.
    pub fn end_turn(&mut self, id: InspectorId) -> (r: Result<()>)
        requires
            old(self).wf(),
        ensures
            final(self).wf(),
            !final(self).switch_pending(),
            final(self).spec_status() == RuntimeStatus::Idle,
            final(self).spec_cpu_id() == old(self).spec_cpu_id(),
            !old(self).registered(id) ==> r == Err::<(), InternalError>(
                InternalError::InvalidInspectorId,
            ) && final(self).registry() == old(self).registry()
                && final(self).queue() == old(self).queue(),
            old(self).finished(id) ==> r is Ok && !final(self).registered(id)
                && final(self).queue() == old(self).queue()
                && (exists|i: int|
                0 <= i < old(self).registry().len() && old(self).registry()[i].spec_id() == id
                    && final(self).registry() == old(self).registry().remove(i)),
            old(self).registered(id) && !old(self).finished(id) ==> r is Ok
                && final(self).registry() == old(self).registry()
                && final(self).queue() == old(self).queue().push(id),
    {
        self.clr_inspector_switch_pending();
        self.set_current_inspector(None);
        match self.inspector_status(id) {
            Err(e) => Err(e),
            Ok(InspectorStatus::Finished) => self.unregister_inspector(id),
            Ok(_) => self.push_inspector(id),
        }
    }
}

/// Every runtime of `s` is at its endpoint.
pub open spec fn all_endpoint(s: Seq<Runtime>) -> bool {
    forall|k: int| 0 <= k < s.len() ==> #[trigger] s[k].spec_status() == RuntimeStatus::Endpoint
}

/// Whether some runtime of `s` belongs to CPU `c` and is at its endpoint.
pub open spec fn is_endpoint_cpu(s: Seq<Runtime>, c: usize) -> bool {
    exists|k: int|
        0 <= k < s.len() && #[trigger] s[k].spec_cpu_id() == c && s[k].spec_status()
            == RuntimeStatus::Endpoint
}

/// Whether `c` is the smallest id among the CPUs of `s` at their endpoint.
pub open spec fn is_lowest_endpoint(s: Seq<Runtime>, c: usize) -> bool {
    &&& is_endpoint_cpu(s, c)
    &&& forall|d: usize| #[trigger] is_endpoint_cpu(s, d) ==> c <= d
}

/// The decision of the shutdown coordination step over the locked runtimes
/// `s`: halt when only one runtime lives or all are at their endpoint; else
/// park the caller and wake the lowest CPU at its endpoint, if any.
pub open spec fn coordination(s: Seq<Runtime>) -> Coordination {
    if s.len() == 1 || all_endpoint(s) {
        Coordination::Halt
    } else if exists|c: usize| is_lowest_endpoint(s, c) {
        Coordination::Park { ipi: Some(choose|c: usize| is_lowest_endpoint(s, c)) }
    } else {
        Coordination::Park { ipi: None }
    }
}

/// `s` with the runtime of CPU `cpu` marked as at its endpoint.
pub open spec fn parked(s: Seq<Runtime>, cpu: usize) -> Seq<Runtime> {
    s.map_values(
        |r: Runtime|
            if r.spec_cpu_id() == cpu {
                r.with_status(RuntimeStatus::Endpoint)
            } else {
                r
            },
    )
}

/// There is at most one lowest CPU at its endpoint.
pub proof fn lemma_lowest_endpoint_unique(s: Seq<Runtime>, a: usize, b: usize)
    requires
        is_lowest_endpoint(s, a),
        is_lowest_endpoint(s, b),
    ensures
        a == b,
{
}

/// The shutdown coordination step, run by CPU `cpu_id` over every live
/// runtime, all locked together. Halts when only one runtime lives or all are
/// at their endpoint; otherwise picks the lowest CPU at its endpoint to wake
/// and marks the caller's own runtime as at its endpoint.
pub fn halt_if_all_finished_or_ipi(runtimes: &mut Vec<Runtime>, cpu_id: usize) -> (r: Coordination)
    requires
        exists|k: int| 0 <= k < old(runtimes)@.len() && old(runtimes)@[k].spec_cpu_id() == cpu_id,
    ensures
        r == coordination(old(runtimes)@),
        r == Coordination::Halt ==> final(runtimes)@ == old(runtimes)@,
        r != Coordination::Halt ==> final(runtimes)@ == parked(old(runtimes)@, cpu_id),
{
    let ghost s = runtimes@;
    let mut all: bool = true;
    let mut lowest: Option<usize> = None;
    let mut k: usize = 0;
    while k < runtimes.len()
        invariant
            runtimes@ == s,
            0 <= k <= s.len(),
            all <==> forall|j: int| 0 <= j < k ==> #[trigger] s[j].spec_status() == RuntimeStatus::Endpoint,
            lowest is None ==> forall|j: int| 0 <= j < k ==> #[trigger] s[j].spec_status() != RuntimeStatus::Endpoint,
            lowest matches Some(c) ==> (exists|j: int| 0 <= j < k && #[trigger] s[j].spec_cpu_id() == c && s[j].spec_status() == RuntimeStatus::Endpoint),
            lowest matches Some(c) ==> forall|j: int| 0 <= j < k && #[trigger] s[j].spec_status() == RuntimeStatus::Endpoint ==> c <= s[j].spec_cpu_id(),
        decreases s.len() - k,
    {
        if runtimes[k].status() == RuntimeStatus::Endpoint {
            let c = runtimes[k].cpu_id();
            match lowest {
                Some(m) => {
                    if c < m {
                        lowest = Some(c);
                    }
                },
                None => {
                    lowest = Some(c);
                },
            }
        } else {
            all = false;
        }
        k = k + 1;
    }
    proof {
        match lowest {
            Some(c) => {
                assert forall|d: usize| #[trigger] is_endpoint_cpu(s, d) implies c <= d by {
                    let j = choose|j: int| 0 <= j < s.len() && #[trigger] s[j].spec_cpu_id() == d && s[j].spec_status() == RuntimeStatus::Endpoint;
                }
                assert(is_lowest_endpoint(s, c));
                let w = choose|w: usize| is_lowest_endpoint(s, w);
                lemma_lowest_endpoint_unique(s, c, w);
            },
            None => {
                assert forall|c: usize| !is_lowest_endpoint(s, c) by {
                    if is_endpoint_cpu(s, c) {
                        let j = choose|j: int| 0 <= j < s.len() && #[trigger] s[j].spec_cpu_id() == c && s[j].spec_status() == RuntimeStatus::Endpoint;
                    }
                }
            },
        }
    }
    if runtimes.len() == 1 || all {
        return Coordination::Halt;
    }
    let mut i: usize = 0;
    while i < runtimes.len()
        invariant
            runtimes@.len() == s.len(),
            0 <= i <= s.len(),
            forall|j: int| 0 <= j < i ==> runtimes@[j] == parked(s, cpu_id)[j],
            forall|j: int| i <= j < s.len() ==> runtimes@[j] == s[j],
        decreases s.len() - i,
    {
        if runtimes[i].cpu_id() == cpu_id {
            let ghost before = runtimes@;
            let mut rt = runtimes.remove(i);
            rt.status = RuntimeStatus::Endpoint;
            runtimes.insert(i, rt);
            proof {
                assert(runtimes@ == before.update(i as int, rt));
            }
        }
        i = i + 1;
    }
    proof {
        assert(runtimes@ =~= parked(s, cpu_id));
    }
    Coordination::Park { ipi: lowest }
}

/// The registered ids after registering each of `new_ids` in turn.
pub open spec fn register_all(ids: Seq<InspectorId>, new_ids: Seq<InspectorId>) -> Seq<InspectorId>
    decreases new_ids.len(),
{
    if new_ids.len() == 0 {
        ids
    } else {
        register_rule(register_all(ids, new_ids.drop_last()), new_ids.last())
    }
}

/// Registering distinct new ids one after the other grows the registry by
/// one for each and makes every one of them retrievable; registering an id
/// already present changes nothing.
pub proof fn lemma_register_distinct(ids: Seq<InspectorId>, new_ids: Seq<InspectorId>)
    requires
        new_ids.no_duplicates(),
        forall|k: int| 0 <= k < new_ids.len() ==> !ids.contains(#[trigger] new_ids[k]),
    ensures
        register_all(ids, new_ids) == ids + new_ids,
        register_all(ids, new_ids).len() == ids.len() + new_ids.len(),
        forall|k: int| 0 <= k < new_ids.len() ==> register_all(ids, new_ids).contains(#[trigger] new_ids[k]),
        forall|id: InspectorId| #[trigger] register_all(ids, new_ids).contains(id) ==> register_rule(register_all(ids, new_ids), id) == register_all(ids, new_ids),
    decreases new_ids.len(),
{
    if new_ids.len() > 0 {
        let init = new_ids.drop_last();
        assert forall|k: int| 0 <= k < init.len() implies !ids.contains(#[trigger] init[k]) by {
            assert(init[k] == new_ids[k]);
        }
        lemma_register_distinct(ids, init);
        let prev = register_all(ids, init);
        let x = new_ids.last();
        if prev.contains(x) {
            let j = choose|j: int| 0 <= j < prev.len() && prev[j] == x;
            if j < ids.len() {
                assert(ids[j] == x);
            } else {
                assert(init[j - ids.len()] == x);
                assert(new_ids[j - ids.len()] == new_ids[new_ids.len() - 1]);
            }
        }
        assert(prev.push(x) =~= ids + new_ids);
    }
    assert forall|k: int| 0 <= k < new_ids.len() implies register_all(ids, new_ids).contains(#[trigger] new_ids[k]) by {
        assert((ids + new_ids)[ids.len() + k] == new_ids[k]);
    }
}

/// The queue after `n` turns in which no inspector finished.
pub open spec fn turns(q: Seq<InspectorId>, n: nat) -> Seq<InspectorId>
    decreases n,
{
    if n == 0 {
        q
    } else {
        next_queue(turns(q, (n - 1) as nat), true)
    }
}

/// The ids taken from the head of the queue over those `n` turns.
pub open spec fn pops(q: Seq<InspectorId>, n: nat) -> Seq<InspectorId>
    decreases n,
{
    if n == 0 {
        Seq::empty()
    } else {
        pops(q, (n - 1) as nat).push(turns(q, (n - 1) as nat)[0])
    }
}

/// Round robin: while no inspector finishes, the first `n` turns serve the
/// queue in its order, and each turn moves the head to the tail; after a
/// whole round the queue is as it was.
pub proof fn lemma_round_robin(q: Seq<InspectorId>, n: nat)
    requires
        n <= q.len(),
    ensures
        pops(q, n) == q.subrange(0, n as int),
        turns(q, n) == q.subrange(n as int, q.len() as int) + q.subrange(0, n as int),
        n == q.len() ==> turns(q, n) == q,
    decreases n,
{
    if n > 0 {
        lemma_round_robin(q, (n - 1) as nat);
        let t = turns(q, (n - 1) as nat);
        assert(t[0] == q[n - 1]);
        assert(pops(q, n) =~= q.subrange(0, n as int));
        assert(turns(q, n) =~= q.subrange(n as int, q.len() as int) + q.subrange(0, n as int));
    }
    if n == q.len() {
        assert(turns(q, n) =~= q);
    }
}

/// An inspector id that is not in the queue is never taken from it by a
/// later turn, whether that turn's head goes back to the tail or is dropped.
/// (`push_inspector` refuses an unregistered id, so a finished inspector,
/// once unregistered, is never queued again.)
pub proof fn lemma_removed_stays_out(q: Seq<InspectorId>, id: InspectorId, keep: bool)
    requires
        !q.contains(id),
    ensures
        q.len() > 0 ==> q[0] != id,
        q.len() > 0 ==> !next_queue(q, keep).contains(id),
{
    if q.len() > 0 {
        assert(q.contains(q[0]));
        let n = next_queue(q, keep);
        if n.contains(id) {
            let j = choose|j: int| 0 <= j < n.len() && n[j] == id;
            if j < q.len() - 1 {
                assert(q[j + 1] == id);
            } else {
                assert(q[0] == id);
            }
        }
    }
}

/// Shutdown convergence: when every live runtime but the caller's is at its
/// endpoint, a lone runtime halts at once; otherwise the caller parks and
/// wakes the lowest other CPU, and that CPU's own coordination step, like any
/// other's, then halts.
pub proof fn lemma_shutdown_converges(s: Seq<Runtime>, c: int)
    requires
        0 <= c < s.len(),
        s[c].spec_status() != RuntimeStatus::Endpoint,
        forall|k: int| 0 <= k < s.len() && k != c ==> #[trigger] s[k].spec_status() == RuntimeStatus::Endpoint,
        forall|a: int, b: int| 0 <= a < s.len() && 0 <= b < s.len() && a != b ==> s[a].spec_cpu_id() != s[b].spec_cpu_id(),
    ensures
        s.len() == 1 ==> coordination(s) == Coordination::Halt,
        s.len() > 1 ==> exists|m: usize|
            coordination(s) == (Coordination::Park { ipi: Some(m) }) && is_lowest_endpoint(s, m)
                && m != s[c].spec_cpu_id(),
        all_endpoint(parked(s, s[c].spec_cpu_id())),
        coordination(parked(s, s[c].spec_cpu_id())) == Coordination::Halt,
{
    let cpu = s[c].spec_cpu_id();
    let p = parked(s, cpu);
    assert forall|k: int| 0 <= k < p.len() implies #[trigger] p[k].spec_status() == RuntimeStatus::Endpoint by {
        s[k].lemma_with_status(RuntimeStatus::Endpoint);
    }
    if s.len() > 1 {
        assert(!all_endpoint(s));
        let o: int = if c == 0 { 1 } else { 0 };
        assert(s[o].spec_status() == RuntimeStatus::Endpoint);
        assert(is_endpoint_cpu(s, s[o].spec_cpu_id()));
        lemma_lowest_endpoint_exists(s, s[o].spec_cpu_id());
        let m = choose|m: usize| is_lowest_endpoint(s, m);
        let k = choose|k: int|
            0 <= k < s.len() && #[trigger] s[k].spec_cpu_id() == m && s[k].spec_status()
                == RuntimeStatus::Endpoint;
        assert(k != c);
    }
}

/// Where some CPU is at its endpoint, a lowest such CPU exists.
pub proof fn lemma_lowest_endpoint_exists(s: Seq<Runtime>, c: usize)
    requires
        is_endpoint_cpu(s, c),
    ensures
        exists|m: usize| is_lowest_endpoint(s, m),
    decreases c,
{
    if !is_lowest_endpoint(s, c) {
        let d = choose|d: usize| #[trigger] is_endpoint_cpu(s, d) && !(c <= d);
        lemma_lowest_endpoint_exists(s, d);
    }
}

/// The coordination decision does not depend on the order in which the
/// runtimes were locked: two orderings of the same runtimes decide alike.
pub proof fn lemma_coordination_order_free(s1: Seq<Runtime>, s2: Seq<Runtime>)
    requires
        s1.len() == s2.len(),
        forall|i: int| 0 <= i < s1.len() ==> #[trigger] s2.contains(s1[i]),
        forall|i: int| 0 <= i < s2.len() ==> #[trigger] s1.contains(s2[i]),
    ensures
        coordination(s1) == coordination(s2),
{
    assert forall|c: usize| is_endpoint_cpu(s1, c) <==> is_endpoint_cpu(s2, c) by {
        if is_endpoint_cpu(s1, c) {
            let j = choose|j: int| 0 <= j < s1.len() && #[trigger] s1[j].spec_cpu_id() == c && s1[j].spec_status() == RuntimeStatus::Endpoint;
            assert(s2.contains(s1[j]));
            let k = choose|k: int| 0 <= k < s2.len() && s2[k] == s1[j];
            assert(s2[k].spec_cpu_id() == c);
        }
        if is_endpoint_cpu(s2, c) {
            let j = choose|j: int| 0 <= j < s2.len() && #[trigger] s2[j].spec_cpu_id() == c && s2[j].spec_status() == RuntimeStatus::Endpoint;
            assert(s1.contains(s2[j]));
            let k = choose|k: int| 0 <= k < s1.len() && s1[k] == s2[j];
            assert(s1[k].spec_cpu_id() == c);
        }
    }
    assert(all_endpoint(s1) <==> all_endpoint(s2)) by {
        if all_endpoint(s1) {
            assert forall|k: int| 0 <= k < s2.len() implies #[trigger] s2[k].spec_status() == RuntimeStatus::Endpoint by {
                assert(s1.contains(s2[k]));
            }
        }
        if all_endpoint(s2) {
            assert forall|k: int| 0 <= k < s1.len() implies #[trigger] s1[k].spec_status() == RuntimeStatus::Endpoint by {
                assert(s2.contains(s1[k]));
            }
        }
    }
    assert forall|c: usize| is_lowest_endpoint(s1, c) <==> is_lowest_endpoint(s2, c) by {
        if is_lowest_endpoint(s1, c) {
            assert forall|d: usize| #[trigger] is_endpoint_cpu(s2, d) implies c <= d by {
                assert(is_endpoint_cpu(s1, d));
            }
        }
        if is_lowest_endpoint(s2, c) {
            assert forall|d: usize| #[trigger] is_endpoint_cpu(s1, d) implies c <= d by {
                assert(is_endpoint_cpu(s2, d));
            }
        }
    }
    if exists|c: usize| is_lowest_endpoint(s1, c) {
        let a = choose|c: usize| is_lowest_endpoint(s1, c);
        let b = choose|c: usize| is_lowest_endpoint(s2, c);
        lemma_lowest_endpoint_unique(s1, a, b);
    }
}

/// The id of the inspector created at boot.
pub const BOOTSTRAP_INSPECTOR_ID: InspectorId = 0;

/// The id of the executor created at boot.
pub const BOOTSTRAP_EXECUTOR_ID: ExecutorId = 0;

/// Whether `rt` is the runtime that boot creates on CPU `cpu_id` around the
/// initial task `task`: one bootstrap inspector, holding one executor of the
/// default priority, holding that task at the default priority; the
/// inspector queued, the runtime not yet running.
pub open spec fn is_boot_runtime(rt: Runtime, cpu_id: usize, task: TaskId) -> bool {
    &&& rt.wf()
    &&& rt.spec_cpu_id() == cpu_id
    &&& rt.registry().len() == 1
    &&& rt.registry()[0].spec_id() == BOOTSTRAP_INSPECTOR_ID
    &&& rt.registry()[0].spec_mode() == InspectorMode::Bootstrap
    &&& rt.registry()[0].executors().len() == 1
    &&& rt.registry()[0].executors()[0].spec_id() == BOOTSTRAP_EXECUTOR_ID
    &&& rt.registry()[0].executors()[0].spec_priority() == ExecutorPriority(0)
    &&& rt.registry()[0].executors()[0].tasks() == seq![Task { id: task, priority: TaskPriority(0) }]
    &&& rt.queue() == seq![BOOTSTRAP_INSPECTOR_ID]
    &&& !rt.switch_pending()
    &&& rt.spec_status() == RuntimeStatus::Init
}

/// Creates CPU `cpu_id`'s runtime in the per-CPU table `runtimes` around the
/// initial task `task`. A CPU is set up once: a second call leaves its
/// runtime as it is and fails.
pub fn init(runtimes: &mut Vec<Option<Runtime>>, cpu_id: usize, task: TaskId) -> (r: Result<()>)
    ensures
        cpu_id >= old(runtimes)@.len() ==> r == Err::<(), InternalError>(InternalError::InvalidCpuId)
            && final(runtimes)@ == old(runtimes)@,
        cpu_id < old(runtimes)@.len() && old(runtimes)@[cpu_id as int] is Some ==> r == Err::<
            (),
            InternalError,
        >(InternalError::RepeatInitialization) && final(runtimes)@ == old(runtimes)@,
        cpu_id < old(runtimes)@.len() && old(runtimes)@[cpu_id as int] is None ==> r is Ok
            && final(runtimes)@.len() == old(runtimes)@.len()
            && (forall|j: int| 0 <= j < old(runtimes)@.len() && j != cpu_id ==> final(runtimes)@[j] == old(runtimes)@[j])
            && (final(runtimes)@[cpu_id as int] matches Some(rt) && is_boot_runtime(rt, cpu_id, task)),
{
    if cpu_id >= runtimes.len() {
        return Err(InternalError::InvalidCpuId);
    }
    if runtimes[cpu_id].is_some() {
        return Err(InternalError::RepeatInitialization);
    }
    let executor = Executor::new(
        BOOTSTRAP_EXECUTOR_ID,
        ExecutorPriority::default(),
        Task::new(task, TaskPriority::default()),
    );
    let inspector = Inspector::new(BOOTSTRAP_INSPECTOR_ID, InspectorMode::Bootstrap, executor);
    let rt = Runtime::new(cpu_id, inspector);
    runtimes.set(cpu_id, Some(rt));
    Ok(())
}

} // verus!
