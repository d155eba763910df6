use jrinx_sched::error::InternalError;
use jrinx_sched::executor::{Executor, ExecutorPriority, ExecutorStatus};
use jrinx_sched::inspector::{Inspector, InspectorMode, InspectorStatus};
use jrinx_sched::runtime::{
    halt_if_all_finished_or_ipi, init, Coordination, Runtime, RuntimeAction, RuntimeStatus,
    BOOTSTRAP_EXECUTOR_ID, BOOTSTRAP_INSPECTOR_ID,
};
use jrinx_sched::task::{Task, TaskPriority};

fn inspector(id: u64) -> Inspector {
    let ex = Executor::new(id * 10, ExecutorPriority::default(), Task::new(id * 100, TaskPriority(0)));
    Inspector::new(id, InspectorMode::Partition, ex)
}

fn runtime_with(cpu: usize, ids: &[u64]) -> Runtime {
    let mut rt = Runtime::new(cpu, inspector(ids[0]));
    for id in &ids[1..] {
        rt.register_inspector(inspector(*id)).unwrap();
    }
    rt
}

/// Runs a full turn of whatever the queue head is, with the given poll
/// outcome; returns the id that ran.
fn turn(rt: &mut Runtime, ready: bool) -> Option<u64> {
    match rt.start() {
        RuntimeAction::SwitchInto(id) => {
            assert_eq!(rt.status(), RuntimeStatus::Running(id));
            rt.run_inspector(id, ready).unwrap();
            rt.end_turn(id).unwrap();
            assert_eq!(rt.status(), RuntimeStatus::Idle);
            Some(id)
        }
        RuntimeAction::Coordinate => None,
    }
}

#[test]
fn register_distinct_ids_grows_registry() {
    let mut rt = runtime_with(0, &[1]);
    for id in 2..6u64 {
        assert_eq!(rt.register_inspector(inspector(id)), Ok(()));
    }
    for id in 1..6u64 {
        assert_eq!(rt.inspector_status(id), Ok(InspectorStatus::Runnable));
    }
    assert_eq!(rt.inspector_status(6), Err(InternalError::InvalidInspectorId));
}

#[test]
fn register_duplicate_id_is_rejected() {
    let mut rt = runtime_with(0, &[1, 2]);
    assert_eq!(rt.register_inspector(inspector(2)), Err(InternalError::DuplicateInspectorId));
    assert_eq!(turn(&mut rt, false), Some(1));
    assert_eq!(turn(&mut rt, false), Some(2));
    assert_eq!(turn(&mut rt, false), Some(1));
}

#[test]
fn queue_serves_in_fifo_order_twice() {
    let mut rt = runtime_with(0, &[10, 11, 12]);
    let order: Vec<u64> = (0..6).map(|_| turn(&mut rt, false).unwrap()).collect();
    assert_eq!(order, vec![10, 11, 12, 10, 11, 12]);
}

#[test]
fn finished_inspector_is_removed() {
    let mut rt = runtime_with(0, &[1, 2]);
    assert_eq!(turn(&mut rt, true), Some(1));
    assert_eq!(rt.inspector_status(1), Err(InternalError::InvalidInspectorId));
    assert_eq!(rt.push_inspector(1), Err(InternalError::InvalidInspectorId));
    for _ in 0..4 {
        assert_eq!(turn(&mut rt, false), Some(2));
    }
    assert_eq!(turn(&mut rt, true), Some(2));
    assert_eq!(rt.start(), RuntimeAction::Coordinate);
}

#[test]
fn unregister_unknown_id_fails() {
    let mut rt = runtime_with(0, &[1]);
    assert_eq!(rt.unregister_inspector(7), Err(InternalError::InvalidInspectorId));
    assert_eq!(rt.unregister_inspector(1), Ok(()));
    assert_eq!(rt.unregister_inspector(1), Err(InternalError::InvalidInspectorId));
}

#[test]
fn end_turn_of_unknown_inspector_fails() {
    let mut rt = runtime_with(0, &[1]);
    rt.set_inspector_switch_pending();
    assert!(rt.get_inspector_switch_pending());
    assert_eq!(rt.end_turn(9), Err(InternalError::InvalidInspectorId));
    assert!(!rt.get_inspector_switch_pending());
    assert_eq!(rt.status(), RuntimeStatus::Idle);
}

#[test]
fn switch_pending_flag_round_trip() {
    let mut rt = runtime_with(3, &[1]);
    assert_eq!(rt.cpu_id(), 3);
    assert!(!rt.get_inspector_switch_pending());
    rt.set_inspector_switch_pending();
    assert!(rt.get_inspector_switch_pending());
    rt.clr_inspector_switch_pending();
    assert!(!rt.get_inspector_switch_pending());
}

#[test]
fn set_current_inspector_sets_status() {
    let mut rt = runtime_with(0, &[1]);
    assert_eq!(rt.status(), RuntimeStatus::Init);
    rt.set_current_inspector(Some(4));
    assert_eq!(rt.status(), RuntimeStatus::Running(4));
    rt.set_current_inspector(Some(5));
    assert_eq!(rt.status(), RuntimeStatus::Running(5));
    rt.set_current_inspector(None);
    assert_eq!(rt.status(), RuntimeStatus::Idle);
}

#[test]
fn pop_and_push_inspector() {
    let mut rt = runtime_with(0, &[1, 2]);
    assert_eq!(rt.pop_inspector(), Some(1));
    assert_eq!(rt.push_inspector(1), Ok(()));
    assert_eq!(rt.pop_inspector(), Some(2));
    assert_eq!(rt.pop_inspector(), Some(1));
    assert_eq!(rt.pop_inspector(), None);
}

#[test]
fn shutdown_halts_exactly_once() {
    let mut cpus: Vec<Runtime> = (0..3).map(|c| runtime_with(c, &[c as u64 + 1])).collect();
    // CPUs 1 and 2 finish their work at once.
    for c in [1usize, 2] {
        assert_eq!(turn(&mut cpus[c], true), Some(c as u64 + 1));
        assert_eq!(cpus[c].start(), RuntimeAction::Coordinate);
    }
    assert_eq!(halt_if_all_finished_or_ipi(&mut cpus, 1), Coordination::Park { ipi: None });
    assert_eq!(halt_if_all_finished_or_ipi(&mut cpus, 2), Coordination::Park { ipi: Some(1) });
    assert_eq!(cpus[1].status(), RuntimeStatus::Endpoint);
    assert_eq!(cpus[2].status(), RuntimeStatus::Endpoint);
    // CPU 0 keeps working a while, then finishes.
    assert_eq!(turn(&mut cpus[0], false), Some(1));
    assert_eq!(turn(&mut cpus[0], true), Some(1));
    assert_eq!(cpus[0].start(), RuntimeAction::Coordinate);
    let mut halts = 0;
    let mut wake = halt_if_all_finished_or_ipi(&mut cpus, 0);
    assert_eq!(wake, Coordination::Park { ipi: Some(1) });
    while let Coordination::Park { ipi: Some(c) } = wake {
        wake = halt_if_all_finished_or_ipi(&mut cpus, c);
    }
    if wake == Coordination::Halt {
        halts += 1;
    }
    assert_eq!(halts, 1);
}

#[test]
fn single_runtime_halts_at_once() {
    let mut cpus = vec![runtime_with(0, &[1])];
    assert_eq!(halt_if_all_finished_or_ipi(&mut cpus, 0), Coordination::Halt);
    assert_eq!(cpus[0].status(), RuntimeStatus::Init);
}

#[test]
fn ipi_goes_to_lowest_endpoint_in_any_order() {
    // Mark CPUs 4 and 2 as at their endpoint, leaving 7 and 9 at work.
    let make = |order: &[usize]| -> Vec<Runtime> {
        let mut v: Vec<Runtime> = order.iter().map(|c| runtime_with(*c, &[1])).collect();
        for c in [4usize, 2] {
            assert!(matches!(halt_if_all_finished_or_ipi(&mut v, c), Coordination::Park { .. }));
        }
        v
    };
    let mut a = make(&[2, 4, 7, 9]);
    let mut b = make(&[9, 7, 4, 2]);
    let mut c = make(&[7, 2, 9, 4]);
    assert_eq!(halt_if_all_finished_or_ipi(&mut a, 7), Coordination::Park { ipi: Some(2) });
    assert_eq!(halt_if_all_finished_or_ipi(&mut b, 7), Coordination::Park { ipi: Some(2) });
    assert_eq!(halt_if_all_finished_or_ipi(&mut c, 7), Coordination::Park { ipi: Some(2) });
    assert_eq!(halt_if_all_finished_or_ipi(&mut a, 9), Coordination::Park { ipi: Some(2) });
    assert_eq!(halt_if_all_finished_or_ipi(&mut a, 2), Coordination::Halt);
}

#[test]
fn lone_task_finishes_executor_and_inspector_in_one_turn() {
    let mut ex = Executor::new(1, ExecutorPriority(2), Task::new(5, TaskPriority(1)));
    assert_eq!(ex.status(), ExecutorStatus::Runnable);
    assert_eq!(ex.run_task(true), Some(5));
    assert_eq!(ex.status(), ExecutorStatus::Finished);

    let mut is = inspector(3);
    assert_eq!(is.status(), InspectorStatus::Runnable);
    assert_eq!(is.run(true), Some(30));
    assert_eq!(is.status(), InspectorStatus::Finished);
    assert_eq!(is.run(true), None);
}

#[test]
fn executor_serves_highest_priority_first() {
    let mut ex = Executor::new(1, ExecutorPriority(0), Task::new(1, TaskPriority(1)));
    assert_eq!(ex.spawn(Task::new(2, TaskPriority(3))), Ok(()));
    assert_eq!(ex.spawn(Task::new(3, TaskPriority(3))), Ok(()));
    assert_eq!(ex.spawn(Task::new(2, TaskPriority(9))), Err(InternalError::DuplicateTaskId));
    assert_eq!(ex.next_task(), Some(2));
    assert_eq!(ex.run_task(false), Some(2));
    assert_eq!(ex.run_task(true), Some(3));
    assert_eq!(ex.run_task(true), Some(2));
    assert_eq!(ex.run_task(false), Some(1));
    assert_eq!(ex.run_task(true), Some(1));
    assert_eq!(ex.run_task(true), None);
}

#[test]
fn inspector_serves_highest_priority_executor_first() {
    let low = Executor::new(1, ExecutorPriority(1), Task::new(10, TaskPriority(0)));
    let mut is = Inspector::new(7, InspectorMode::Partition, low);
    let high = Executor::new(2, ExecutorPriority(5), Task::new(20, TaskPriority(0)));
    assert_eq!(is.register_executor(high), Ok(()));
    let dup = Executor::new(2, ExecutorPriority(0), Task::new(30, TaskPriority(0)));
    assert_eq!(is.register_executor(dup), Err(InternalError::DuplicateExecutorId));
    assert_eq!(is.next_task(), Some((2, 20)));
    assert_eq!(is.run(false), Some(2));
    assert_eq!(is.run(true), Some(2));
    assert_eq!(is.next_task(), Some((1, 10)));
    assert_eq!(is.run(true), Some(1));
    assert_eq!(is.status(), InspectorStatus::Finished);
    assert_eq!(is.next_task(), None);
}

#[test]
fn init_creates_bootstrap_runtime_once() {
    let mut cpus: Vec<Option<Runtime>> = vec![None, None];
    assert_eq!(init(&mut cpus, 1, 42), Ok(()));
    assert!(cpus[0].is_none());
    assert_eq!(init(&mut cpus, 1, 43), Err(InternalError::RepeatInitialization));
    assert_eq!(init(&mut cpus, 2, 44), Err(InternalError::InvalidCpuId));
    let rt = cpus[1].as_mut().unwrap();
    assert_eq!(rt.cpu_id(), 1);
    assert_eq!(rt.status(), RuntimeStatus::Init);
    assert_eq!(rt.start(), RuntimeAction::SwitchInto(BOOTSTRAP_INSPECTOR_ID));
    assert_eq!(rt.run_inspector(BOOTSTRAP_INSPECTOR_ID, true), Ok(Some(BOOTSTRAP_EXECUTOR_ID)));
    assert_eq!(rt.inspector_status(BOOTSTRAP_INSPECTOR_ID), Ok(InspectorStatus::Finished));
}

#[test]
fn default_priorities_are_lowest() {
    assert_eq!(TaskPriority::default(), TaskPriority(0));
    assert_eq!(ExecutorPriority::default(), ExecutorPriority(0));
}
