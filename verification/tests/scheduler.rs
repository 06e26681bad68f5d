use zen_core::scheduler::RunQueue;
use zen_core::scheduler::Scheduler;
use zen_core::scheduler::SchedulerError;
use zen_core::scheduler::TaskDesc;
use zen_core::scheduler::TaskState;
use zen_core::scheduler::MAX_TASKS_PER_CPU;

#[test]
fn new_task_is_ready_at_pass_zero() {
    let t = TaskDesc::new(5, 40);
    assert_eq!(t.id, 5);
    assert_eq!(t.stride, 40);
    assert_eq!(t.pass, 0);
    assert_eq!(t.state, TaskState::Ready);
    assert_eq!(t.stack_ptr, 0);
    assert_eq!(t.instruction_ptr, 0);
}

#[test]
fn empty_queue_has_no_next_task() {
    let mut q = RunQueue::new();
    assert_eq!(q.task_count(), 0);
    assert!(q.next_task().is_none());
}

#[test]
fn selection_advances_pass_and_marks_running() {
    let mut q = RunQueue::new();
    q.enqueue(TaskDesc::new(1, 10)).unwrap();
    let t = q.next_task().expect("one task is ready");
    assert_eq!(t.id, 1);
    assert_eq!(t.pass, 10);
    assert_eq!(t.state, TaskState::Running);
    // The selected task is Running, so nothing is ready until preempted.
    assert!(q.next_task().is_none());
    q.preempt_running();
    let t = q.next_task().expect("ready again after preemption");
    assert_eq!(t.pass, 20);
}

#[test]
fn stride_selection_sequence() {
    let mut q = RunQueue::new();
    q.enqueue(TaskDesc::new(1, 10)).unwrap();
    q.enqueue(TaskDesc::new(2, 20)).unwrap();
    // Smaller stride accrues pass more slowly and runs more often; ties
    // go to the earlier queue position.
    let expected = [1, 2, 1, 1, 2, 1, 1, 2];
    let mut selections = Vec::new();
    for _ in 0..expected.len() {
        q.preempt_running();
        selections.push(q.next_task().unwrap().id);
    }
    assert_eq!(selections, expected);
    let c1 = selections.iter().filter(|&&id| id == 1).count();
    let c2 = selections.iter().filter(|&&id| id == 2).count();
    assert!(c1 >= c2);
}

#[test]
fn blocked_tasks_are_never_selected() {
    let mut q = RunQueue::new();
    let mut blocked = TaskDesc::new(1, 1);
    blocked.state = TaskState::Blocked;
    q.enqueue(blocked).unwrap();
    q.enqueue(TaskDesc::new(2, 50)).unwrap();
    let t = q.next_task().unwrap();
    assert_eq!(t.id, 2);
}

#[test]
fn queue_rejects_past_capacity() {
    let mut q = RunQueue::new();
    for i in 0..MAX_TASKS_PER_CPU {
        q.enqueue(TaskDesc::new(i as u32, 1)).unwrap();
    }
    assert_eq!(
        q.enqueue(TaskDesc::new(9999, 1)),
        Err(SchedulerError::QueueFull)
    );
    assert_eq!(q.task_count(), MAX_TASKS_PER_CPU);
}

#[test]
fn scheduler_boots_with_idle_task() {
    let mut s = Scheduler::init();
    let t = s.schedule(0).expect("the idle task is ready");
    assert_eq!(t.id, 0);
    assert_eq!(t.state, TaskState::Running);
    // On another CPU nothing is enqueued yet.
    assert!(s.schedule(1).is_none());
}

#[test]
fn scheduler_prefers_small_strides_over_idle() {
    let mut s = Scheduler::init();
    s.enqueue(0, TaskDesc::new(7, 10)).unwrap();
    // The idle task (stride 100) and task 7 both sit at pass 0; the idle
    // task wins the first tie by queue position, then task 7 runs until
    // its pass catches up.
    let first = s.schedule(0).unwrap();
    assert_eq!(first.id, 0);
    for _ in 0..10 {
        assert_eq!(s.schedule(0).unwrap().id, 7);
    }
    // Task 7 now stands at pass 100, tying the idle task's 100.
    assert_eq!(s.schedule(0).unwrap().id, 0);
}

#[test]
fn tick_reschedules() {
    let mut s = Scheduler::init();
    s.enqueue(1, TaskDesc::new(3, 5)).unwrap();
    s.tick(1);
    s.tick(1);
    // Two ticks selected the lone task twice; its pass shows it.
    let t = s.schedule(1).unwrap();
    assert_eq!(t.id, 3);
    assert_eq!(t.pass, 15);
}
