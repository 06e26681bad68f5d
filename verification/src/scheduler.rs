//! Stride scheduler: one run queue per CPU, each queue selecting the Ready
//! task with the least cumulative pass value; a task's pass advances by
//! its stride each time it is selected, so smaller strides run more often.

use crate::percpu::MAX_CPUS;
use vstd::prelude::*;

verus! {

/// Maximum number of tasks per CPU run queue.
pub const MAX_TASKS_PER_CPU: usize = 256;

/// Stride of the idle task seeded onto the boot CPU (a large stride, so
/// any real task wins the selection).
pub const IDLE_TASK_STRIDE: u32 = 100;

/// Run state of a task.
#[derive(Clone, Copy, PartialEq, Eq, Structural, Debug)]
pub enum TaskState {
    Ready,
    Running,
    Blocked,
    Terminated,
}

/// Task descriptor: identity, scheduling parameters and saved execution
/// context (the pointers are opaque to this core).
#[derive(Clone, Copy, PartialEq, Eq, Structural, Debug)]
pub struct TaskDesc {
    /// Task ID.
    pub id: u32,
    /// Stride value (inverse of priority).
    pub stride: u32,
    /// Cumulative pass value; advances by the stride on each selection.
    pub pass: u64,
    /// Run state.
    pub state: TaskState,
    /// Saved stack pointer.
    pub stack_ptr: u64,
    /// Saved instruction pointer.
    pub instruction_ptr: u64,
}

impl TaskDesc {
    /// Create a Ready task with pass zero and empty context.
    pub fn new(id: u32, stride: u32) -> (t: Self)
        ensures
            t.id == id,
            t.stride == stride,
            t.pass == 0,
            t.state == TaskState::Ready,
            t.stack_ptr == 0,
            t.instruction_ptr == 0,
    {
        Self { id, stride, pass: 0, state: TaskState::Ready, stack_ptr: 0, instruction_ptr: 0 }
    }
}

/// Scheduler errors.
#[derive(Clone, Copy, PartialEq, Eq, Structural, Debug)]
pub enum SchedulerError {
    QueueFull,
    NoTasksAvailable,
    InvalidTaskId,
}

/// Bounded task vector of the `heapless` crate, holding a run queue's
/// entries without heap allocation.
#[verifier::external_type_specification]
#[verifier::external_body]
#[verifier::reject_recursive_types(T)]
pub struct ExHeaplessVec<T, const N: usize>(heapless::Vec<T, N>);

/// The task descriptors a bounded task vector holds, oldest first.
pub uninterp spec fn task_vec_contents(v: heapless::Vec<TaskDesc, MAX_TASKS_PER_CPU>) -> Seq<
    TaskDesc,
>;

/// Relies on heapless::Vec::new: the new vector is empty.
#[verifier::external_body]
fn task_vec_new() -> (v: heapless::Vec<TaskDesc, MAX_TASKS_PER_CPU>)
    ensures
        task_vec_contents(v) == Seq::<TaskDesc>::empty(),
{
    heapless::Vec::new()
}

/// Relies on the slice view of heapless::Vec: its length is the number of
/// stored items.
#[verifier::external_body]
fn task_vec_len(v: &heapless::Vec<TaskDesc, MAX_TASKS_PER_CPU>) -> (n: usize)
    ensures
        n == task_vec_contents(*v).len(),
{
    v.len()
}

/// Relies on heapless::Vec::push: appends the item when the vector is
/// below its capacity, and otherwise returns it back, leaving the vector
/// unchanged.
#[verifier::external_body]
fn task_vec_push(v: &mut heapless::Vec<TaskDesc, MAX_TASKS_PER_CPU>, t: TaskDesc) -> (r: bool)
    ensures
        task_vec_contents(*old(v)).len() < MAX_TASKS_PER_CPU ==> r && task_vec_contents(*final(v))
            == task_vec_contents(*old(v)).push(t),
        task_vec_contents(*old(v)).len() >= MAX_TASKS_PER_CPU ==> !r && task_vec_contents(*final(v))
            == task_vec_contents(*old(v)),
{
    v.push(t).is_ok()
}

/// Relies on indexing through heapless::Vec's slice view.
#[verifier::external_body]
fn task_vec_get(v: &heapless::Vec<TaskDesc, MAX_TASKS_PER_CPU>, i: usize) -> (t: TaskDesc)
    requires
        i < task_vec_contents(*v).len(),
    ensures
        t == task_vec_contents(*v)[i as int],
{
    v[i]
}

/// Relies on mutable indexing through heapless::Vec's slice view.
#[verifier::external_body]
fn task_vec_set(v: &mut heapless::Vec<TaskDesc, MAX_TASKS_PER_CPU>, i: usize, t: TaskDesc)
    requires
        i < task_vec_contents(*old(v)).len(),
    ensures
        task_vec_contents(*final(v)) == task_vec_contents(*old(v)).update(i as int, t),
{
    v[i] = t;
}

/// The descriptor as it leaves a selection: pass advanced by the stride
/// (saturating at the top of the 64-bit range) and marked Running.
pub open spec fn runs_next(t: TaskDesc) -> TaskDesc {
    TaskDesc {
        pass: if t.pass + t.stride <= u64::MAX {
            (t.pass + t.stride) as u64
        } else {
            u64::MAX
        },
        state: TaskState::Running,
        ..t
    }
}

/// First-match-wins index of the Ready task with minimum pass among the
/// first `n` entries of `q`: a later task displaces the best only with a
/// strictly smaller pass, so ties go to the earlier queue position.
pub open spec fn best_ready(q: Seq<TaskDesc>, n: int) -> Option<int>
    decreases n,
{
    if n <= 0 {
        None
    } else {
        let prev = best_ready(q, n - 1);
        match prev {
            None => if q[n - 1].state == TaskState::Ready {
                Some(n - 1)
            } else {
                None
            },
            Some(b) => if q[n - 1].state == TaskState::Ready && q[n - 1].pass < q[b].pass {
                Some(n - 1)
            } else {
                prev
            },
        }
    }
}

/// The descriptor as a timer preemption leaves it: a Running task returns
/// to Ready, every other state is kept.
pub open spec fn preempted(t: TaskDesc) -> TaskDesc {
    if t.state == TaskState::Running {
        TaskDesc { state: TaskState::Ready, ..t }
    } else {
        t
    }
}

/// Per-CPU run queue, owned exclusively by its CPU.
pub struct RunQueue {
    tasks: heapless::Vec<TaskDesc, MAX_TASKS_PER_CPU>,
    current_index: u32,
}

impl RunQueue {
    /// The queued task descriptors, in insertion order.
    pub closed spec fn tasks_view(self) -> Seq<TaskDesc> {
        task_vec_contents(self.tasks)
    }

    /// Queue position of the most recently selected task.
    pub closed spec fn current(self) -> u32 {
        self.current_index
    }

    /// Structural invariant.
    pub open spec fn wf(self) -> bool {
        self.tasks_view().len() <= MAX_TASKS_PER_CPU
    }

    /// Create an empty run queue.
    pub fn new() -> (q: Self)
        ensures
            q.wf(),
            q.tasks_view() == Seq::<TaskDesc>::empty(),
            q.current() == 0,
    {
        Self { tasks: task_vec_new(), current_index: 0 }
    }

    /// Number of queued tasks.
    pub fn task_count(&self) -> (n: usize)
        ensures
            n == self.tasks_view().len(),
    {
        task_vec_len(&self.tasks)
    }

    /// Read the descriptor at a queue position.
    pub fn task_at(&self, i: usize) -> (t: TaskDesc)
        requires
            i < self.tasks_view().len(),
        ensures
            t == self.tasks_view()[i as int],
    {
        task_vec_get(&self.tasks, i)
    }

    /// Append a task, failing with `QueueFull` at capacity.
    pub fn enqueue(&mut self, task: TaskDesc) -> (r: Result<(), SchedulerError>)
        requires
            old(self).wf(),
        ensures
            final(self).wf(),
            final(self).current() == old(self).current(),
            if old(self).tasks_view().len() < MAX_TASKS_PER_CPU {
                r == Ok::<(), SchedulerError>(()) && final(self).tasks_view() == old(
                    self,
                ).tasks_view().push(task)
            } else {
                r == Err::<(), SchedulerError>(SchedulerError::QueueFull) && final(self).tasks_view()
                    == old(self).tasks_view()
            },
    {
        if task_vec_push(&mut self.tasks, task) {
            Ok(())
        } else {
            Err(SchedulerError::QueueFull)
        }
    }

    /// Return every Running task to Ready: the effect of a timer
    /// preemption, after which the whole queue is eligible again.
    pub fn preempt_running(&mut self)
        requires
            old(self).wf(),
        ensures
            final(self).wf(),
            final(self).tasks_view() == Seq::new(
                old(self).tasks_view().len(),
                |k: int| preempted(old(self).tasks_view()[k]),
            ),
            final(self).current() == old(self).current(),
    {
        let n = task_vec_len(&self.tasks);
        let mut i: usize = 0;
        while i < n
            invariant
                old(self).wf(),
                n == old(self).tasks_view().len(),
                i <= n,
                self.current_index == old(self).current_index,
                self.tasks_view().len() == n,
                forall|k: int|
                    0 <= k < i ==> (#[trigger] self.tasks_view()[k]) == preempted(
                        old(self).tasks_view()[k],
                    ),
                forall|k: int|
                    i <= k < n ==> (#[trigger] self.tasks_view()[k]) == old(self).tasks_view()[k],
            decreases n - i,
        {
            let t = task_vec_get(&self.tasks, i);
            if t.state == TaskState::Running {
                let nt = TaskDesc { state: TaskState::Ready, ..t };
                task_vec_set(&mut self.tasks, i, nt);
            }
            i = i + 1;
        }
        proof {
            assert(self.tasks_view() =~= Seq::new(
                old(self).tasks_view().len(),
                |k: int| preempted(old(self).tasks_view()[k]),
            ));
        }
    }

    /// Select the Ready task with the minimum pass value (ties broken by
    /// queue position, first match wins), advance its pass by its stride,
    /// mark it Running, and return the updated descriptor; `None` (and no
    /// change) when no task is Ready.
    pub fn next_task(&mut self) -> (r: Option<TaskDesc>)
        requires
            old(self).wf(),
        ensures
            final(self).wf(),
            match r {
                None => {
                    &&& best_ready(
                        old(self).tasks_view(),
                        old(self).tasks_view().len() as int,
                    ) is None
                    &&& *final(self) == *old(self)
                },
                Some(t) => {
                    let sel = best_ready(old(self).tasks_view(), old(self).tasks_view().len() as int);
                    &&& sel is Some
                    &&& t == runs_next(old(self).tasks_view()[sel->Some_0])
                    &&& final(self).tasks_view() == old(self).tasks_view().update(sel->Some_0, t)
                    &&& final(self).current() == sel->Some_0
                },
            },
    {
        let n = task_vec_len(&self.tasks);
        let mut best: Option<usize> = None;
        let mut i: usize = 0;
        while i < n
            invariant
                self.wf(),
                n == self.tasks_view().len(),
                i <= n,
                match best {
                    None => best_ready(self.tasks_view(), i as int) is None,
                    Some(b) => b < i && best_ready(self.tasks_view(), i as int) == Some(b as int),
                },
            decreases n - i,
        {
            let t = task_vec_get(&self.tasks, i);
            let better = match best {
                None => t.state == TaskState::Ready,
                Some(b) => t.state == TaskState::Ready && t.pass < task_vec_get(
                    &self.tasks,
                    b,
                ).pass,
            };
            if better {
                best = Some(i);
            }
            i = i + 1;
        }
        match best {
            None => None,
            Some(b) => {
                let t = task_vec_get(&self.tasks, b);
                let nt = TaskDesc {
                    pass: t.pass.saturating_add(t.stride as u64),
                    state: TaskState::Running,
                    ..t
                };
                task_vec_set(&mut self.tasks, b, nt);
                self.current_index = b as u32;
                Some(nt)
            },
        }
    }
}

/// One scheduling round on a queue, as a timer tick performs it: every
/// Running task returns to Ready, then the Ready task with least pass
/// (ties to the earlier position) runs and its pass advances by its
/// stride.  [`Scheduler::schedule`] takes a queue through exactly this
/// step.
pub open spec fn round(q: Seq<TaskDesc>) -> Seq<TaskDesc> {
    let p = Seq::new(q.len(), |k: int| preempted(q[k]));
    match best_ready(p, p.len() as int) {
        None => p,
        Some(i) => p.update(i, runs_next(p[i])),
    }
}

/// The queue after `n` scheduling rounds.
pub open spec fn rounds(q: Seq<TaskDesc>, n: nat) -> Seq<TaskDesc>
    decreases n,
{
    if n == 0 {
        q
    } else {
        round(rounds(q, (n - 1) as nat))
    }
}

/// The queue position selected in round `n + 1`, if any task is eligible.
pub open spec fn selected_at(q: Seq<TaskDesc>, n: nat) -> Option<int> {
    let cur = rounds(q, n);
    let p = Seq::new(cur.len(), |k: int| preempted(cur[k]));
    best_ready(p, p.len() as int)
}

/// How often the task at queue position `i` is selected over the first
/// `n` scheduling rounds.
pub open spec fn sel_count(q: Seq<TaskDesc>, n: nat, i: int) -> nat
    decreases n,
{
    if n == 0 {
        0
    } else {
        sel_count(q, (n - 1) as nat, i) + if selected_at(q, (n - 1) as nat) == Some(i) {
            1nat
        } else {
            0nat
        }
    }
}

/// Scheduler state: one run queue per CPU plus the global tick counter.
pub struct Scheduler {
    queues: Vec<RunQueue>,
    ticks: u64,
}

impl Scheduler {
    /// The per-CPU run queues.
    pub closed spec fn queues_view(self) -> Seq<RunQueue> {
        self.queues@
    }

    /// Ticks observed since boot.
    pub closed spec fn tick_count(self) -> u64 {
        self.ticks
    }

    /// Structural invariant.
    pub open spec fn wf(self) -> bool {
        &&& self.queues_view().len() == MAX_CPUS
        &&& forall|c: int| 0 <= c < MAX_CPUS ==> (#[trigger] self.queues_view()[c]).wf()
    }

    /// Boot-time initialization: empty queues, except that CPU 0 is
    /// seeded with an idle task of low priority (a large stride).
    pub fn init() -> (s: Self)
        ensures
            s.wf(),
            s.tick_count() == 0,
            s.queues_view()[0].tasks_view().len() == 1,
            s.queues_view()[0].tasks_view()[0].id == 0,
            s.queues_view()[0].tasks_view()[0].stride == IDLE_TASK_STRIDE,
            s.queues_view()[0].tasks_view()[0].pass == 0,
            s.queues_view()[0].tasks_view()[0].state == TaskState::Ready,
            forall|c: int|
                1 <= c < MAX_CPUS ==> (#[trigger] s.queues_view()[c]).tasks_view().len() == 0,
    {
        let mut queues: Vec<RunQueue> = Vec::new();
        let mut i: usize = 0;
        while i < MAX_CPUS
            invariant
                i <= MAX_CPUS,
                queues@.len() == i,
                forall|c: int| 0 <= c < i ==> (#[trigger] queues@[c]).wf(),
                forall|c: int| 0 <= c < i ==> (#[trigger] queues@[c]).tasks_view().len() == 0,
            decreases MAX_CPUS - i,
        {
            queues.push(RunQueue::new());
            i = i + 1;
        }
        let mut s = Self { queues, ticks: 0 };
        let idle_task = TaskDesc::new(0, IDLE_TASK_STRIDE);
        let enq = match &mut s.queues[0] {
            q => q.enqueue(idle_task),
        };
        proof {
            assert(enq is Ok);
        }
        s
    }

    /// Append a task to a specific CPU's run queue.
    pub fn enqueue(&mut self, cpu: usize, task: TaskDesc) -> (r: Result<(), SchedulerError>)
        requires
            old(self).wf(),
            cpu < MAX_CPUS,
        ensures
            final(self).wf(),
            final(self).tick_count() == old(self).tick_count(),
            forall|c: int|
                0 <= c < MAX_CPUS && c != cpu ==> (#[trigger] final(self).queues_view()[c])
                    == old(self).queues_view()[c],
            if old(self).queues_view()[cpu as int].tasks_view().len() < MAX_TASKS_PER_CPU {
                r == Ok::<(), SchedulerError>(()) && final(self).queues_view()[cpu as int].tasks_view()
                    == old(self).queues_view()[cpu as int].tasks_view().push(task)
            } else {
                r == Err::<(), SchedulerError>(SchedulerError::QueueFull)
                    && final(self).queues_view()[cpu as int].tasks_view()
                    == old(self).queues_view()[cpu as int].tasks_view()
            },
    {
        let q = &mut self.queues[cpu];
        q.enqueue(task)
    }

    /// One scheduling decision on a CPU's queue: preempt the Running
    /// task, select the Ready task with least pass, and return the
    /// descriptor to switch to (`None` leaves the CPU idle until the next
    /// tick).  The context switch itself belongs to the surrounding
    /// kernel.
    pub fn schedule(&mut self, cpu: usize) -> (r: Option<TaskDesc>)
        requires
            old(self).wf(),
            cpu < MAX_CPUS,
        ensures
            final(self).wf(),
            final(self).tick_count() == old(self).tick_count(),
            forall|c: int|
                0 <= c < MAX_CPUS && c != cpu ==> (#[trigger] final(self).queues_view()[c])
                    == old(self).queues_view()[c],
            final(self).queues_view()[cpu as int].tasks_view() == round(
                old(self).queues_view()[cpu as int].tasks_view(),
            ),
            ({
                let q0 = old(self).queues_view()[cpu as int].tasks_view();
                let p = Seq::new(q0.len(), |k: int| preempted(q0[k]));
                let sel = best_ready(p, p.len() as int);
                match r {
                    None => sel is None,
                    Some(t) => sel is Some && t == runs_next(p[sel->Some_0]),
                }
            }),
    {
        let q = &mut self.queues[cpu];
        q.preempt_running();
        q.next_task()
    }

    /// Timer-tick entry point: count the tick, then reschedule the CPU
    /// (every tick reschedules; there is no separate quantum check).
    pub fn tick(&mut self, cpu: usize)
        requires
            old(self).wf(),
            cpu < MAX_CPUS,
        ensures
            final(self).wf(),
            final(self).tick_count() == if old(self).tick_count() < u64::MAX {
                (old(self).tick_count() + 1) as u64
            } else {
                u64::MAX
            },
            forall|c: int|
                0 <= c < MAX_CPUS && c != cpu ==> (#[trigger] final(self).queues_view()[c])
                    == old(self).queues_view()[c],
            final(self).queues_view()[cpu as int].tasks_view() == round(
                old(self).queues_view()[cpu as int].tasks_view(),
            ),
    {
        self.ticks = self.ticks.saturating_add(1);
        let _ = self.schedule(cpu);
    }
}

/// Invariant of a queue holding exactly two fresh tasks with strides
/// `t1.stride < t2.stride`: after any number of scheduling rounds each
/// task's pass equals its selection count times its stride, every round
/// selects one of the two, and the task with the smaller stride has been
/// selected at least as often.
proof fn lemma_two_task_rounds(t1: TaskDesc, t2: TaskDesc, n: nat)
    requires
        t1.state == TaskState::Ready,
        t2.state == TaskState::Ready,
        t1.pass == 0,
        t2.pass == 0,
        0 < t1.stride < t2.stride,
        n * t2.stride <= u64::MAX,
    ensures
        ({
            let q = rounds(seq![t1, t2], n);
            let c1 = sel_count(seq![t1, t2], n, 0);
            let c2 = sel_count(seq![t1, t2], n, 1);
            &&& q.len() == 2
            &&& q[0].stride == t1.stride
            &&& q[1].stride == t2.stride
            &&& (q[0].state == TaskState::Ready || q[0].state == TaskState::Running)
            &&& (q[1].state == TaskState::Ready || q[1].state == TaskState::Running)
            &&& q[0].pass == c1 * t1.stride
            &&& q[1].pass == c2 * t2.stride
            &&& c1 + c2 == n
            &&& c2 <= c1
        }),
    decreases n,
{
    let q0 = seq![t1, t2];
    let s1 = t1.stride as int;
    let s2 = t2.stride as int;
    if n == 0 {
        assert(rounds(q0, 0) == q0);
        assert(q0[1].pass == sel_count(q0, 0, 1) * s2);
    } else {
        let m = (n - 1) as nat;
        assert(m * s2 <= n * s2) by (nonlinear_arith)
            requires
                m <= n,
                s2 >= 0,
        ;
        lemma_two_task_rounds(t1, t2, m);
        let q = rounds(q0, m);
        let c1 = sel_count(q0, m, 0) as int;
        let c2 = sel_count(q0, m, 1) as int;
        let p = Seq::new(q.len(), |k: int| preempted(q[k]));
        assert(p[0].state == TaskState::Ready && p[0].pass == q[0].pass && p[0].stride == q[0].stride);
        assert(p[1].state == TaskState::Ready && p[1].pass == q[1].pass && p[1].stride == q[1].stride);
        assert(best_ready(p, 0) is None);
        assert(best_ready(p, 1) == Some(0int));
        assert(rounds(q0, n) == round(q));
        assert(sel_count(q0, n, 0) == sel_count(q0, m, 0) + if selected_at(q0, m) == Some(0int) {
            1nat
        } else {
            0nat
        });
        assert(sel_count(q0, n, 1) == sel_count(q0, m, 1) + if selected_at(q0, m) == Some(1int) {
            1nat
        } else {
            0nat
        });
        if p[1].pass < p[0].pass {
            assert(best_ready(p, 2) == Some(1int));
            assert(selected_at(q0, m) == Some(1int));
            assert(rounds(q0, n) == p.update(1, runs_next(p[1])));
            // The selection condition c2*s2 < c1*s1 with s1 < s2 forces
            // the second task to have run strictly less often.
            assert(c2 < c1) by (nonlinear_arith)
                requires
                    c2 * s2 < c1 * s1,
                    0 < s1 < s2,
                    0 <= c1,
                    0 <= c2,
            ;
            assert((c2 + 1) * s2 <= n * s2) by (nonlinear_arith)
                requires
                    c2 + 1 <= n,
                    s2 >= 0,
            ;
            assert((c2 + 1) * s2 == c2 * s2 + s2) by (nonlinear_arith);
        } else {
            assert(best_ready(p, 2) == Some(0int));
            assert(selected_at(q0, m) == Some(0int));
            assert(rounds(q0, n) == p.update(0, runs_next(p[0])));
            assert((c1 + 1) * s1 <= n * s2) by (nonlinear_arith)
                requires
                    c1 + 1 <= n,
                    0 <= s1 <= s2,
            ;
            assert((c1 + 1) * s1 == c1 * s1 + s1) by (nonlinear_arith);
        }
    }
}

/// Law (stride-scheduling fairness): two Ready tasks enqueued together
/// at pass zero, with strides `t1.stride < t2.stride`; over any number
/// of scheduling rounds (each the effect of one [`Scheduler::tick`] on
/// their queue), the task with the smaller stride is selected at least
/// as often as the other.  The bound on `n` keeps every pass value
/// inside the 64-bit range, where pass arithmetic is exact.
pub proof fn lemma_stride_fairness(t1: TaskDesc, t2: TaskDesc, n: nat)
    requires
        t1.state == TaskState::Ready,
        t2.state == TaskState::Ready,
        t1.pass == 0,
        t2.pass == 0,
        0 < t1.stride < t2.stride,
        n * t2.stride <= u64::MAX,
    ensures
        sel_count(seq![t1, t2], n, 0) >= sel_count(seq![t1, t2], n, 1),
{
    lemma_two_task_rounds(t1, t2, n);
}

} // verus!
