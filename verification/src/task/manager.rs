//! The ready pool: the tasks that wait for the processor, and the choice of
//! the one that gets it next.
use vstd::prelude::*;
use crate::task::kernel::Kernel;
use crate::task::stride::{stride_before, wrap_distance, Stride, HALF_RANGE};
use crate::task::task::TaskStatus;

verus! {

/// A task that waits for the processor, with the stride it waits at.
#[derive(Clone, Copy, Debug, PartialEq, Eq, Structural)]
pub struct ReadyTask {
    pub pid: usize,
    pub stride: Stride,
}

/// The index of the task that is dispatched next from `pool`, which is in
/// the order in which the tasks joined.
///
/// The pool is gone through from the front. The first task is the candidate;
/// a later task takes its place only where its stride is strictly earlier
/// than the candidate's. So of tasks with the same stride the one that joined
/// first is chosen.
pub open spec fn earliest(pool: Seq<ReadyTask>) -> int
    decreases pool.len(),
{
    if pool.len() <= 1 {
        0
    } else {
        let candidate = earliest(pool.drop_last());
        if stride_before(pool.last().stride.0, pool[candidate].stride.0) {
            pool.len() - 1
        } else {
            candidate
        }
    }
}

/// Whether every stride in `pool` lies less than half the counter's range
/// ahead of `base`. In such a pool the wrap-aware order of the strides is the
/// order of their distances from `base`.
pub open spec fn in_window(pool: Seq<ReadyTask>, base: u64) -> bool {
    forall|i: int| 0 <= i < pool.len() ==> wrap_distance(base, #[trigger] pool[i].stride.0) < HALF_RANGE
}

/// The chosen index is an index of the pool.
pub proof fn lemma_earliest_in_bounds(pool: Seq<ReadyTask>)
    requires
        pool.len() > 0,
    ensures
        0 <= earliest(pool) < pool.len(),
    decreases pool.len(),
{
    if pool.len() > 1 {
        lemma_earliest_in_bounds(pool.drop_last());
    }
}

/// No task behind the chosen one has a strictly earlier stride.
pub proof fn lemma_earliest_beats_later(pool: Seq<ReadyTask>, j: int)
    requires
        earliest(pool) < j < pool.len(),
    ensures
        !stride_before(pool[j].stride.0, pool[earliest(pool)].stride.0),
    decreases pool.len(),
{
    if pool.len() > 1 {
        let front = pool.drop_last();
        lemma_earliest_in_bounds(front);
        if j < pool.len() - 1 {
            lemma_earliest_beats_later(front, j);
        }
    }
}

/// In a pool whose strides lie in one window, the chosen task has the
/// minimum stride: no task's stride is strictly earlier than its stride, and
/// its stride is strictly earlier than that of every task that joined before
/// it. So the choice is the task of globally minimum stride, and among
/// several of them the one that joined first.
pub proof fn lemma_earliest_is_minimum(pool: Seq<ReadyTask>, base: u64)
    requires
        pool.len() > 0,
        in_window(pool, base),
    ensures
        forall|j: int|
            0 <= j < pool.len() ==> !stride_before(
                #[trigger] pool[j].stride.0,
                pool[earliest(pool)].stride.0,
            ),
        forall|j: int|
            0 <= j < earliest(pool) ==> stride_before(
                pool[earliest(pool)].stride.0,
                #[trigger] pool[j].stride.0,
            ),
        forall|j: int|
            0 <= j < pool.len() ==> wrap_distance(base, pool[earliest(pool)].stride.0)
                <= wrap_distance(base, #[trigger] pool[j].stride.0),
    decreases pool.len(),
{
    if pool.len() > 1 {
        let front = pool.drop_last();
        lemma_earliest_in_bounds(front);
        assert forall|i: int| 0 <= i < front.len() implies wrap_distance(
            base,
            #[trigger] front[i].stride.0,
        ) < HALF_RANGE by {
            assert(front[i] == pool[i]);
        }
        lemma_earliest_is_minimum(front, base);
        let e = earliest(pool);
        let c = earliest(front);
        assert(wrap_distance(base, pool[pool.len() - 1].stride.0) < HALF_RANGE);
        assert(wrap_distance(base, pool[c].stride.0) < HALF_RANGE);
        assert forall|j: int| 0 <= j < pool.len() implies !stride_before(
            #[trigger] pool[j].stride.0,
            pool[e].stride.0,
        ) && wrap_distance(base, pool[e].stride.0) <= wrap_distance(base, pool[j].stride.0) by {
            assert(wrap_distance(base, pool[j].stride.0) < HALF_RANGE);
            if j < pool.len() - 1 {
                assert(front[j] == pool[j]);
            }
        }
        assert forall|j: int| 0 <= j < e implies stride_before(
            pool[e].stride.0,
            #[trigger] pool[j].stride.0,
        ) by {
            assert(front[j] == pool[j]);
            assert(wrap_distance(base, pool[j].stride.0) < HALF_RANGE);
        }
    }
}

/// The tasks that are ready to run, in the order in which they joined.
pub struct TaskManager {
    ready_queue: Vec<ReadyTask>,
}

impl View for TaskManager {
    type V = Seq<ReadyTask>;

    closed spec fn view(&self) -> Seq<ReadyTask> {
        self.ready_queue@
    }
}

impl TaskManager {
    /// A pool without tasks.
    pub fn new() -> (manager: TaskManager)
        ensures
            manager@ == Seq::<ReadyTask>::empty(),
    {
        TaskManager { ready_queue: Vec::new() }
    }

    /// The number of tasks in the pool.
    pub fn len(&self) -> (n: usize)
        ensures
            n == self@.len(),
    {
        self.ready_queue.len()
    }

    /// The task at place `i` of the pool.
    pub fn get(&self, i: usize) -> (task: ReadyTask)
        requires
            i < self@.len(),
        ensures
            task == self@[i as int],
    {
        self.ready_queue[i]
    }

    /// Puts the task `pid`, which waits at `stride`, at the end of the pool.
    pub fn add(&mut self, pid: usize, stride: Stride)
        ensures
            final(self)@ == old(self)@.push(ReadyTask { pid, stride }),
    {
        self.ready_queue.push(ReadyTask { pid, stride });
    }

    /// Takes the task that is dispatched next out of the pool and returns its
    /// process id. The other tasks keep their order. Returns nothing where
    /// the pool is empty. The stride of the task is not moved forward here.
    pub fn fetch(&mut self) -> (pid: Option<usize>)
        ensures
            old(self)@.len() == 0 ==> pid is None && final(self)@ == old(self)@,
            old(self)@.len() > 0 ==> pid == Some(old(self)@[earliest(old(self)@)].pid)
                && final(self)@ == old(self)@.remove(earliest(old(self)@)),
    {
        let n: usize = self.ready_queue.len();
        if n == 0 {
            return None;
        }
        let mut best: usize = 0;
        let mut i: usize = 1;
        assert(self.ready_queue@.take(1).len() == 1);
        while i < n
            invariant
                n == self.ready_queue@.len(),
                1 <= i <= n,
                0 <= best < i,
                best == earliest(self.ready_queue@.take(i as int)),
            decreases n - i,
        {
            let ghost front = self.ready_queue@.take(i as int);
            let ghost longer = self.ready_queue@.take(i + 1);
            assert(longer.drop_last() =~= front);
            assert(longer.last() == self.ready_queue@[i as int]);
            assert(longer[best as int] == self.ready_queue@[best as int]);
            if self.ready_queue[i].stride.is_before(&self.ready_queue[best].stride) {
                best = i;
            }
            i = i + 1;
        }
        assert(self.ready_queue@.take(n as int) =~= self.ready_queue@);
        let task = self.ready_queue.remove(best);
        Some(task.pid)
    }
}

/// Puts task `pid` at the end of the ready pool, at the stride it has. The
/// task must be ready, and must not be in the pool already.
pub fn add_task(kernel: &mut Kernel, pid: usize)
    requires
        old(kernel).wf(),
        old(kernel)@.live(pid),
        old(kernel)@.tasks[pid].status == TaskStatus::Ready,
        !old(kernel)@.is_queued(pid),
    ensures
        final(kernel).wf(),
        final(kernel)@ == old(kernel)@.add_task(pid),
{
    proof {
        kernel@.lemma_add_task(pid);
    }
    let stride = kernel.tasks.get(pid).inner.stride;
    kernel.manager.add(pid, stride);
}

} // verus!
