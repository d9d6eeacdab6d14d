//! What holds over several steps of the task core.
use vstd::prelude::*;
use crate::loader::AppImage;
use crate::mm::AddressSpace;
use crate::task::context::TrapView;
use crate::task::kernel::KernelView;
use crate::task::manager::{
    earliest, in_window, lemma_earliest_in_bounds, lemma_earliest_is_minimum, ReadyTask,
};
use crate::task::priority::lemma_pass_bounds;
use crate::task::stride::{stride_after, wrap_distance, Stride, HALF_RANGE};
use crate::task::task::{TaskStatus, TaskView};

verus! {

/// The pool after one round: the task that is dispatched next has left the
/// pool, its stride has moved forward by `pass`, and it has joined the pool
/// again at the end.
pub open spec fn after_round(pool: Seq<ReadyTask>, pass: u64) -> Seq<ReadyTask> {
    let chosen = pool[earliest(pool)];
    pool.remove(earliest(pool)).push(
        ReadyTask { pid: chosen.pid, stride: Stride(stride_after(chosen.stride.0, pass)) },
    )
}

/// A pool whose strides lie in one window stays such a pool over a round in
/// which the dispatched task moves forward by a pass that is positive and
/// below half the range: afterwards all strides lie in the window that
/// begins at the stride from which the dispatched task set out. So in a pool
/// that begins in one window, of tasks with priorities in range, every
/// dispatch takes the task of minimum stride, and the strides never drift
/// more than half the range apart.
pub proof fn lemma_round_keeps_window(pool: Seq<ReadyTask>, base: u64, pass: u64)
    requires
        pool.len() > 0,
        in_window(pool, base),
        0 < pass < HALF_RANGE,
    ensures
        after_round(pool, pass).len() == pool.len(),
        in_window(after_round(pool, pass), pool[earliest(pool)].stride.0),
{
    let e = earliest(pool);
    lemma_earliest_in_bounds(pool);
    lemma_earliest_is_minimum(pool, base);
    let start = pool[e].stride.0;
    let rest = pool.remove(e);
    pool.remove_ensures(e);
    let next = after_round(pool, pass);
    assert(wrap_distance(base, start) < HALF_RANGE);
    assert forall|i: int| 0 <= i < next.len() implies wrap_distance(
        start,
        #[trigger] next[i].stride.0,
    ) < HALF_RANGE by {
        if i < rest.len() {
            let i0 = if i < e { i } else { i + 1 };
            assert(next[i] == pool[i0]);
            assert(wrap_distance(base, pool[i0].stride.0) < HALF_RANGE);
            assert(wrap_distance(base, start) <= wrap_distance(base, pool[i0].stride.0));
        } else {
            assert(next[i].stride.0 == stride_after(start, pass));
        }
    }
}

/// Whether a task whose status was `from` may have the status `to` one step
/// later: a task keeps its status, or goes from ready to running, or from
/// running to ready or to zombie. A zombie stays a zombie.
pub open spec fn status_may_follow(from: TaskStatus, to: TaskStatus) -> bool {
    ||| from == to
    ||| from == TaskStatus::Ready && to == TaskStatus::Running
    ||| from == TaskStatus::Running && to == TaskStatus::Ready
    ||| from == TaskStatus::Running && to == TaskStatus::Zombie
}

impl KernelView {
    /// Whether every task that lives in this state and in `after` has in
    /// `after` a status that may follow the one it has here.
    pub open spec fn moves_lawfully(self, after: KernelView) -> bool {
        forall|pid: usize|
            #![trigger after.tasks[pid]]
            self.live(pid) && after.live(pid) ==> status_may_follow(
                self.tasks[pid].status,
                after.tasks[pid].status,
            )
    }

    /// Every step of the task core moves the status of every task lawfully:
    /// between ready and running a task may go back and forth, a running
    /// task may become a zombie, and a zombie stays one until it is reaped.
    pub proof fn lemma_status_moves(
        self,
        pid: usize,
        child: TaskView,
        image: AppImage,
        code: i32,
        priority: usize,
        idx: int,
        trap_cx: TrapView,
    )
        requires
            self.wf(),
        ensures
            self.moves_lawfully(self.adopt(pid, child)),
            self.moves_lawfully(self.exec(pid, image)),
            self.moves_lawfully(self.add_task(pid)),
            self.ready.len() > 0 ==> self.moves_lawfully(self.dispatch()),
            self.moves_lawfully(self.take_current()),
            self.current is Some ==> self.moves_lawfully(self.suspend()),
            self.current is Some ==> self.moves_lawfully(self.set_priority(priority)),
            self.current is Some ==> self.moves_lawfully(self.exit(code)),
            self.moves_lawfully(self.reap(pid, idx)),
            self.moves_lawfully(self.with_trap_cx(pid, trap_cx)),
    {
        assert(self.moves_lawfully(self.adopt(pid, child))) by {
            let fresh = self.pids.next_alloc();
            if self.pids.recycled.len() > 0 {
                assert(self.pids.recycled[self.pids.recycled.len() - 1] == fresh);
            }
            assert(!self.pids.in_use(fresh));
            assert(self.live(fresh) <==> self.pids.in_use(fresh));
        }
        if self.ready.len() > 0 {
            lemma_earliest_in_bounds(self.ready);
            let next = self.ready[earliest(self.ready)];
            assert(self.live(next.pid));
        }
        if self.current is Some {
            assert(self.live(self.current.unwrap()));
        }
    }

    /// The state after the tasks `parents` forked, one after the other, each
    /// into the address space at its place in `spaces`.
    pub open spec fn fork_all(self, parents: Seq<usize>, spaces: Seq<AddressSpace>) -> KernelView
        decreases parents.len(),
    {
        if parents.len() == 0 {
            self
        } else {
            self.fork_all(parents.drop_last(), spaces.drop_last()).fork(
                parents.last(),
                spaces.last(),
            )
        }
    }

    /// The process ids that these forks returned, in the order of the forks.
    pub open spec fn forked_pids(self, parents: Seq<usize>, spaces: Seq<AddressSpace>) -> Seq<
        usize,
    >
        decreases parents.len(),
    {
        if parents.len() == 0 {
            Seq::empty()
        } else {
            self.forked_pids(parents.drop_last(), spaces.drop_last()).push(
                self.fork_all(parents.drop_last(), spaces.drop_last()).pids.next_alloc(),
            )
        }
    }

    /// Whether each of these forks can be made when its turn comes: the
    /// parent is then a live task that has not exited, and a process id is
    /// left.
    pub open spec fn can_fork_all(self, parents: Seq<usize>, spaces: Seq<AddressSpace>) -> bool
        decreases parents.len(),
    {
        if parents.len() == 0 {
            true
        } else {
            let before = self.fork_all(parents.drop_last(), spaces.drop_last());
            &&& self.can_fork_all(parents.drop_last(), spaces.drop_last())
            &&& before.live(parents.last())
            &&& before.tasks[parents.last()].status != TaskStatus::Zombie
            &&& before.pids.can_alloc()
        }
    }

    /// In any sequence of forks, by whichever tasks, every fork returns a
    /// process id of its own: no two forks return the same id, no fork
    /// returns the id of its parent, and no fork returns the id of a task
    /// that lived before the first fork. All the children live afterwards,
    /// and the state is well-formed.
    pub proof fn lemma_forks_return_distinct_pids(
        self,
        parents: Seq<usize>,
        spaces: Seq<AddressSpace>,
    )
        requires
            self.wf(),
            parents.len() == spaces.len(),
            self.can_fork_all(parents, spaces),
        ensures
            self.fork_all(parents, spaces).wf(),
            self.forked_pids(parents, spaces).len() == parents.len(),
            self.forked_pids(parents, spaces).no_duplicates(),
            forall|i: int|
                0 <= i < parents.len() ==> {
                    &&& (#[trigger] self.forked_pids(parents, spaces)[i]) != parents[i]
                    &&& !self.live(self.forked_pids(parents, spaces)[i])
                    &&& self.fork_all(parents, spaces).live(self.forked_pids(parents, spaces)[i])
                },
            forall|pid: usize| self.live(pid) ==> #[trigger] self.fork_all(parents, spaces).live(pid),
        decreases parents.len(),
    {
        if parents.len() > 0 {
            let front_parents = parents.drop_last();
            let front_spaces = spaces.drop_last();
            self.lemma_forks_return_distinct_pids(front_parents, front_spaces);
            let before = self.fork_all(front_parents, front_spaces);
            let front = self.forked_pids(front_parents, front_spaces);
            let parent = parents.last();
            let pid = before.pids.next_alloc();
            let after = self.fork_all(parents, spaces);
            let all = self.forked_pids(parents, spaces);
            before.lemma_adopt(parent, before.forked_child(parent, spaces.last()));
            assert(all == front.push(pid));
            assert forall|i: int| 0 <= i < parents.len() implies (#[trigger] all[i]) != parents[i]
                && !self.live(all[i]) && after.live(all[i]) by {
                if i < front.len() {
                    assert(all[i] == front[i]);
                    assert(before.live(front[i]));
                    assert(parents[i] == front_parents[i]);
                } else {
                    if self.live(pid) {
                        assert(before.live(pid));
                    }
                }
            }
            assert forall|i: int, j: int|
                0 <= i < all.len() && 0 <= j < all.len() && i != j implies all[i] != all[j] by {
                if i < front.len() && j < front.len() {
                } else if i < front.len() {
                    assert(before.live(front[i]));
                } else {
                    assert(before.live(front[j]));
                }
            }
            assert forall|p: usize| self.live(p) implies #[trigger] after.live(p) by {
                assert(before.live(p));
            }
        }
    }

    /// One round of the current task at the task level: it gives up the
    /// processor and the next task is dispatched. Where the strides of the
    /// pool and of the current task lie in one window before, the strides of
    /// the pool lie in one window afterwards too.
    pub proof fn lemma_yield_keeps_window(self, base: u64)
        requires
            self.wf(),
            self.current is Some,
            in_window(self.ready, base),
            wrap_distance(base, self.tasks[self.current.unwrap()].stride) < HALF_RANGE,
            forall|i: int|
                0 <= i < self.ready.len() ==> wrap_distance(
                    self.tasks[self.current.unwrap()].stride,
                    #[trigger] self.ready[i].stride.0,
                ) < HALF_RANGE,
        ensures
            self.suspend().wf(),
            self.suspend().ready.len() > 0,
            self.suspend().dispatch().wf(),
            in_window(self.suspend().ready, self.tasks[self.current.unwrap()].stride),
            in_window(self.suspend().dispatch().ready, self.tasks[self.current.unwrap()].stride),
    {
        let pid = self.current.unwrap();
        let start = self.tasks[pid].stride;
        assert(self.live(pid));
        lemma_pass_bounds(self.tasks[pid].priority);
        self.lemma_suspend();
        let queued = self.suspend();
        assert forall|i: int| 0 <= i < queued.ready.len() implies wrap_distance(
            start,
            #[trigger] queued.ready[i].stride.0,
        ) < HALF_RANGE by {
            if i < self.ready.len() {
                assert(queued.ready[i] == self.ready[i]);
            }
        }
        queued.lemma_dispatch();
        let e = earliest(queued.ready);
        lemma_earliest_in_bounds(queued.ready);
        queued.ready.remove_ensures(e);
        let after = queued.dispatch();
        assert forall|i: int| 0 <= i < after.ready.len() implies wrap_distance(
            start,
            #[trigger] after.ready[i].stride.0,
        ) < HALF_RANGE by {
            let i0 = if i < e { i } else { i + 1 };
            assert(after.ready[i] == queued.ready[i0]);
        }
    }
}

} // verus!
