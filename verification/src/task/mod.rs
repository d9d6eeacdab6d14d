//! Tasks, the ready pool, the processor and the operations of a task's life.
pub mod context;
pub mod kernel;
pub mod laws;
pub mod manager;
pub mod pid;
pub mod priority;
pub mod processor;
pub mod steps;
pub mod stride;
pub mod table;
pub mod task;

use vstd::prelude::*;
use crate::task::context::{ContextSwitch, TaskContext};
use crate::task::kernel::Kernel;
use crate::task::manager::add_task;
use crate::task::processor::schedule;
use crate::task::task::TaskStatus;

verus! {

/// The current task gives up the processor but stays alive: it is ready
/// again, its stride moves forward by its pass, and it joins the end of the
/// ready pool. The result is the switch back to the dispatch loop, which saves
/// the task so that it resumes here when it is dispatched again.
pub fn suspend_current_and_run_next(kernel: &mut Kernel) -> (switch: ContextSwitch)
    requires
        old(kernel).wf(),
        old(kernel)@.current is Some,
    ensures
        final(kernel).wf(),
        final(kernel)@ == old(kernel)@.suspend(),
        switch == (ContextSwitch {
            from: TaskContext::Task(old(kernel)@.current.unwrap()),
            to: TaskContext::Idle,
        }),
{
    let ghost before = kernel@;
    proof {
        before.lemma_suspend();
        assert(before.live(before.current.unwrap()));
    }
    let pid: usize = match kernel.processor.take_current() {
        Some(pid) => pid,
        None => 0,
    };
    let inner = kernel.tasks.inner_mut(pid);
    inner.task_status = TaskStatus::Ready;
    let stride = inner.stride.advance(inner.priority.pass());
    inner.stride = stride;
    kernel.manager.add(pid, stride);
    schedule(TaskContext::Task(pid))
}

/// The current task, which is not the root task, ends with `exit_code`. It
/// leaves the processor and becomes a zombie that holds the exit code until
/// its parent reaps it. Each of its children gets the root task as parent and
/// joins the end of the root's children, in the order in which they stood.
/// The task gives up its data pages and keeps no children. The result is the
/// switch back to the dispatch loop; what it saves is thrown away, for a
/// zombie never runs again.
pub fn exit_current_and_run_next(kernel: &mut Kernel, exit_code: i32) -> (switch: ContextSwitch)
    requires
        old(kernel).wf(),
        old(kernel)@.current is Some,
        old(kernel)@.current != Some(old(kernel)@.initproc),
    ensures
        final(kernel).wf(),
        final(kernel)@ == old(kernel)@.exit(exit_code),
        switch == (ContextSwitch { from: TaskContext::Throwaway, to: TaskContext::Idle }),
        forall|i: int|
            0 <= i < old(kernel)@.tasks[old(kernel)@.current.unwrap()].children.len() ==> {
                let child = #[trigger] old(kernel)@.tasks[old(
                    kernel,
                )@.current.unwrap()].children[i];
                &&& final(kernel)@.live(child)
                &&& final(kernel)@.tasks[child].parent == Some(old(kernel)@.initproc)
            },
        final(kernel)@.tasks[old(kernel)@.initproc].children == old(kernel)@.tasks[old(
            kernel,
        )@.initproc].children + old(kernel)@.tasks[old(kernel)@.current.unwrap()].children,
{
    let ghost before = kernel@;
    let pid: usize = match kernel.processor.take_current() {
        Some(pid) => pid,
        None => 0,
    };
    let root: usize = kernel.initproc;
    proof {
        before.lemma_exit(exit_code);
        assert(before.live(pid));
        assert(before.live(root));
    }
    let mut kids: Vec<usize> = Vec::new();
    let inner = kernel.tasks.inner_mut(pid);
    inner.task_status = TaskStatus::Zombie;
    inner.exit_code = exit_code;
    core::mem::swap(&mut kids, &mut inner.children);
    inner.memory_set.recycle_data_pages();
    proof {
        assert(kids@ == before.tasks[pid].children);
        assert(kids@.take(0) =~= Seq::<usize>::empty());
        assert(before.tasks[root].children + Seq::<usize>::empty() =~= before.tasks[root].children);
        assert(kernel.tasks@ =~= before.exiting(pid, exit_code, kids@.take(0)));
    }
    let mut i: usize = 0;
    while i < kids.len()
        invariant
            before.wf(),
            before.current == Some(pid),
            before.initproc == root,
            pid != root,
            before.live(pid),
            before.live(root),
            kids@ == before.tasks[pid].children,
            0 <= i <= kids.len(),
            kernel.tasks.wf(),
            kernel.tasks@ == before.exiting(pid, exit_code, kids@.take(i as int)),
            kernel.manager@ == before.ready,
            kernel.pids@ == before.pids,
            kernel.initproc == root,
            kernel.processor@ is None,
        decreases kids.len() - i,
    {
        let child: usize = kids[i];
        let ghost moved = kids@.take(i as int);
        let ghost moved_next = kids@.take(i + 1);
        let ghost step = kernel.tasks@;
        proof {
            let c = before.tasks[pid].children[i as int];
            assert(before.live(c));
            assert(child != pid);
            assert(child != root);
            assert(moved_next =~= moved.push(child));
            assert(!moved.contains(child)) by {
                if moved.contains(child) {
                    let j = choose|j: int| 0 <= j < moved.len() && moved[j] == child;
                    assert(kids@[j] == kids@[i as int]);
                }
            }
        }
        let child_inner = kernel.tasks.inner_mut(child);
        child_inner.parent = Some(root);
        let root_inner = kernel.tasks.inner_mut(root);
        root_inner.children.push(child);
        i = i + 1;
        proof {
            let expected = before.exiting(pid, exit_code, moved_next);
            assert((before.tasks[root].children + moved).push(child) =~= before.tasks[root].children
                + moved_next);
            assert forall|p: usize| expected.dom().contains(p) implies #[trigger] kernel.tasks@[p]
                == expected[p] by {
                if p != pid && p != root && p != child {
                    if moved.contains(p) {
                        let j = choose|j: int| 0 <= j < moved.len() && moved[j] == p;
                        assert(moved_next[j] == p);
                    }
                    if moved_next.contains(p) {
                        let j = choose|j: int| 0 <= j < moved_next.len() && moved_next[j] == p;
                        assert(moved[j] == p);
                    }
                } else if p == child {
                    assert(moved_next[i - 1] == child);
                }
            }
            assert(kernel.tasks@ =~= expected);
        }
    }
    proof {
        assert(kids@.take(kids.len() as int) =~= kids@);
        let after = before.exit(exit_code);
        assert forall|k: int| 0 <= k < kids@.len() implies after.live(#[trigger] kids@[k])
            && after.tasks[kids@[k]].parent == Some(root) by {
            let c = before.tasks[pid].children[k];
            assert(before.live(c));
            assert(kids@.contains(c));
        }
    }
    schedule(TaskContext::Throwaway)
}

/// Puts the root task into the ready pool. This is done once, before the
/// first dispatch, while the root task is ready and not yet in the pool.
pub fn add_initproc(kernel: &mut Kernel)
    requires
        old(kernel).wf(),
        old(kernel)@.tasks[old(kernel)@.initproc].status == TaskStatus::Ready,
        !old(kernel)@.is_queued(old(kernel)@.initproc),
    ensures
        final(kernel).wf(),
        final(kernel)@ == old(kernel)@.add_task(old(kernel)@.initproc),
{
    let root: usize = kernel.initproc;
    add_task(kernel, root);
}

} // verus!
