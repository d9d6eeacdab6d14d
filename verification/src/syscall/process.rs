//! The system calls of a task's life: what each one does to the task core
//! and what it returns to the calling task, which is the current one.
//!
//! A negative return value reports an error. What the memory subsystem and
//! the loader contribute is handed in as plain values: the address space a
//! fork copies into, the image a name was resolved to, the place an exit code
//! is written to.
use vstd::prelude::*;
use crate::loader::AppImage;
use crate::mm::AddressSpace;
use crate::task::context::ContextSwitch;
use crate::task::kernel::{Kernel, KernelView};
use crate::task::manager::add_task;
use crate::task::priority::{priority_in_range, TaskPriority};
use crate::task::processor::{current_task, set_priority};
use crate::task::task::TaskStatus;
use crate::task::{exit_current_and_run_next, suspend_current_and_run_next};

verus! {

/// Whether a wait for `target` is a wait for the child `child`: the target
/// is that child's process id, or it is -1, which stands for any child.
pub open spec fn wait_matches(target: isize, child: usize) -> bool {
    target == -1 || target == child
}

impl KernelView {
    /// Whether `parent` has a child that a wait for `target` waits for.
    pub open spec fn has_awaited_child(self, parent: usize, target: isize) -> bool {
        exists|i: int|
            0 <= i < self.tasks[parent].children.len() && wait_matches(
                target,
                #[trigger] self.tasks[parent].children[i],
            )
    }

    /// Whether the child at place `i` of the children of `parent` is one that
    /// a wait for `target` can reap: it is waited for, and it is a zombie.
    pub open spec fn is_reapable(self, parent: usize, target: isize, i: int) -> bool {
        &&& 0 <= i < self.tasks[parent].children.len()
        &&& wait_matches(target, self.tasks[parent].children[i])
        &&& self.tasks[self.tasks[parent].children[i]].status == TaskStatus::Zombie
    }

    /// Whether `parent` has a child that a wait for `target` can reap.
    pub open spec fn has_reapable_child(self, parent: usize, target: isize) -> bool {
        exists|i: int| #[trigger] self.is_reapable(parent, target, i)
    }

    /// Whether place `i` is the first among the children of `parent` that a
    /// wait for `target` can reap.
    pub open spec fn first_reapable(self, parent: usize, target: isize, i: int) -> bool {
        &&& self.is_reapable(parent, target, i)
        &&& forall|j: int| 0 <= j < i ==> !#[trigger] self.is_reapable(parent, target, j)
    }
}

/// The current task ends with `exit_code`; see `exit_current_and_run_next`.
/// The call does not return to the task: the result is the switch away from
/// it.
pub fn sys_exit(kernel: &mut Kernel, exit_code: i32) -> (switch: ContextSwitch)
    requires
        old(kernel).wf(),
        old(kernel)@.current is Some,
        old(kernel)@.current != Some(old(kernel)@.initproc),
    ensures
        final(kernel).wf(),
        final(kernel)@ == old(kernel)@.exit(exit_code),
        switch == (ContextSwitch {
            from: crate::task::context::TaskContext::Throwaway,
            to: crate::task::context::TaskContext::Idle,
        }),
        forall|i: int|
            0 <= i < old(kernel)@.tasks[old(kernel)@.current.unwrap()].children.len() ==> {
                let child = #[trigger] old(kernel)@.tasks[old(
                    kernel,
                )@.current.unwrap()].children[i];
                &&& final(kernel)@.live(child)
                &&& final(kernel)@.tasks[child].parent == Some(old(kernel)@.initproc)
            },
        final(kernel)@.tasks[old(kernel)@.initproc].children == old(kernel)@.tasks[old(
            kernel,
        )@.initproc].children + old(kernel)@.tasks[old(kernel)@.current.unwrap()].children,
{
    exit_current_and_run_next(kernel, exit_code)
}

/// The current task gives up the processor; see
/// `suspend_current_and_run_next`. Returns 0, which the task finds when it
/// runs again, and the switch away from it.
pub fn sys_yield(kernel: &mut Kernel) -> (result: (isize, ContextSwitch))
    requires
        old(kernel).wf(),
        old(kernel)@.current is Some,
    ensures
        final(kernel).wf(),
        final(kernel)@ == old(kernel)@.suspend(),
        result.0 == 0,
        result.1 == (ContextSwitch {
            from: crate::task::context::TaskContext::Task(old(kernel)@.current.unwrap()),
            to: crate::task::context::TaskContext::Idle,
        }),
{
    let switch = suspend_current_and_run_next(kernel);
    (0, switch)
}

/// The process id of the current task.
pub fn sys_getpid(kernel: &Kernel) -> (pid: isize)
    requires
        kernel.wf(),
        kernel@.current is Some,
    ensures
        pid == kernel@.current.unwrap(),
{
    match current_task(kernel) {
        Some(pid) => {
            proof {
                assert(kernel@.live(pid));
            }
            pid as isize
        },
        None => 0,
    }
}

/// The current task forks. `space` is the copy of its address space that the
/// memory subsystem made for the child. The child joins the children of the
/// current task and the end of the ready pool. Returns the child's process
/// id, which no live task had, and so is neither the caller's nor that of a
/// child forked before and still alive; or -1, with nothing changed, where no
/// process id is left.
pub fn sys_fork(kernel: &mut Kernel, space: AddressSpace) -> (new_pid: isize)
    requires
        old(kernel).wf(),
        old(kernel)@.current is Some,
    ensures
        final(kernel).wf(),
        new_pid == -1 <==> !old(kernel)@.pids.can_alloc(),
        new_pid == -1 ==> final(kernel)@ == old(kernel)@,
        new_pid != -1 ==> {
            &&& new_pid == old(kernel)@.pids.next_alloc()
            &&& !old(kernel)@.live(new_pid as usize)
            &&& new_pid != old(kernel)@.current.unwrap()
            &&& final(kernel)@ == old(kernel)@.fork(old(kernel)@.current.unwrap(), space).add_task(
                new_pid as usize,
            )
        },
{
    let current: usize = match current_task(kernel) {
        Some(pid) => pid,
        None => 0,
    };
    proof {
        assert(kernel@.live(current));
    }
    match kernel.fork(current, space) {
        Some(new_pid) => {
            proof {
                assert(kernel@.live(new_pid));
                assert(!kernel@.is_queued(new_pid)) by {
                    if kernel@.is_queued(new_pid) {
                        let i = choose|i: int|
                            0 <= i < kernel@.ready.len() && (#[trigger] kernel@.ready[i]).pid
                                == new_pid;
                        assert(old(kernel)@.live(old(kernel)@.ready[i].pid));
                    }
                }
            }
            add_task(kernel, new_pid);
            new_pid as isize
        },
        None => -1,
    }
}

/// The current task replaces its program. `image` is what the loader found
/// under the name that the task gave: with an image the task goes on in it,
/// under the same process id and with the same parent and children, and the
/// result is 0; without one nothing changes and the result is -1.
pub fn sys_exec(kernel: &mut Kernel, image: Option<AppImage>) -> (result: isize)
    requires
        old(kernel).wf(),
        old(kernel)@.current is Some,
    ensures
        final(kernel).wf(),
        image is None ==> result == -1 && final(kernel)@ == old(kernel)@,
        image is Some ==> result == 0 && final(kernel)@ == old(kernel)@.exec(
            old(kernel)@.current.unwrap(),
            image.unwrap(),
        ),
{
    match image {
        Some(image) => {
            let current: usize = match current_task(kernel) {
                Some(pid) => pid,
                None => 0,
            };
            proof {
                assert(kernel@.live(current));
            }
            kernel.exec(current, image);
            0
        },
        None => -1,
    }
}

/// The current task spawns a task from a program. `image` is what the loader
/// found under the name that the task gave. With an image, the new task joins
/// the children of the current task and the end of the ready pool, and the
/// result is its process id, which no live task had. Without an image, or
/// where no process id is left, nothing changes and the result is -1.
pub fn sys_spawn(kernel: &mut Kernel, image: Option<AppImage>) -> (new_pid: isize)
    requires
        old(kernel).wf(),
        old(kernel)@.current is Some,
    ensures
        final(kernel).wf(),
        new_pid == -1 <==> image is None || !old(kernel)@.pids.can_alloc(),
        new_pid == -1 ==> final(kernel)@ == old(kernel)@,
        new_pid != -1 ==> {
            &&& new_pid == old(kernel)@.pids.next_alloc()
            &&& !old(kernel)@.live(new_pid as usize)
            &&& new_pid != old(kernel)@.current.unwrap()
            &&& final(kernel)@ == old(kernel)@.spawn(
                old(kernel)@.current.unwrap(),
                image.unwrap(),
            ).add_task(new_pid as usize)
        },
{
    match image {
        Some(image) => {
            let current: usize = match current_task(kernel) {
                Some(pid) => pid,
                None => 0,
            };
            proof {
                assert(kernel@.live(current));
            }
            match kernel.spawn(current, image) {
                Some(new_pid) => {
                    proof {
                        assert(kernel@.live(new_pid));
                        assert(!kernel@.is_queued(new_pid)) by {
                            if kernel@.is_queued(new_pid) {
                                let i = choose|i: int|
                                    0 <= i < kernel@.ready.len() && (
                                    #[trigger] kernel@.ready[i]).pid == new_pid;
                                assert(old(kernel)@.live(old(kernel)@.ready[i].pid));
                            }
                        }
                    }
                    add_task(kernel, new_pid);
                    new_pid as isize
                },
                None => -1,
            }
        },
        None => -1,
    }
}

/// The current task asks for a child that has exited. `pid` is the process
/// id of the child it waits for, or -1 for any child; `exit_code` is the
/// place for the child's exit code.
///
/// Where the task has no child that it waits for, the result is -1. Where it
/// has such children but none of them is a zombie, the result is -2; the task
/// may ask again later. In both cases nothing changes. Otherwise the first
/// such zombie among the children, in the order in which they joined, is
/// reaped: its exit code is written to `exit_code`, it is gone from the
/// children and from the table, its process id is given back, and the result
/// is that process id.
pub fn sys_waitpid(kernel: &mut Kernel, pid: isize, exit_code: &mut i32) -> (result: isize)
    requires
        old(kernel).wf(),
        old(kernel)@.current is Some,
    ensures
        final(kernel).wf(),
        result == -1 <==> !old(kernel)@.has_awaited_child(old(kernel)@.current.unwrap(), pid),
        result == -2 <==> old(kernel)@.has_awaited_child(old(kernel)@.current.unwrap(), pid)
            && !old(kernel)@.has_reapable_child(old(kernel)@.current.unwrap(), pid),
        result == -1 || result == -2 ==> final(kernel)@ == old(kernel)@ && *final(exit_code)
            == *old(exit_code),
        result >= 0 <==> old(kernel)@.has_reapable_child(old(kernel)@.current.unwrap(), pid),
        old(kernel)@.tasks[old(kernel)@.current.unwrap()].children.len() == 0 ==> result == -1,
        pid == -1 && old(kernel)@.tasks[old(kernel)@.current.unwrap()].children.len() > 0 && (
        forall|i: int|
            0 <= i < old(kernel)@.tasks[old(kernel)@.current.unwrap()].children.len()
                ==> old(kernel)@.tasks[#[trigger] old(kernel)@.tasks[old(
                kernel,
            )@.current.unwrap()].children[i]].status != TaskStatus::Zombie) ==> result == -2,
        forall|idx: int| #[trigger]
            old(kernel)@.first_reapable(old(kernel)@.current.unwrap(), pid, idx) ==> {
                let parent = old(kernel)@.current.unwrap();
                let child = old(kernel)@.tasks[parent].children[idx];
                &&& result == child
                &&& *final(exit_code) == old(kernel)@.tasks[child].exit_code
                &&& final(kernel)@ == old(kernel)@.reap(parent, idx)
            },
        result >= 0 ==> {
            &&& old(kernel)@.tasks[old(kernel)@.current.unwrap()].children.contains(
                result as usize,
            )
            &&& old(kernel)@.tasks[result as usize].status == TaskStatus::Zombie
            &&& wait_matches(pid, result as usize)
            &&& *final(exit_code) == old(kernel)@.tasks[result as usize].exit_code
            &&& !final(kernel)@.tasks[old(kernel)@.current.unwrap()].children.contains(
                result as usize,
            )
            &&& !final(kernel)@.live(result as usize)
        },
{
    let ghost before = kernel@;
    let parent: usize = match current_task(kernel) {
        Some(pid) => pid,
        None => 0,
    };
    proof {
        assert(before.live(parent));
    }
    let children = &kernel.tasks.get(parent).inner.children;
    let n: usize = children.len();
    let mut awaited: bool = false;
    let mut found: Option<usize> = None;
    let mut i: usize = 0;
    while i < n && found.is_none()
        invariant
            kernel.wf(),
            kernel@ == before,
            before.live(parent),
            children@ == before.tasks[parent].children,
            n == children@.len(),
            0 <= i <= n,
            awaited <==> exists|j: int|
                0 <= j < i && wait_matches(pid, #[trigger] before.tasks[parent].children[j]),
            found matches Some(idx) ==> idx + 1 == i && before.first_reapable(
                parent,
                pid,
                idx as int,
            ),
            found is None ==> forall|j: int|
                0 <= j < i ==> !#[trigger] before.is_reapable(parent, pid, j),
        decreases n - i + (if found is None { 1int } else { 0int }),
    {
        let child: usize = children[i];
        proof {
            assert(child == before.tasks[parent].children[i as int]);
            assert(before.live(child));
        }
        if pid == -1 || (pid >= 0 && pid as usize == child) {
            awaited = true;
            if kernel.tasks.get(child).inner.is_zombie() {
                found = Some(i);
            }
        }
        i = i + 1;
    }
    match found {
        Some(idx) => {
            proof {
                before.lemma_reap(parent, idx as int);
                assert(before.is_reapable(parent, pid, idx as int));
                assert forall|other: int| #[trigger]
                    before.first_reapable(parent, pid, other) implies other == idx by {
                    if other < idx {
                        assert(!before.is_reapable(parent, pid, other));
                    } else if other > idx {
                        assert(before.is_reapable(parent, pid, idx as int));
                    }
                }
                assert(wait_matches(pid, before.tasks[parent].children[idx as int]));
            }
            let child: usize = children[idx];
            let ghost siblings = before.tasks[parent].children;
            let inner = kernel.tasks.inner_mut(parent);
            inner.children.remove(idx);
            let tcb = kernel.tasks.remove(child);
            proof {
                assert(before.pids.in_use(child));
            }
            kernel.pids.pid_dealloc(child);
            *exit_code = tcb.inner.exit_code;
            proof {
                assert(kernel@.tasks =~= before.reap(parent, idx as int).tasks);
                siblings.remove_ensures(idx as int);
                let rest = siblings.remove(idx as int);
                assert(!rest.contains(child)) by {
                    if rest.contains(child) {
                        let k = choose|k: int| 0 <= k < rest.len() && rest[k] == child;
                        let k0 = if k < idx { k } else { k + 1 };
                        assert(rest[k] == siblings[k0]);
                    }
                }
            }
            child as isize
        },
        None => {
            proof {
                assert(i == n);
                assert(!before.has_reapable_child(parent, pid)) by {
                    if before.has_reapable_child(parent, pid) {
                        let j = choose|j: int| #[trigger] before.is_reapable(parent, pid, j);
                        assert(!before.is_reapable(parent, pid, j));
                    }
                }
                assert forall|idx: int| !#[trigger] before.first_reapable(parent, pid, idx) by {
                    if before.first_reapable(parent, pid, idx) {
                        assert(before.is_reapable(parent, pid, idx));
                    }
                }
            }
            proof {
                if n > 0 && pid == -1 {
                    assert(wait_matches(pid, before.tasks[parent].children[0]));
                }
            }
            if awaited {
                -2
            } else {
                -1
            }
        },
    }
}

/// Sets the priority of the current task to `prio`. A priority in range, from
/// `MIN_PRIORITY` to `MAX_PRIORITY`, is taken over, and the result is that
/// priority. Any other is refused: nothing changes and the result is -1.
pub fn sys_set_priority(kernel: &mut Kernel, prio: usize) -> (result: isize)
    requires
        old(kernel).wf(),
        priority_in_range(prio) ==> old(kernel)@.current is Some,
    ensures
        final(kernel).wf(),
        !priority_in_range(prio) ==> result == -1 && final(kernel)@ == old(kernel)@,
        priority_in_range(prio) ==> result == prio && final(kernel)@ == old(kernel)@.set_priority(
            prio,
        ),
{
    match TaskPriority::new(prio) {
        Some(priority) => {
            set_priority(kernel, priority);
            prio as isize
        },
        None => -1,
    }
}

} // verus!
