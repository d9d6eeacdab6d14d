//! The steps by which the task core changes, as functions on what it stands
//! for, and the proof that each of them keeps it well-formed.
use vstd::prelude::*;
use crate::config::DEFAULT_PRIORITY;
use crate::loader::AppImage;
use crate::mm::AddressSpace;
use crate::task::context::TrapView;
use crate::task::kernel::KernelView;
use crate::task::manager::{earliest, lemma_earliest_in_bounds, ReadyTask};
use crate::task::priority::{pass_of, priority_in_range};
use crate::task::processor::{mark_running, with_priority};
use crate::task::stride::{stride_after, Stride};
use crate::task::task::{TaskStatus, TaskView};

verus! {

impl KernelView {
    /// The child that `parent` gets by a fork into the address space
    /// `space`: a ready task with the parent's registers, but zero in the
    /// return register, with the default priority and a stride of zero.
    pub open spec fn forked_child(self, parent: usize, space: AddressSpace) -> TaskView {
        TaskView {
            status: TaskStatus::Ready,
            trap_cx: self.tasks[parent].trap_cx.with_return_value(0),
            memory_set: space,
            parent: Some(parent),
            children: Seq::empty(),
            exit_code: 0,
            priority: DEFAULT_PRIORITY,
            stride: 0,
        }
    }

    /// The state after a new task `child` was given the next process id and
    /// put at the end of the children of `parent`.
    pub open spec fn adopt(self, parent: usize, child: TaskView) -> KernelView {
        let pid = self.pids.next_alloc();
        KernelView {
            tasks: self.tasks.insert(
                parent,
                TaskView {
                    children: self.tasks[parent].children.push(pid),
                    ..self.tasks[parent]
                },
            ).insert(pid, child),
            pids: self.pids.after_alloc(),
            ..self
        }
    }

    /// The state after `parent` forked into the address space `space`.
    pub open spec fn fork(self, parent: usize, space: AddressSpace) -> KernelView {
        self.adopt(parent, self.forked_child(parent, space))
    }

    /// The state after `parent` spawned a task from `image`.
    pub open spec fn spawn(self, parent: usize, image: AppImage) -> KernelView {
        self.adopt(parent, TaskView::fresh(image, Some(parent)))
    }

    /// The state after `pid` replaced its program by `image`.
    pub open spec fn exec(self, pid: usize, image: AppImage) -> KernelView {
        KernelView {
            tasks: self.tasks.insert(
                pid,
                TaskView {
                    memory_set: image.space,
                    trap_cx: TrapView::app_init(image.entry_point, image.user_sp),
                    ..self.tasks[pid]
                },
            ),
            ..self
        }
    }

    /// The state after `pid` joined the ready pool, at its stride.
    pub open spec fn add_task(self, pid: usize) -> KernelView {
        KernelView {
            ready: self.ready.push(ReadyTask { pid, stride: Stride(self.tasks[pid].stride) }),
            ..self
        }
    }

    /// The process id of the task that is dispatched next.
    pub open spec fn next_dispatched(self) -> usize {
        self.ready[earliest(self.ready)].pid
    }

    /// The state after the processor dispatched a task from the pool, which
    /// must hold one.
    pub open spec fn dispatch(self) -> KernelView {
        KernelView {
            tasks: mark_running(self.tasks, self.next_dispatched()),
            ready: self.ready.remove(earliest(self.ready)),
            current: Some(self.next_dispatched()),
            ..self
        }
    }

    /// The state after the current task was taken from the processor.
    pub open spec fn take_current(self) -> KernelView {
        KernelView { current: None, ..self }
    }

    /// The stride of `pid` after one more dispatch.
    pub open spec fn advanced_stride(self, pid: usize) -> u64 {
        stride_after(self.tasks[pid].stride, pass_of(self.tasks[pid].priority))
    }

    /// The state after the current task gave up the processor: the task is
    /// ready again, its stride has moved forward by its pass, and it waits
    /// at the end of the pool.
    pub open spec fn suspend(self) -> KernelView {
        let pid = self.current.unwrap();
        let stride = self.advanced_stride(pid);
        KernelView {
            tasks: self.tasks.insert(
                pid,
                TaskView { status: TaskStatus::Ready, stride, ..self.tasks[pid] },
            ),
            ready: self.ready.push(ReadyTask { pid, stride: Stride(stride) }),
            current: None,
            ..self
        }
    }

    /// The state after the priority of the current task was set.
    pub open spec fn set_priority(self, priority: usize) -> KernelView {
        KernelView { tasks: with_priority(self.tasks, self.current.unwrap(), priority), ..self }
    }

    /// The state in which the registers of `pid` are `trap_cx`.
    pub open spec fn with_trap_cx(self, pid: usize, trap_cx: TrapView) -> KernelView {
        KernelView {
            tasks: self.tasks.insert(pid, TaskView { trap_cx, ..self.tasks[pid] }),
            ..self
        }
    }

    /// What is left of task `pid` when it exits with `code`: a zombie
    /// without children whose data pages are given up.
    pub open spec fn exited(self, pid: usize, code: i32) -> TaskView {
        TaskView {
            status: TaskStatus::Zombie,
            exit_code: code,
            children: Seq::empty(),
            memory_set: AddressSpace { token: self.tasks[pid].memory_set.token, resident: false },
            ..self.tasks[pid]
        }
    }

    /// The tasks while `pid` exits with `code`, when the children `moved`
    /// have gone over to the root task so far: they name the root as their
    /// parent and stand at the end of its children, in the order in which
    /// they went.
    pub open spec fn exiting(self, pid: usize, code: i32, moved: Seq<usize>) -> Map<
        usize,
        TaskView,
    > {
        Map::new(
            |p: usize| self.live(p),
            |p: usize|
                if p == pid {
                    self.exited(pid, code)
                } else if p == self.initproc {
                    TaskView {
                        children: self.tasks[self.initproc].children + moved,
                        ..self.tasks[p]
                    }
                } else if moved.contains(p) {
                    TaskView { parent: Some(self.initproc), ..self.tasks[p] }
                } else {
                    self.tasks[p]
                },
        )
    }

    /// The state after the current task exited with `code`: the task is a
    /// zombie and no longer current, and all its children belong to the root
    /// task.
    pub open spec fn exit(self, code: i32) -> KernelView {
        let pid = self.current.unwrap();
        KernelView {
            tasks: self.exiting(pid, code, self.tasks[pid].children),
            current: None,
            ..self
        }
    }

    /// The state after `parent` reaped the child at place `idx` of its
    /// children: the child is gone from the table and from the children of
    /// `parent`, and its process id is given back.
    pub open spec fn reap(self, parent: usize, idx: int) -> KernelView {
        let child = self.tasks[parent].children[idx];
        KernelView {
            tasks: self.tasks.remove(child).insert(
                parent,
                TaskView {
                    children: self.tasks[parent].children.remove(idx),
                    ..self.tasks[parent]
                },
            ),
            pids: self.pids.after_dealloc(child),
            ..self
        }
    }

    /// A new task under a live parent that has not exited keeps the state
    /// well-formed, and its process id is one that no live task had.
    pub proof fn lemma_adopt(self, parent: usize, child: TaskView)
        requires
            self.wf(),
            self.live(parent),
            self.tasks[parent].status != TaskStatus::Zombie,
            self.pids.can_alloc(),
            child.parent == Some(parent),
            child.children.len() == 0,
            priority_in_range(child.priority),
        ensures
            self.adopt(parent, child).wf(),
            !self.live(self.pids.next_alloc()),
            self.pids.next_alloc() != parent,
    {
        let pid = self.pids.next_alloc();
        let after = self.adopt(parent, child);
        self.pids.lemma_alloc();
        assert(!self.live(pid));
        assert forall|p: usize| #[trigger] after.live(p) <==> after.pids.in_use(p) by {
            if p != pid {
                assert(self.live(p) <==> self.pids.in_use(p));
            }
        }
        let old_children = self.tasks[parent].children;
        let new_children = old_children.push(pid);
        assert(!old_children.contains(pid)) by {
            if old_children.contains(pid) {
                let i = choose|i: int| 0 <= i < old_children.len() && old_children[i] == pid;
                assert(self.live(self.tasks[parent].children[i]));
            }
        }
        assert forall|p: usize, i: int|
            #![trigger after.tasks[p].children[i]]
            after.live(p) && 0 <= i < after.tasks[p].children.len() implies after.live(
            after.tasks[p].children[i],
        ) && after.tasks[after.tasks[p].children[i]].parent == Some(p) by {
            if p == pid {
            } else if p == parent {
                if i < old_children.len() {
                    let c = self.tasks[parent].children[i];
                    assert(self.live(c));
                    assert(c != pid);
                    assert(c != parent) by {
                        assert(self.live(parent));
                    }
                }
            } else {
                let c = self.tasks[p].children[i];
                assert(self.live(c));
                assert(c != pid);
                assert(self.tasks[c].parent == Some(p));
            }
        }
        assert forall|p: usize| #[trigger] after.live(p) implies match after.tasks[p].parent {
            Some(q) => q != p && after.live(q) && after.tasks[q].children.contains(p),
            None => p == after.initproc,
        } by {
            if p == pid {
                assert(new_children[old_children.len() as int] == pid);
            } else {
                assert(self.live(p));
                match self.tasks[p].parent {
                    Some(q) => {
                        if q == parent {
                            let i = choose|i: int|
                                0 <= i < old_children.len() && old_children[i] == p;
                            assert(new_children[i] == p);
                        }
                    },
                    None => {},
                }
            }
        }
        assert forall|p: usize| #[trigger] after.live(p) implies after.tasks[p].children.no_duplicates()
            && (after.tasks[p].status == TaskStatus::Zombie ==> after.tasks[p].children.len() == 0)
            && priority_in_range(after.tasks[p].priority) by {
            if p == pid {
            } else {
                assert(self.live(p));
                if p == parent {
                    assert forall|i: int, j: int|
                        0 <= i < new_children.len() && 0 <= j < new_children.len() && i
                            != j implies new_children[i] != new_children[j] by {
                        if i < old_children.len() && j < old_children.len() {
                        } else if i < old_children.len() {
                            assert(old_children.contains(old_children[i]));
                        } else {
                            assert(old_children.contains(old_children[j]));
                        }
                    }
                }
            }
        }
        assert(after.root_wf()) by {
            assert(self.live(self.initproc));
        }
        assert(after.ready_wf()) by {
            assert forall|i: int| 0 <= i < after.ready.len() implies after.live(
                (#[trigger] after.ready[i]).pid,
            ) && after.tasks[after.ready[i].pid].status == TaskStatus::Ready
                && after.tasks[after.ready[i].pid].stride == after.ready[i].stride.0 by {
                assert(self.live(self.ready[i].pid));
            }
        }
        assert(after.current_wf());
    }

    /// A state with the same process tree as a well-formed one, in which no
    /// task turned into a zombie and every priority is in range, has all of
    /// well-formedness that does not speak of the pool or the processor.
    pub proof fn lemma_same_tree(self, after: KernelView)
        requires
            self.wf(),
            after.tasks.dom() == self.tasks.dom(),
            after.initproc == self.initproc,
            after.pids == self.pids,
            forall|pid: usize| #[trigger]
                self.live(pid) ==> {
                    &&& after.tasks[pid].parent == self.tasks[pid].parent
                    &&& after.tasks[pid].children == self.tasks[pid].children
                    &&& priority_in_range(after.tasks[pid].priority)
                    &&& (after.tasks[pid].status == TaskStatus::Zombie ==> self.tasks[pid].status
                        == TaskStatus::Zombie)
                },
        ensures
            after.ids_wf(),
            after.children_wf(),
            after.parents_wf(),
            after.tasks_wf(),
            after.root_wf(),
    {
        assert forall|p: usize| #[trigger] after.live(p) <==> after.pids.in_use(p) by {
            assert(self.live(p) <==> self.pids.in_use(p));
        }
        assert forall|p: usize, i: int|
            #![trigger after.tasks[p].children[i]]
            after.live(p) && 0 <= i < after.tasks[p].children.len() implies after.live(
            after.tasks[p].children[i],
        ) && after.tasks[after.tasks[p].children[i]].parent == Some(p) by {
            assert(self.live(p));
            let c = self.tasks[p].children[i];
            assert(self.live(c));
        }
        assert forall|p: usize| #[trigger] after.live(p) implies match after.tasks[p].parent {
            Some(q) => q != p && after.live(q) && after.tasks[q].children.contains(p),
            None => p == after.initproc,
        } by {
            assert(self.live(p));
            match self.tasks[p].parent {
                Some(q) => {
                    assert(self.live(q));
                },
                None => {},
            }
        }
        assert forall|p: usize| #[trigger] after.live(p) implies after.tasks[p].children.no_duplicates()
            && (after.tasks[p].status == TaskStatus::Zombie ==> after.tasks[p].children.len() == 0)
            && priority_in_range(after.tasks[p].priority) by {
            assert(self.live(p));
        }
        assert(after.root_wf()) by {
            assert(self.live(self.initproc));
        }
    }

    /// A new program in a live task keeps the state well-formed.
    pub proof fn lemma_exec(self, pid: usize, image: AppImage)
        requires
            self.wf(),
            self.live(pid),
        ensures
            self.exec(pid, image).wf(),
    {
        let after = self.exec(pid, image);
        assert(after.tasks.dom() =~= self.tasks.dom());
        self.lemma_same_tree(after);
        assert forall|i: int| 0 <= i < after.ready.len() implies after.live(
            (#[trigger] after.ready[i]).pid,
        ) && after.tasks[after.ready[i].pid].status == TaskStatus::Ready
            && after.tasks[after.ready[i].pid].stride == after.ready[i].stride.0 by {
            assert(self.live(self.ready[i].pid));
        }
    }

    /// A live, ready task that is not in the pool may join it.
    pub proof fn lemma_add_task(self, pid: usize)
        requires
            self.wf(),
            self.live(pid),
            self.tasks[pid].status == TaskStatus::Ready,
            !self.is_queued(pid),
        ensures
            self.add_task(pid).wf(),
    {
        let after = self.add_task(pid);
        self.lemma_same_tree(after);
        let n = self.ready.len() as int;
        assert forall|i: int| 0 <= i < after.ready.len() implies after.live(
            (#[trigger] after.ready[i]).pid,
        ) && after.tasks[after.ready[i].pid].status == TaskStatus::Ready
            && after.tasks[after.ready[i].pid].stride == after.ready[i].stride.0 by {
            if i < n {
                assert(after.ready[i] == self.ready[i]);
            }
        }
        assert forall|i: int, j: int| 0 <= i < j < after.ready.len() implies (
        #[trigger] after.ready[i]).pid != (#[trigger] after.ready[j]).pid by {
            assert(after.ready[i] == self.ready[i]);
            if j < n {
                assert(after.ready[j] == self.ready[j]);
            } else {
                assert(self.ready[i].pid != pid);
            }
        }
    }

    /// A dispatch from a pool that holds a task keeps the state well-formed;
    /// the task dispatched was in the pool.
    pub proof fn lemma_dispatch(self)
        requires
            self.wf(),
            self.ready.len() > 0,
        ensures
            self.dispatch().wf(),
            self.is_queued(self.next_dispatched()),
            self.live(self.next_dispatched()),
            !self.dispatch().is_queued(self.next_dispatched()),
    {
        let after = self.dispatch();
        let e = earliest(self.ready);
        lemma_earliest_in_bounds(self.ready);
        let pid = self.ready[e].pid;
        assert(self.live(pid));
        assert(after.tasks.dom() =~= self.tasks.dom());
        self.lemma_same_tree(after);
        assert forall|i: int| 0 <= i < after.ready.len() implies after.live(
            (#[trigger] after.ready[i]).pid,
        ) && after.tasks[after.ready[i].pid].status == TaskStatus::Ready
            && after.tasks[after.ready[i].pid].stride == after.ready[i].stride.0
            && after.ready[i].pid != pid by {
            if i < e {
                assert(after.ready[i] == self.ready[i]);
            } else {
                assert(after.ready[i] == self.ready[i + 1]);
            }
        }
        assert forall|i: int, j: int| 0 <= i < j < after.ready.len() implies (
        #[trigger] after.ready[i]).pid != (#[trigger] after.ready[j]).pid by {
            let i0 = if i < e { i } else { i + 1 };
            let j0 = if j < e { j } else { j + 1 };
            assert(after.ready[i] == self.ready[i0]);
            assert(after.ready[j] == self.ready[j0]);
        }
    }

    /// Taking the current task from the processor keeps the state
    /// well-formed.
    pub proof fn lemma_take_current(self)
        requires
            self.wf(),
        ensures
            self.take_current().wf(),
    {
        let after = self.take_current();
        self.lemma_same_tree(after);
    }

    /// A task that runs is not in the pool.
    pub proof fn lemma_running_not_queued(self, pid: usize)
        requires
            self.wf(),
            self.live(pid),
            self.tasks[pid].status != TaskStatus::Ready,
        ensures
            !self.is_queued(pid),
    {
    }

    /// The current task may give up the processor.
    pub proof fn lemma_suspend(self)
        requires
            self.wf(),
            self.current is Some,
        ensures
            self.suspend().wf(),
    {
        let after = self.suspend();
        let pid = self.current.unwrap();
        assert(self.live(pid));
        assert(after.tasks.dom() =~= self.tasks.dom());
        self.lemma_same_tree(after);
        self.lemma_running_not_queued(pid);
        let n = self.ready.len() as int;
        assert forall|i: int| 0 <= i < after.ready.len() implies after.live(
            (#[trigger] after.ready[i]).pid,
        ) && after.tasks[after.ready[i].pid].status == TaskStatus::Ready
            && after.tasks[after.ready[i].pid].stride == after.ready[i].stride.0 by {
            if i < n {
                assert(after.ready[i] == self.ready[i]);
            }
        }
        assert forall|i: int, j: int| 0 <= i < j < after.ready.len() implies (
        #[trigger] after.ready[i]).pid != (#[trigger] after.ready[j]).pid by {
            assert(after.ready[i] == self.ready[i]);
            if j < n {
                assert(after.ready[j] == self.ready[j]);
            }
        }
    }

    /// Other registers for a live task keep the state well-formed.
    pub proof fn lemma_trap_cx(self, pid: usize)
        requires
            self.wf(),
            self.live(pid),
        ensures
            forall|trap_cx: TrapView| (#[trigger] self.with_trap_cx(pid, trap_cx)).wf(),
    {
        assert forall|trap_cx: TrapView| (#[trigger] self.with_trap_cx(pid, trap_cx)).wf() by {
            let after = self.with_trap_cx(pid, trap_cx);
            assert(after.tasks.dom() =~= self.tasks.dom());
            self.lemma_same_tree(after);
            assert forall|i: int| 0 <= i < after.ready.len() implies after.live(
                (#[trigger] after.ready[i]).pid,
            ) && after.tasks[after.ready[i].pid].status == TaskStatus::Ready
                && after.tasks[after.ready[i].pid].stride == after.ready[i].stride.0 by {
                assert(self.live(self.ready[i].pid));
            }
        }
    }

    /// A priority in range for the current task keeps the state well-formed.
    pub proof fn lemma_set_priority(self, priority: usize)
        requires
            self.wf(),
            self.current is Some,
            priority_in_range(priority),
        ensures
            self.set_priority(priority).wf(),
    {
        let after = self.set_priority(priority);
        let pid = self.current.unwrap();
        assert(self.live(pid));
        assert(after.tasks.dom() =~= self.tasks.dom());
        self.lemma_same_tree(after);
        assert forall|i: int| 0 <= i < after.ready.len() implies after.live(
            (#[trigger] after.ready[i]).pid,
        ) && after.tasks[after.ready[i].pid].status == TaskStatus::Ready
            && after.tasks[after.ready[i].pid].stride == after.ready[i].stride.0 by {
            assert(self.live(self.ready[i].pid));
        }
    }

    /// The current task, unless it is the root task, may exit: the state
    /// stays well-formed.
    pub proof fn lemma_exit(self, code: i32)
        requires
            self.wf(),
            self.current is Some,
            self.current != Some(self.initproc),
        ensures
            self.exit(code).wf(),
    {
        let after = self.exit(code);
        let t = self.current.unwrap();
        let root = self.initproc;
        let kids = self.tasks[t].children;
        let old_root = self.tasks[root].children;
        assert(self.live(t));
        assert(self.live(root));
        assert(after.tasks.dom() =~= self.tasks.dom());
        assert forall|p: usize| #[trigger] after.live(p) <==> after.pids.in_use(p) by {
            assert(self.live(p) <==> self.pids.in_use(p));
        }
        // What is known of each child of the exiting task.
        assert forall|k: int| 0 <= k < kids.len() implies self.live(#[trigger] kids[k])
            && self.tasks[kids[k]].parent == Some(t) && kids[k] != t && kids[k] != root by {
            let c = self.tasks[t].children[k];
            assert(self.live(c));
        }
        assert forall|p: usize, i: int|
            #![trigger after.tasks[p].children[i]]
            after.live(p) && 0 <= i < after.tasks[p].children.len() implies after.live(
            after.tasks[p].children[i],
        ) && after.tasks[after.tasks[p].children[i]].parent == Some(p) by {
            assert(self.live(p));
            if p == t {
            } else if p == root {
                if i < old_root.len() {
                    let c = self.tasks[root].children[i];
                    assert(self.live(c));
                    assert(after.tasks[root].children[i] == c);
                } else {
                    let c = kids[i - old_root.len()];
                    assert(after.tasks[root].children[i] == c);
                    assert(kids.contains(c));
                }
            } else {
                let c = self.tasks[p].children[i];
                assert(self.live(c));
                if kids.contains(c) {
                    let k = choose|k: int| 0 <= k < kids.len() && kids[k] == c;
                    assert(self.tasks[kids[k]].parent == Some(t));
                }
            }
        }
        assert forall|p: usize| #[trigger] after.live(p) implies match after.tasks[p].parent {
            Some(q) => q != p && after.live(q) && after.tasks[q].children.contains(p),
            None => p == after.initproc,
        } by {
            assert(self.live(p));
            if p != root && p != t && kids.contains(p) {
                let k = choose|k: int| 0 <= k < kids.len() && kids[k] == p;
                assert(after.tasks[root].children[old_root.len() + k] == p);
            } else {
                match self.tasks[p].parent {
                    Some(q) => {
                        assert(self.live(q));
                        let i = choose|i: int|
                            0 <= i < self.tasks[q].children.len() && self.tasks[q].children[i]
                                == p;
                        if q == t {
                            assert(kids[i] == p);
                            assert(kids.contains(p));
                        } else if q == root {
                            assert(after.tasks[root].children[i] == p);
                        } else {
                            assert(after.tasks[q].children[i] == p);
                        }
                    },
                    None => {},
                }
            }
        }
        assert forall|p: usize| #[trigger] after.live(p) implies after.tasks[p].children.no_duplicates()
            && (after.tasks[p].status == TaskStatus::Zombie ==> after.tasks[p].children.len() == 0)
            && priority_in_range(after.tasks[p].priority) by {
            assert(self.live(p));
            if p == root && p != t {
                let joined = old_root + kids;
                assert forall|i: int, j: int|
                    0 <= i < joined.len() && 0 <= j < joined.len() && i != j implies joined[i]
                    != joined[j] by {
                    if i < old_root.len() && j < old_root.len() {
                    } else if i >= old_root.len() && j >= old_root.len() {
                    } else if i < old_root.len() {
                        let c = self.tasks[root].children[i];
                        assert(self.live(c));
                        assert(self.tasks[kids[j - old_root.len()]].parent == Some(t));
                    } else {
                        let c = self.tasks[root].children[j];
                        assert(self.live(c));
                        assert(self.tasks[kids[i - old_root.len()]].parent == Some(t));
                    }
                }
            }
        }
        assert(after.root_wf());
        assert forall|i: int| 0 <= i < after.ready.len() implies after.live(
            (#[trigger] after.ready[i]).pid,
        ) && after.tasks[after.ready[i].pid].status == TaskStatus::Ready
            && after.tasks[after.ready[i].pid].stride == after.ready[i].stride.0 by {
            assert(self.live(self.ready[i].pid));
        }
    }

    /// A task may reap a child that is a zombie: the state stays well-formed,
    /// and the child is no longer live.
    pub proof fn lemma_reap(self, parent: usize, idx: int)
        requires
            self.wf(),
            self.live(parent),
            0 <= idx < self.tasks[parent].children.len(),
            self.tasks[self.tasks[parent].children[idx]].status == TaskStatus::Zombie,
        ensures
            self.reap(parent, idx).wf(),
            self.live(self.tasks[parent].children[idx]),
            self.tasks[parent].children[idx] != parent,
            !self.reap(parent, idx).live(self.tasks[parent].children[idx]),
    {
        let after = self.reap(parent, idx);
        let siblings = self.tasks[parent].children;
        let child = self.tasks[parent].children[idx];
        let rest = siblings.remove(idx);
        siblings.remove_ensures(idx);
        assert(self.live(child));
        assert(child != parent);
        assert(self.pids.in_use(child));
        self.pids.lemma_dealloc(child);
        assert forall|p: usize| #[trigger] after.live(p) <==> after.pids.in_use(p) by {
            assert(self.live(p) <==> self.pids.in_use(p));
        }
        assert forall|k: int| 0 <= k < rest.len() implies #[trigger] rest[k] != child
            && siblings.contains(rest[k]) by {
            if k < idx {
                assert(rest[k] == siblings[k]);
            } else {
                assert(rest[k] == siblings[k + 1]);
            }
        }
        assert forall|p: usize, i: int|
            #![trigger after.tasks[p].children[i]]
            after.live(p) && 0 <= i < after.tasks[p].children.len() implies after.live(
            after.tasks[p].children[i],
        ) && after.tasks[after.tasks[p].children[i]].parent == Some(p) by {
            assert(self.live(p));
            if p == parent {
                let c = rest[i];
                let i0 = if i < idx { i } else { i + 1 };
                assert(c == self.tasks[parent].children[i0]);
                assert(self.live(c));
            } else {
                let c = self.tasks[p].children[i];
                assert(self.live(c));
            }
        }
        assert forall|p: usize| #[trigger] after.live(p) implies match after.tasks[p].parent {
            Some(q) => q != p && after.live(q) && after.tasks[q].children.contains(p),
            None => p == after.initproc,
        } by {
            assert(self.live(p));
            match self.tasks[p].parent {
                Some(q) => {
                    assert(self.live(q));
                    let i = choose|i: int|
                        0 <= i < self.tasks[q].children.len() && self.tasks[q].children[i] == p;
                    if q == parent {
                        let i1 = if i < idx { i } else { i - 1 };
                        assert(rest[i1] == p);
                    } else {
                        assert(q != child);
                        assert(after.tasks[q].children[i] == p);
                    }
                },
                None => {},
            }
        }
        assert forall|p: usize| #[trigger] after.live(p) implies after.tasks[p].children.no_duplicates()
            && (after.tasks[p].status == TaskStatus::Zombie ==> after.tasks[p].children.len() == 0)
            && priority_in_range(after.tasks[p].priority) by {
            assert(self.live(p));
            if p == parent {
                assert forall|i: int, j: int|
                    0 <= i < rest.len() && 0 <= j < rest.len() && i != j implies rest[i]
                    != rest[j] by {
                    let i0 = if i < idx { i } else { i + 1 };
                    let j0 = if j < idx { j } else { j + 1 };
                    assert(rest[i] == siblings[i0]);
                    assert(rest[j] == siblings[j0]);
                }
            }
        }
        assert(after.root_wf()) by {
            assert(self.live(self.initproc));
        }
        assert forall|i: int| 0 <= i < after.ready.len() implies after.live(
            (#[trigger] after.ready[i]).pid,
        ) && after.tasks[after.ready[i].pid].status == TaskStatus::Ready
            && after.tasks[after.ready[i].pid].stride == after.ready[i].stride.0 by {
            assert(self.live(self.ready[i].pid));
        }
    }
}

} // verus!
