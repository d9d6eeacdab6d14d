//! The state of the task core as a whole, and what always holds of it.
use vstd::prelude::*;
use crate::config::{FIRST_PID, MAX_PID};
use crate::loader::AppImage;
use crate::mm::AddressSpace;
use crate::task::manager::{ReadyTask, TaskManager};
use crate::task::pid::{PidAllocator, PidView};
use crate::task::priority::priority_in_range;
use crate::task::processor::Processor;
use crate::task::table::TaskTable;
use crate::task::task::{TaskControlBlock, TaskStatus, TaskView};

verus! {

/// What a `Kernel` stands for.
pub struct KernelView {
    /// The live tasks, by process id.
    pub tasks: Map<usize, TaskView>,
    /// The ready pool, in the order in which the tasks joined.
    pub ready: Seq<ReadyTask>,
    /// The task that the processor runs, if any.
    pub current: Option<usize>,
    /// The process id of the root task.
    pub initproc: usize,
    /// The process ids handed out and given back.
    pub pids: PidView,
}

impl KernelView {
    /// Whether there is a task with process id `pid`.
    pub open spec fn live(self, pid: usize) -> bool {
        self.tasks.dom().contains(pid)
    }

    /// The live tasks are those whose process id is in use.
    pub open spec fn ids_wf(self) -> bool {
        &&& self.pids.wf()
        &&& forall|pid: usize| #[trigger] self.live(pid) <==> self.pids.in_use(pid)
    }

    /// Every child of a live task is live and names that task as its parent.
    pub open spec fn children_wf(self) -> bool {
        forall|pid: usize, i: int|
            #![trigger self.tasks[pid].children[i]]
            self.live(pid) && 0 <= i < self.tasks[pid].children.len() ==> {
                &&& self.live(self.tasks[pid].children[i])
                &&& self.tasks[self.tasks[pid].children[i]].parent == Some(pid)
            }
    }

    /// The parent of every live task but the root is another live task, which
    /// has it among its children. The root has no parent.
    pub open spec fn parents_wf(self) -> bool {
        forall|pid: usize| #[trigger]
            self.live(pid) ==> match self.tasks[pid].parent {
                Some(parent) => {
                    &&& parent != pid
                    &&& self.live(parent)
                    &&& self.tasks[parent].children.contains(pid)
                },
                None => pid == self.initproc,
            }
    }

    /// No task has a child twice, a zombie has no children, and every
    /// priority is in range.
    pub open spec fn tasks_wf(self) -> bool {
        forall|pid: usize| #[trigger]
            self.live(pid) ==> {
                &&& self.tasks[pid].children.no_duplicates()
                &&& (self.tasks[pid].status == TaskStatus::Zombie
                    ==> self.tasks[pid].children.len() == 0)
                &&& priority_in_range(self.tasks[pid].priority)
            }
    }

    /// The root task is live, has no parent and has not exited.
    pub open spec fn root_wf(self) -> bool {
        &&& self.live(self.initproc)
        &&& self.tasks[self.initproc].parent is None
        &&& self.tasks[self.initproc].status != TaskStatus::Zombie
    }

    /// Every task in the ready pool is live and ready and waits at its own
    /// stride, and no task is in the pool twice.
    pub open spec fn ready_wf(self) -> bool {
        &&& forall|i: int|
            0 <= i < self.ready.len() ==> {
                &&& self.live((#[trigger] self.ready[i]).pid)
                &&& self.tasks[self.ready[i].pid].status == TaskStatus::Ready
                &&& self.tasks[self.ready[i].pid].stride == self.ready[i].stride.0
            }
        &&& forall|i: int, j: int|
            0 <= i < j < self.ready.len() ==> (#[trigger] self.ready[i]).pid != (
            #[trigger] self.ready[j]).pid
    }

    /// The current task, if there is one, is live and running.
    pub open spec fn current_wf(self) -> bool {
        self.current matches Some(pid) ==> self.live(pid) && self.tasks[pid].status
            == TaskStatus::Running
    }

    /// What holds of the task core between any two operations.
    pub open spec fn wf(self) -> bool {
        &&& self.ids_wf()
        &&& self.children_wf()
        &&& self.parents_wf()
        &&& self.tasks_wf()
        &&& self.root_wf()
        &&& self.ready_wf()
        &&& self.current_wf()
    }

    /// The state at boot: the root task, made from `image`, is the only task
    /// and has the first process id; the pool is empty and the processor
    /// idle. The process ids up to `max_pid` can be handed out.
    pub open spec fn boot(image: AppImage, max_pid: usize) -> KernelView {
        KernelView {
            tasks: Map::<usize, TaskView>::empty().insert(FIRST_PID, TaskView::fresh(image, None)),
            ready: Seq::empty(),
            current: None,
            initproc: FIRST_PID,
            pids: PidView {
                next: (FIRST_PID + 1) as usize,
                recycled: Seq::empty(),
                limit: max_pid,
            },
        }
    }

    /// Whether `pid` waits in the ready pool.
    pub open spec fn is_queued(self, pid: usize) -> bool {
        exists|i: int| 0 <= i < self.ready.len() && (#[trigger] self.ready[i]).pid == pid
    }
}

/// The task core: the process table, the process ids, the ready pool, the
/// processor and the root task.
pub struct Kernel {
    pub(crate) tasks: TaskTable,
    pub(crate) pids: PidAllocator,
    pub(crate) manager: TaskManager,
    pub(crate) processor: Processor,
    pub(crate) initproc: usize,
}

impl View for Kernel {
    type V = KernelView;

    open(crate) spec fn view(&self) -> KernelView {
        KernelView {
            tasks: self.tasks@,
            ready: self.manager@,
            current: self.processor@,
            initproc: self.initproc,
            pids: self.pids@,
        }
    }
}

impl Kernel {
    /// The invariant of the task core: the process table is in order, and
    /// what the core stands for is well-formed.
    pub open(crate) spec fn wf(&self) -> bool {
        self.tasks.wf() && self@.wf()
    }

    /// What is well-formed as a kernel is well-formed as a view.
    pub proof fn lemma_view_wf(&self)
        requires
            self.wf(),
        ensures
            self@.wf(),
    {
    }

    /// A task core whose only task is the root task, made from `image`. The
    /// root task gets the first process id. It is ready but not yet in the
    /// ready pool, and the processor is idle. Every process id up to
    /// `MAX_PID` may be handed out.
    pub fn new(image: AppImage) -> (kernel: Kernel)
        ensures
            kernel.wf(),
            kernel@ == KernelView::boot(image, MAX_PID),
    {
        Kernel::with_pid_limit(image, MAX_PID)
    }

    /// As `new`, but only the process ids up to `max_pid` are handed out.
    pub fn with_pid_limit(image: AppImage, max_pid: usize) -> (kernel: Kernel)
        requires
            FIRST_PID <= max_pid <= MAX_PID,
        ensures
            kernel.wf(),
            kernel@ == KernelView::boot(image, max_pid),
    {
        let mut pids = PidAllocator::with_limit(max_pid);
        let mut tasks = TaskTable::new();
        let ghost before = pids@;
        proof {
            before.lemma_alloc();
        }
        let pid: usize = match pids.pid_alloc() {
            Some(pid) => pid,
            None => FIRST_PID,
        };
        tasks.insert(TaskControlBlock::new(pid, image, None));
        let kernel = Kernel {
            tasks,
            pids,
            manager: TaskManager::new(),
            processor: Processor::new(),
            initproc: pid,
        };
        proof {
            let v = kernel@;
            assert(v.pids.recycled =~= Seq::empty());
            assert(v == KernelView::boot(image, max_pid));
            assert forall|p: usize| #[trigger] v.live(p) <==> v.pids.in_use(p) by {}
            assert(v.tasks[pid].children.len() == 0);
        }
        kernel
    }

    /// The process id of the root task.
    pub fn initproc(&self) -> (pid: usize)
        ensures
            pid == self@.initproc,
    {
        self.initproc
    }

    /// The task control block of `pid`, or nothing where no such task lives.
    pub fn get_task(&self, pid: usize) -> (tcb: Option<&TaskControlBlock>)
        requires
            self.wf(),
        ensures
            tcb is Some <==> self@.live(pid),
            tcb is Some ==> tcb.unwrap().pid == pid && tcb.unwrap()@ == self@.tasks[pid],
    {
        if self.tasks.contains(pid) {
            Some(self.tasks.get(pid))
        } else {
            None
        }
    }

    /// The number of tasks in the ready pool.
    pub fn ready_len(&self) -> (n: usize)
        ensures
            n == self@.ready.len(),
    {
        self.manager.len()
    }

    /// Whether `pid` waits in the ready pool.
    pub fn is_queued(&self, pid: usize) -> (b: bool)
        ensures
            b == self@.is_queued(pid),
    {
        let n: usize = self.manager.len();
        let mut i: usize = 0;
        while i < n
            invariant
                n == self@.ready.len(),
                0 <= i <= n,
                forall|j: int| 0 <= j < i ==> (#[trigger] self@.ready[j]).pid != pid,
            decreases n - i,
        {
            if self.manager.get(i).pid == pid {
                return true;
            }
            i = i + 1;
        }
        false
    }

    /// Task `parent` forks into the address space `space`, a copy of its own
    /// that the memory subsystem made. The child gets the next process id
    /// and joins the children of `parent`; it is ready, but not yet in the
    /// ready pool. Returns the child's process id, which no live task had;
    /// or nothing, with the state unchanged, where no process id is left.
    pub fn fork(&mut self, parent: usize, space: AddressSpace) -> (child: Option<usize>)
        requires
            old(self).wf(),
            old(self)@.live(parent),
            old(self)@.tasks[parent].status != TaskStatus::Zombie,
        ensures
            final(self).wf(),
            child is Some <==> old(self)@.pids.can_alloc(),
            child is None ==> final(self)@ == old(self)@,
            child is Some ==> {
                &&& child.unwrap() == old(self)@.pids.next_alloc()
                &&& !old(self)@.live(child.unwrap())
                &&& child.unwrap() != parent
                &&& final(self)@ == old(self)@.fork(parent, space)
            },
    {
        let ghost before = self@;
        match self.pids.pid_alloc() {
            Some(pid) => {
                proof {
                    before.pids.lemma_alloc();
                    before.lemma_adopt(parent, before.forked_child(parent, space));
                }
                let tcb = self.tasks.get(parent).fork(pid, space);
                self.tasks.insert(tcb);
                let inner = self.tasks.inner_mut(parent);
                inner.children.push(pid);
                proof {
                    assert(self@.tasks =~= before.fork(parent, space).tasks);
                }
                Some(pid)
            },
            None => None,
        }
    }

    /// Task `parent` spawns a task from the program `image`. The new task
    /// gets the next process id and joins the children of `parent`; it is
    /// ready, but not yet in the ready pool. Returns its process id, which no
    /// live task had; or nothing, with the state unchanged, where no process
    /// id is left.
    pub fn spawn(&mut self, parent: usize, image: AppImage) -> (child: Option<usize>)
        requires
            old(self).wf(),
            old(self)@.live(parent),
            old(self)@.tasks[parent].status != TaskStatus::Zombie,
        ensures
            final(self).wf(),
            child is Some <==> old(self)@.pids.can_alloc(),
            child is None ==> final(self)@ == old(self)@,
            child is Some ==> {
                &&& child.unwrap() == old(self)@.pids.next_alloc()
                &&& !old(self)@.live(child.unwrap())
                &&& child.unwrap() != parent
                &&& final(self)@ == old(self)@.spawn(parent, image)
            },
    {
        let ghost before = self@;
        match self.pids.pid_alloc() {
            Some(pid) => {
                proof {
                    before.pids.lemma_alloc();
                    before.lemma_adopt(parent, TaskView::fresh(image, Some(parent)));
                }
                self.tasks.insert(TaskControlBlock::new(pid, image, Some(parent)));
                let inner = self.tasks.inner_mut(parent);
                inner.children.push(pid);
                proof {
                    assert(self@.tasks =~= before.spawn(parent, image).tasks);
                }
                Some(pid)
            },
            None => None,
        }
    }

    /// Task `pid` replaces its program by `image`. Its process id, its parent
    /// and its children stay; no task is made.
    pub fn exec(&mut self, pid: usize, image: AppImage)
        requires
            old(self).wf(),
            old(self)@.live(pid),
        ensures
            final(self).wf(),
            final(self)@ == old(self)@.exec(pid, image),
    {
        proof {
            self@.lemma_exec(pid, image);
        }
        let inner = self.tasks.inner_mut(pid);
        inner.exec(image);
    }
}

} // verus!
