//! The task control block: what the kernel knows of one process.
use vstd::prelude::*;
use crate::loader::AppImage;
use crate::mm::AddressSpace;
use crate::task::context::{TrapContext, TrapView};
use crate::task::priority::TaskPriority;
use crate::task::stride::Stride;

verus! {

/// Where a task stands in its life. A task is created `Ready`; it goes back
/// and forth between `Ready` and `Running` while it lives, and ends as a
/// `Zombie`, which it stays until its parent reaps it.
#[derive(Clone, Copy, Debug, PartialEq, Eq, Structural)]
pub enum TaskStatus {
    Ready,
    Running,
    Zombie,
}

/// The kernel stack of a task. There is one for each process id, found by
/// that id.
#[derive(Clone, Copy, Debug, PartialEq, Eq, Structural)]
pub struct KernelStack {
    pub pid: usize,
}

/// What a `TaskControlBlock` stands for, apart from its process id.
pub struct TaskView {
    pub status: TaskStatus,
    pub trap_cx: TrapView,
    pub memory_set: AddressSpace,
    /// The process id of the parent; nothing for the root task.
    pub parent: Option<usize>,
    /// The process ids of the children, the one that joined last at the end.
    pub children: Seq<usize>,
    pub exit_code: i32,
    pub priority: usize,
    pub stride: u64,
}

/// The part of a task control block that changes while the task lives.
pub struct TaskControlBlockInner {
    pub task_status: TaskStatus,
    pub trap_cx: TrapContext,
    pub memory_set: AddressSpace,
    pub parent: Option<usize>,
    pub children: Vec<usize>,
    pub exit_code: i32,
    pub priority: TaskPriority,
    pub stride: Stride,
}

impl View for TaskControlBlockInner {
    type V = TaskView;

    open spec fn view(&self) -> TaskView {
        TaskView {
            status: self.task_status,
            trap_cx: self.trap_cx@,
            memory_set: self.memory_set,
            parent: self.parent,
            children: self.children@,
            exit_code: self.exit_code,
            priority: self.priority.level(),
            stride: self.stride.0,
        }
    }
}

impl TaskControlBlockInner {
    /// Replaces the program of the task by `image`: the task runs in the
    /// image's address space and starts at its entry point. Its place in the
    /// process tree and its scheduling state stay.
    pub fn exec(&mut self, image: AppImage)
        ensures
            final(self)@ == (TaskView {
                memory_set: image.space,
                trap_cx: TrapView::app_init(image.entry_point, image.user_sp),
                ..old(self)@
            }),
    {
        self.memory_set = image.space;
        self.trap_cx = TrapContext::app_init_context(image.entry_point, image.user_sp);
    }

    /// The token of the task's address space.
    pub fn get_user_token(&self) -> (token: usize)
        ensures
            token == self.memory_set.token,
    {
        self.memory_set.token()
    }

    /// The status of the task.
    pub fn get_status(&self) -> (status: TaskStatus)
        ensures
            status == self.task_status,
    {
        self.task_status
    }

    /// Whether the task has exited and waits to be reaped.
    pub fn is_zombie(&self) -> (b: bool)
        ensures
            b == (self.task_status == TaskStatus::Zombie),
    {
        self.task_status == TaskStatus::Zombie
    }
}

/// The descriptor of one process: its identity, which never changes, and the
/// record of its state.
pub struct TaskControlBlock {
    pub pid: usize,
    pub kernel_stack: KernelStack,
    pub inner: TaskControlBlockInner,
}

impl View for TaskControlBlock {
    type V = TaskView;

    open spec fn view(&self) -> TaskView {
        self.inner@
    }
}

impl TaskView {
    /// A task that was just made from a program image, as a child of
    /// `parent`: ready, without children, with the default priority and a
    /// stride of zero.
    pub open spec fn fresh(image: AppImage, parent: Option<usize>) -> TaskView {
        TaskView {
            status: TaskStatus::Ready,
            trap_cx: TrapView::app_init(image.entry_point, image.user_sp),
            memory_set: image.space,
            parent,
            children: Seq::empty(),
            exit_code: 0,
            priority: crate::config::DEFAULT_PRIORITY,
            stride: 0,
        }
    }
}

impl TaskControlBlock {
    /// The descriptor of a new task with process id `pid`, made from a
    /// program image, as a child of `parent`.
    pub fn new(pid: usize, image: AppImage, parent: Option<usize>) -> (tcb: TaskControlBlock)
        ensures
            tcb.pid == pid,
            tcb.kernel_stack.pid == pid,
            tcb@ == TaskView::fresh(image, parent),
    {
        TaskControlBlock {
            pid,
            kernel_stack: KernelStack { pid },
            inner: TaskControlBlockInner {
                task_status: TaskStatus::Ready,
                trap_cx: TrapContext::app_init_context(image.entry_point, image.user_sp),
                memory_set: image.space,
                parent,
                children: Vec::new(),
                exit_code: 0,
                priority: TaskPriority::default_priority(),
                stride: Stride::zero(),
            },
        }
    }

    /// The descriptor of the child that the task gets when it forks: a task
    /// with process id `pid` that runs in the address space `space`, with the
    /// registers of its parent but zero in the return register.
    pub fn fork(&self, pid: usize, space: AddressSpace) -> (child: TaskControlBlock)
        ensures
            child.pid == pid,
            child.kernel_stack.pid == pid,
            child@ == (TaskView {
                status: TaskStatus::Ready,
                trap_cx: self@.trap_cx.with_return_value(0),
                memory_set: space,
                parent: Some(self.pid),
                children: Seq::empty(),
                exit_code: 0,
                priority: crate::config::DEFAULT_PRIORITY,
                stride: 0,
            }),
    {
        let mut trap_cx = self.inner.trap_cx;
        trap_cx.set_return_value(0);
        TaskControlBlock {
            pid,
            kernel_stack: KernelStack { pid },
            inner: TaskControlBlockInner {
                task_status: TaskStatus::Ready,
                trap_cx,
                memory_set: space,
                parent: Some(self.pid),
                children: Vec::new(),
                exit_code: 0,
                priority: TaskPriority::default_priority(),
                stride: Stride::zero(),
            },
        }
    }

    /// The process id of the task.
    pub fn getpid(&self) -> (pid: usize)
        ensures
            pid == self.pid,
    {
        self.pid
    }
}

} // verus!
