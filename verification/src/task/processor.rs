//! The processor: the one agent that runs tasks.
//!
//! The processor is either idle, looking for a task to run, or it runs its
//! current task. It moves from idle to a task by one dispatch step, and from
//! a task back to idle by `schedule`. Both yield a context switch for the
//! surrounding kernel to perform.
use vstd::prelude::*;
use crate::task::context::{ContextSwitch, TaskContext, TrapContext};
use crate::task::kernel::Kernel;
use crate::task::manager::{earliest, lemma_earliest_in_bounds, TaskManager};
use crate::task::priority::TaskPriority;
use crate::task::table::TaskTable;
use crate::task::task::{TaskStatus, TaskView};

verus! {

/// The task table after `pid` was marked as running.
pub open spec fn mark_running(tasks: Map<usize, TaskView>, pid: usize) -> Map<usize, TaskView> {
    tasks.insert(pid, TaskView { status: TaskStatus::Running, ..tasks[pid] })
}

/// The task table after the priority of `pid` was set to `priority`.
pub open spec fn with_priority(tasks: Map<usize, TaskView>, pid: usize, priority: usize) -> Map<
    usize,
    TaskView,
> {
    tasks.insert(pid, TaskView { priority, ..tasks[pid] })
}

/// The single processor. It knows which task it runs, if any.
pub struct Processor {
    current: Option<usize>,
}

impl View for Processor {
    type V = Option<usize>;

    closed spec fn view(&self) -> Option<usize> {
        self.current
    }
}

impl Processor {
    /// An idle processor.
    pub fn new() -> (processor: Processor)
        ensures
            processor@ is None,
    {
        Processor { current: None }
    }

    /// One step of the dispatch loop. Where the pool holds a task, the one
    /// with the earliest stride leaves the pool, is marked as running and
    /// becomes the current task; the result is the switch from the dispatch
    /// loop into that task. Where the pool is empty nothing changes and
    /// there is nothing to switch to: the processor stays idle.
    pub fn run(&mut self, manager: &mut TaskManager, tasks: &mut TaskTable) -> (switch: Option<
        ContextSwitch,
    >)
        requires
            old(tasks).wf(),
            forall|i: int|
                0 <= i < old(manager)@.len() ==> old(tasks)@.dom().contains(
                    #[trigger] old(manager)@[i].pid,
                ),
        ensures
            final(tasks).wf(),
            old(manager)@.len() == 0 ==> {
                &&& switch is None
                &&& final(self)@ == old(self)@
                &&& final(manager)@ == old(manager)@
                &&& final(tasks)@ == old(tasks)@
            },
            old(manager)@.len() > 0 ==> {
                let chosen = earliest(old(manager)@);
                let pid = old(manager)@[chosen].pid;
                &&& switch == Some(
                    ContextSwitch { from: TaskContext::Idle, to: TaskContext::Task(pid) },
                )
                &&& final(self)@ == Some(pid)
                &&& final(manager)@ == old(manager)@.remove(chosen)
                &&& final(tasks)@ == mark_running(old(tasks)@, pid)
            },
    {
        proof {
            if manager@.len() > 0 {
                lemma_earliest_in_bounds(manager@);
            }
        }
        match manager.fetch() {
            Some(pid) => {
                let inner = tasks.inner_mut(pid);
                inner.task_status = TaskStatus::Running;
                self.current = Some(pid);
                Some(ContextSwitch { from: TaskContext::Idle, to: TaskContext::Task(pid) })
            },
            None => None,
        }
    }

    /// Takes the current task away from the processor and returns its
    /// process id. A second call in a row returns nothing.
    pub fn take_current(&mut self) -> (pid: Option<usize>)
        ensures
            pid == old(self)@,
            final(self)@ is None,
    {
        self.current.take()
    }

    /// The process id of the current task. The processor keeps the task.
    pub fn current(&self) -> (pid: Option<usize>)
        ensures
            pid == self@,
    {
        self.current
    }

    /// Sets the priority of the current task. Its pass changes with it; its
    /// stride stays where it is.
    pub fn set_priority(&self, tasks: &mut TaskTable, prio: TaskPriority)
        requires
            old(tasks).wf(),
            self@ is Some,
            old(tasks)@.dom().contains(self@.unwrap()),
        ensures
            final(tasks).wf(),
            final(tasks)@ == with_priority(old(tasks)@, self@.unwrap(), prio.level()),
    {
        match self.current {
            Some(pid) => {
                let inner = tasks.inner_mut(pid);
                inner.priority = prio;
            },
            None => {},
        }
    }
}

/// One step of the dispatch loop on the task core. Where the ready pool holds
/// a task, the one with the earliest stride is dispatched, and the result is
/// the switch into it; where the pool is empty nothing changes and there is
/// nothing to switch to. The surrounding kernel performs the switch, and calls
/// this again once the task has given up the processor.
pub fn run_tasks(kernel: &mut Kernel) -> (switch: Option<ContextSwitch>)
    requires
        old(kernel).wf(),
    ensures
        final(kernel).wf(),
        old(kernel)@.ready.len() == 0 ==> switch is None && final(kernel)@ == old(kernel)@,
        old(kernel)@.ready.len() > 0 ==> {
            &&& switch == Some(
                ContextSwitch {
                    from: TaskContext::Idle,
                    to: TaskContext::Task(old(kernel)@.next_dispatched()),
                },
            )
            &&& final(kernel)@ == old(kernel)@.dispatch()
        },
{
    proof {
        if kernel@.ready.len() > 0 {
            kernel@.lemma_dispatch();
        }
        assert forall|i: int| 0 <= i < kernel@.ready.len() implies kernel@.tasks.dom().contains(
            #[trigger] kernel@.ready[i].pid,
        ) by {
            assert(kernel@.live(kernel@.ready[i].pid));
        }
    }
    kernel.processor.run(&mut kernel.manager, &mut kernel.tasks)
}

/// Takes the current task away from the processor and returns its process
/// id, or nothing where the processor is idle.
pub fn take_current_task(kernel: &mut Kernel) -> (pid: Option<usize>)
    requires
        old(kernel).wf(),
    ensures
        final(kernel).wf(),
        pid == old(kernel)@.current,
        final(kernel)@ == old(kernel)@.take_current(),
{
    proof {
        kernel@.lemma_take_current();
    }
    kernel.processor.take_current()
}

/// The process id of the current task, or nothing where the processor is
/// idle. The processor keeps the task.
pub fn current_task(kernel: &Kernel) -> (pid: Option<usize>)
    ensures
        pid == kernel@.current,
{
    kernel.processor.current()
}

/// The token of the address space of the current task.
pub fn current_user_token(kernel: &Kernel) -> (token: usize)
    requires
        kernel.wf(),
        kernel@.current is Some,
    ensures
        token == kernel@.tasks[kernel@.current.unwrap()].memory_set.token,
{
    match kernel.processor.current() {
        Some(pid) => {
            assert(kernel@.live(pid));
            kernel.tasks.get(pid).inner.get_user_token()
        },
        None => 0,
    }
}

/// Sets the priority of the current task. Its pass follows at once; its
/// stride, and so its place among the tasks, changes only from its next
/// dispatch on.
pub fn set_priority(kernel: &mut Kernel, prio: TaskPriority)
    requires
        old(kernel).wf(),
        old(kernel)@.current is Some,
    ensures
        final(kernel).wf(),
        final(kernel)@ == old(kernel)@.set_priority(prio.level()),
{
    let level: usize = prio.get();
    proof {
        assert(kernel@.live(kernel@.current.unwrap()));
        kernel@.lemma_set_priority(level);
    }
    kernel.processor.set_priority(&mut kernel.tasks, prio);
}

/// The registers of the current task, to read and to change. What the caller
/// leaves there the task finds when it next returns to user mode; nothing
/// else of the task core changes.
pub fn current_trap_cx(kernel: &mut Kernel) -> (cx: &mut TrapContext)
    requires
        old(kernel).wf(),
        old(kernel)@.current is Some,
    ensures
        cx@ == old(kernel)@.tasks[old(kernel)@.current.unwrap()].trap_cx,
        final(kernel).wf(),
        final(kernel)@ == old(kernel)@.with_trap_cx(old(kernel)@.current.unwrap(), final(cx)@),
{
    let pid: usize = match kernel.processor.current() {
        Some(pid) => pid,
        None => 0,
    };
    proof {
        assert(kernel@.live(pid));
        kernel@.lemma_trap_cx(pid);
    }
    let inner = kernel.tasks.inner_mut(pid);
    &mut inner.trap_cx
}

/// The switch by which the running execution gives the processor back to
/// the dispatch loop. The execution is saved at `switched_task_cx`, from
/// where it can be resumed later; an execution that ends for good passes
/// `TaskContext::Throwaway`.
pub fn schedule(switched_task_cx: TaskContext) -> (switch: ContextSwitch)
    ensures
        switch == (ContextSwitch { from: switched_task_cx, to: TaskContext::Idle }),
{
    ContextSwitch { from: switched_task_cx, to: TaskContext::Idle }
}

} // verus!
