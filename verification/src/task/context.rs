//! Saved execution state: the handles between which the processor switches,
//! and the registers with which a task returns to user mode.
use vstd::prelude::*;

verus! {

/// A place where an execution is saved and from where it can be resumed.
///
/// The registers themselves are saved and restored by the switch primitive of
/// the surrounding kernel; the task core only says between which two places
/// to switch.
#[derive(Clone, Copy, Debug, PartialEq, Eq, Structural)]
pub enum TaskContext {
    /// The processor's own dispatch loop.
    Idle,
    /// The task with this process id.
    Task(usize),
    /// Nowhere: what is saved here is never resumed.
    Throwaway,
}

/// A switch that the surrounding kernel has to perform: save the running
/// execution to `from`, and resume the one saved at `to`.
#[derive(Clone, Copy, Debug, PartialEq, Eq, Structural)]
pub struct ContextSwitch {
    pub from: TaskContext,
    pub to: TaskContext,
}

/// The index of the register in which a system call returns its value.
pub const RETURN_REGISTER: usize = 10;

/// The index of the stack pointer register.
pub const STACK_REGISTER: usize = 2;

/// What a `TrapContext` stands for: the 32 general registers and the address
/// at which user code goes on.
pub struct TrapView {
    pub x: Seq<usize>,
    pub sepc: usize,
}

impl TrapView {
    /// The registers of a program that is about to start at `entry` with its
    /// stack at `sp`: all zero but the stack pointer.
    pub open spec fn app_init(entry: usize, sp: usize) -> TrapView {
        TrapView { x: Seq::new(32, |i: int| 0usize).update(STACK_REGISTER as int, sp), sepc: entry }
    }

    /// These registers with `value` in the return register.
    pub open spec fn with_return_value(self, value: usize) -> TrapView {
        TrapView { x: self.x.update(RETURN_REGISTER as int, value), sepc: self.sepc }
    }
}

/// The registers of a task as they were when it last entered the kernel.
#[derive(Clone, Copy, Debug)]
pub struct TrapContext {
    /// The general registers.
    pub x: [usize; 32],
    /// The address at which user code goes on.
    pub sepc: usize,
}

impl View for TrapContext {
    type V = TrapView;

    open spec fn view(&self) -> TrapView {
        TrapView { x: self.x@, sepc: self.sepc }
    }
}

impl TrapContext {
    /// The registers of a program that is about to start at `entry` with its
    /// stack at `sp`.
    pub fn app_init_context(entry: usize, sp: usize) -> (cx: TrapContext)
        ensures
            cx@ == TrapView::app_init(entry, sp),
    {
        let mut cx = TrapContext { x: [0usize; 32], sepc: entry };
        cx.x[STACK_REGISTER] = sp;
        assert(cx.x@ =~= TrapView::app_init(entry, sp).x);
        cx
    }

    /// Puts `value` in the return register.
    pub fn set_return_value(&mut self, value: usize)
        ensures
            final(self)@ == old(self)@.with_return_value(value),
    {
        self.x[RETURN_REGISTER] = value;
    }
}

} // verus!
