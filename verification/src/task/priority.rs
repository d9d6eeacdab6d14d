//! A task's priority and the pass that follows from it.
use vstd::prelude::*;
use crate::config::{BIG_STRIDE, DEFAULT_PRIORITY, MAX_PRIORITY, MIN_PRIORITY};
use crate::task::stride::HALF_RANGE;

verus! {

/// Whether `value` may be a task's priority.
pub open spec fn priority_in_range(value: usize) -> bool {
    MIN_PRIORITY <= value <= MAX_PRIORITY
}

/// The pass of a task with priority `value`: how far its stride moves with
/// each dispatch.
pub open spec fn pass_of(value: usize) -> u64 {
    (BIG_STRIDE / (value as u64)) as u64
}

/// A priority that is known to be in range, together with its pass.
///
/// The two fields are private and always agree: a value of this type can only
/// be made from a priority in range, and its pass is computed then.
#[derive(Clone, Copy, Debug)]
pub struct TaskPriority {
    value: usize,
    pass: u64,
}

impl TaskPriority {
    #[verifier::type_invariant]
    spec fn agrees(self) -> bool {
        priority_in_range(self.value) && self.pass == pass_of(self.value)
    }

    /// The priority as a number.
    pub closed spec fn level(self) -> usize {
        self.value
    }

    /// The priority `value`, or nothing where `value` is out of range.
    pub fn new(value: usize) -> (p: Option<TaskPriority>)
        ensures
            p is Some <==> priority_in_range(value),
            p is Some ==> p.unwrap().level() == value,
    {
        if value >= MIN_PRIORITY && value <= MAX_PRIORITY {
            Some(TaskPriority { value, pass: BIG_STRIDE / (value as u64) })
        } else {
            None
        }
    }

    /// The priority of a task that never asked for another.
    pub fn default_priority() -> (p: TaskPriority)
        ensures
            p.level() == DEFAULT_PRIORITY,
    {
        TaskPriority { value: DEFAULT_PRIORITY, pass: BIG_STRIDE / (DEFAULT_PRIORITY as u64) }
    }

    /// The priority as a number; it is always in range.
    pub fn get(&self) -> (value: usize)
        ensures
            value == self.level(),
            priority_in_range(value),
    {
        proof {
            use_type_invariant(self);
        }
        self.value
    }

    /// The pass that belongs to this priority.
    pub fn pass(&self) -> (pass: u64)
        ensures
            pass == pass_of(self.level()),
    {
        proof {
            use_type_invariant(self);
        }
        self.pass
    }
}

/// The pass of a priority in range is positive and below half of the stride
/// counter's range.
pub proof fn lemma_pass_bounds(value: usize)
    requires
        priority_in_range(value),
    ensures
        0 < pass_of(value) < HALF_RANGE,
{
    let v: u64 = value as u64;
    assert(0 < BIG_STRIDE / v < HALF_RANGE) by (nonlinear_arith)
        requires
            2 <= v <= 0x7fff_ffff_ffff_ffff,
            BIG_STRIDE == 0xffff_ffff_ffff_ffff,
            HALF_RANGE == 0x8000_0000_0000_0000,
    ;
}

/// A higher priority never has a larger pass.
pub proof fn lemma_pass_monotone(low: usize, high: usize)
    requires
        priority_in_range(low),
        priority_in_range(high),
        low <= high,
    ensures
        pass_of(high) <= pass_of(low),
{
    let l: u64 = low as u64;
    let h: u64 = high as u64;
    assert(BIG_STRIDE / h <= BIG_STRIDE / l) by (nonlinear_arith)
        requires
            2 <= l <= h,
            BIG_STRIDE == 0xffff_ffff_ffff_ffff,
    ;
}

} // verus!
