//! Constants that configure the scheduler and the process table.
use vstd::prelude::*;

verus! {

/// The span of the stride counter. A task's pass is this span divided by its
/// priority, so with priorities of at least `MIN_PRIORITY` no pass exceeds
/// half of the counter's range, and with priorities of at most `MAX_PRIORITY`
/// no pass is zero.
pub const BIG_STRIDE: u64 = 0xffff_ffff_ffff_ffff;

/// The smallest priority a task may have.
pub const MIN_PRIORITY: usize = 2;

/// The largest priority a task may have.
pub const MAX_PRIORITY: usize = isize::MAX as usize;

/// The priority of a task that never asked for another.
pub const DEFAULT_PRIORITY: usize = 16;

/// The process id handed out first. Id 0 is never given to a task.
pub const FIRST_PID: usize = 1;

/// The largest process id: every id fits the signed return value of a system
/// call.
pub const MAX_PID: usize = isize::MAX as usize;

} // verus!
