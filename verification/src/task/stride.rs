//! The stride counter: a 64-bit counter that wraps, and the order on it.
//!
//! A stride only ever moves forward, by its task's pass. Two strides are
//! compared by the distance from one forward to the other: the one from which
//! the other lies less than half the counter's range ahead is the earlier one.
//! So a stride that has wrapped past zero still counts as later than one that
//! has not, as long as the two are less than half the range apart.
use vstd::prelude::*;

verus! {

/// Half of the counter's range.
pub const HALF_RANGE: u64 = 0x8000_0000_0000_0000;

/// How far `to` lies ahead of `from` when counting forward and wrapping at
/// the end of the range.
pub open spec fn wrap_distance(from: u64, to: u64) -> int {
    if to >= from {
        to - from
    } else {
        to - from + 0x1_0000_0000_0000_0000
    }
}

/// Whether stride `a` is strictly earlier than stride `b`: `b` lies ahead of
/// `a`, by less than half the range.
pub open spec fn stride_before(a: u64, b: u64) -> bool {
    0 < wrap_distance(a, b) < HALF_RANGE
}

/// The stride reached from `s` after one dispatch of a task with pass `pass`.
pub open spec fn stride_after(s: u64, pass: u64) -> u64 {
    if s + pass > u64::MAX {
        (s + pass - 0x1_0000_0000_0000_0000) as u64
    } else {
        (s + pass) as u64
    }
}

/// A task's position on the stride counter.
#[derive(Clone, Copy, Debug, PartialEq, Eq, Structural)]
pub struct Stride(pub u64);

impl Stride {
    /// The stride of a task that was never dispatched.
    pub fn zero() -> (s: Stride)
        ensures
            s.0 == 0,
    {
        Stride(0)
    }

    /// Whether this stride is strictly earlier than `other`, wrap-aware.
    pub fn is_before(&self, other: &Stride) -> (b: bool)
        ensures
            b == stride_before(self.0, other.0),
    {
        let ahead: u64 = other.0.wrapping_sub(self.0);
        ahead != 0 && ahead < HALF_RANGE
    }

    /// The stride after one more dispatch: this one moved forward by `pass`,
    /// wrapping at the end of the range.
    pub fn advance(&self, pass: u64) -> (s: Stride)
        ensures
            s.0 == stride_after(self.0, pass),
    {
        Stride(self.0.wrapping_add(pass))
    }
}

/// No stride is earlier than itself, and of two strides at most one is
/// earlier than the other.
pub proof fn lemma_before_asymmetric(a: u64, b: u64)
    ensures
        !stride_before(a, a),
        stride_before(a, b) ==> !stride_before(b, a),
{
}

/// A stride that moved forward by a pass that is positive and below half the
/// range is later than it was, also where the counter wrapped in between.
pub proof fn lemma_advance_is_later(s: u64, pass: u64)
    requires
        0 < pass < HALF_RANGE,
    ensures
        stride_before(s, stride_after(s, pass)),
        !stride_before(stride_after(s, pass), s),
        wrap_distance(s, stride_after(s, pass)) == pass,
{
}

/// Of two strides on either side of the wrap, the one before the wrap is the
/// earlier one, though its number is the larger.
pub proof fn lemma_before_across_wrap(a: u64, b: u64)
    requires
        a >= HALF_RANGE,
        b < HALF_RANGE,
        b + (0x1_0000_0000_0000_0000 - a) < HALF_RANGE,
    ensures
        stride_before(a, b),
        !stride_before(b, a),
{
}

} // verus!
