//! Program images, as the loader hands them over.
use vstd::prelude::*;
use crate::mm::AddressSpace;

verus! {

/// A program that was found by name and loaded: the address space it was
/// loaded into, the address of its first instruction and the top of its user
/// stack.
#[derive(Clone, Copy, Debug, PartialEq, Eq, Structural)]
pub struct AppImage {
    pub space: AddressSpace,
    pub entry_point: usize,
    pub user_sp: usize,
}

} // verus!
