//! Handles to address spaces.
//!
//! Page tables and frames are kept by the memory subsystem. The task core
//! only records which address space a task runs in and whether its data pages
//! are still held.
use vstd::prelude::*;

verus! {

/// A task's address space, as the task core knows it.
#[derive(Clone, Copy, Debug, PartialEq, Eq, Structural)]
pub struct AddressSpace {
    /// The token by which the memory subsystem finds the address space.
    pub token: usize,
    /// Whether the data pages of the address space are still held. They are
    /// given up when the task exits; the token stays until the task is reaped.
    pub resident: bool,
}

impl AddressSpace {
    /// The address space with token `token`, its data pages held.
    pub fn new(token: usize) -> (space: AddressSpace)
        ensures
            space == (AddressSpace { token, resident: true }),
    {
        AddressSpace { token, resident: true }
    }

    /// The token of the address space.
    pub fn token(&self) -> (token: usize)
        ensures
            token == self.token,
    {
        self.token
    }

    /// Gives up the data pages. The token is kept.
    pub fn recycle_data_pages(&mut self)
        ensures
            *final(self) == (AddressSpace { token: old(self).token, resident: false }),
    {
        self.resident = false;
    }
}

} // verus!
