//! The process and scheduling core of a small single-core kernel.
//!
//! Every program is a task with a process id, a place in the process tree and
//! a scheduling state. One processor is shared among the ready tasks by stride
//! scheduling; tasks run until they yield or exit. The crate holds the state
//! of that core and the rules by which it changes, each with a contract that
//! the verifier checks. Address spaces, program images and the register-level
//! context switch belong to the surrounding kernel: they appear here as plain
//! handles that are stored, copied and handed back.
pub mod config;
pub mod fs;
pub mod loader;
pub mod mm;
pub mod syscall;
pub mod task;
