//! System calls: the table that tells them apart, and those of a task's life.
//!
//! A task asks for a system call by a number and up to three arguments in
//! registers. `syscall` reads the request; the surrounding kernel then carries
//! it out, for the calls of a task's life through the functions in `process`.
pub mod process;

use vstd::prelude::*;

verus! {

pub const SYSCALL_READ: usize = 63;

pub const SYSCALL_WRITE: usize = 64;

pub const SYSCALL_EXIT: usize = 93;

pub const SYSCALL_YIELD: usize = 124;

pub const SYSCALL_GET_TIME: usize = 169;

pub const SYSCALL_GETPID: usize = 172;

pub const SYSCALL_FORK: usize = 220;

pub const SYSCALL_EXEC: usize = 221;

pub const SYSCALL_WAITPID: usize = 260;

/// The number under which a task would ask for another priority. The table
/// does not know this number: priorities are set by a direct call of
/// `process::sys_set_priority`.
pub const SYSCALL_SET_PRIORITY: usize = 140;

pub const SYSCALL_MMAP: usize = 222;

pub const SYSCALL_MUNMAP: usize = 215;

/// A system call with its arguments, as the task asked for it. Addresses are
/// addresses in the task's address space.
#[derive(Clone, Copy, Debug, PartialEq, Eq, Structural)]
pub enum Syscall {
    Read { fd: usize, buf: usize, len: usize },
    Write { fd: usize, buf: usize, len: usize },
    Exit { exit_code: i32 },
    Yield,
    GetTime,
    GetPid,
    Fork,
    Exec { path: usize },
    WaitPid { pid: isize, exit_code_ptr: usize },
    Mmap { start: usize, len: usize, port: usize },
    Munmap { start: usize, len: usize },
}

/// Whether the table knows the system call number `syscall_id`.
pub open spec fn is_supported(syscall_id: usize) -> bool {
    ||| syscall_id == SYSCALL_READ
    ||| syscall_id == SYSCALL_WRITE
    ||| syscall_id == SYSCALL_EXIT
    ||| syscall_id == SYSCALL_YIELD
    ||| syscall_id == SYSCALL_GET_TIME
    ||| syscall_id == SYSCALL_GETPID
    ||| syscall_id == SYSCALL_FORK
    ||| syscall_id == SYSCALL_EXEC
    ||| syscall_id == SYSCALL_WAITPID
    ||| syscall_id == SYSCALL_MMAP
    ||| syscall_id == SYSCALL_MUNMAP
}

/// The system call that the number `syscall_id` and the arguments `args` ask
/// for. An exit code is the low 32 bits of its argument, and a process id to
/// wait for is its argument read as a signed number.
pub open spec fn decode(syscall_id: usize, args: Seq<usize>) -> Syscall {
    if syscall_id == SYSCALL_READ {
        Syscall::Read { fd: args[0], buf: args[1], len: args[2] }
    } else if syscall_id == SYSCALL_WRITE {
        Syscall::Write { fd: args[0], buf: args[1], len: args[2] }
    } else if syscall_id == SYSCALL_EXIT {
        Syscall::Exit { exit_code: args[0] as i32 }
    } else if syscall_id == SYSCALL_YIELD {
        Syscall::Yield
    } else if syscall_id == SYSCALL_GET_TIME {
        Syscall::GetTime
    } else if syscall_id == SYSCALL_GETPID {
        Syscall::GetPid
    } else if syscall_id == SYSCALL_FORK {
        Syscall::Fork
    } else if syscall_id == SYSCALL_EXEC {
        Syscall::Exec { path: args[0] }
    } else if syscall_id == SYSCALL_WAITPID {
        Syscall::WaitPid { pid: args[0] as isize, exit_code_ptr: args[1] }
    } else if syscall_id == SYSCALL_MMAP {
        Syscall::Mmap { start: args[0], len: args[1], port: args[2] }
    } else {
        Syscall::Munmap { start: args[0], len: args[1] }
    }
}

/// Whether the table knows the system call number `syscall_id`.
pub fn is_supported_syscall(syscall_id: usize) -> (b: bool)
    ensures
        b == is_supported(syscall_id),
{
    syscall_id == SYSCALL_READ || syscall_id == SYSCALL_WRITE || syscall_id == SYSCALL_EXIT
        || syscall_id == SYSCALL_YIELD || syscall_id == SYSCALL_GET_TIME || syscall_id
        == SYSCALL_GETPID || syscall_id == SYSCALL_FORK || syscall_id == SYSCALL_EXEC || syscall_id
        == SYSCALL_WAITPID || syscall_id == SYSCALL_MMAP || syscall_id == SYSCALL_MUNMAP
}

/// Reads a request for a system call: which call the number `syscall_id`
/// stands for, with the arguments that the call takes out of `args`. The
/// number must be one that the table knows.
pub fn syscall(syscall_id: usize, args: [usize; 3]) -> (call: Syscall)
    requires
        is_supported(syscall_id),
    ensures
        call == decode(syscall_id, args@),
{
    if syscall_id == SYSCALL_READ {
        Syscall::Read { fd: args[0], buf: args[1], len: args[2] }
    } else if syscall_id == SYSCALL_WRITE {
        Syscall::Write { fd: args[0], buf: args[1], len: args[2] }
    } else if syscall_id == SYSCALL_EXIT {
        Syscall::Exit { exit_code: #[verifier::truncate] (args[0] as i32) }
    } else if syscall_id == SYSCALL_YIELD {
        Syscall::Yield
    } else if syscall_id == SYSCALL_GET_TIME {
        Syscall::GetTime
    } else if syscall_id == SYSCALL_GETPID {
        Syscall::GetPid
    } else if syscall_id == SYSCALL_FORK {
        Syscall::Fork
    } else if syscall_id == SYSCALL_EXEC {
        Syscall::Exec { path: args[0] }
    } else if syscall_id == SYSCALL_WAITPID {
        Syscall::WaitPid { pid: #[verifier::truncate] (args[0] as isize), exit_code_ptr: args[1] }
    } else if syscall_id == SYSCALL_MMAP {
        Syscall::Mmap { start: args[0], len: args[1], port: args[2] }
    } else {
        Syscall::Munmap { start: args[0], len: args[1] }
    }
}

} // verus!
