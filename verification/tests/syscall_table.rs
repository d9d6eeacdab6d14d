use proc_core::syscall::{
    is_supported_syscall, syscall, Syscall, SYSCALL_EXEC, SYSCALL_EXIT, SYSCALL_FORK,
    SYSCALL_GETPID, SYSCALL_GET_TIME, SYSCALL_MMAP, SYSCALL_MUNMAP, SYSCALL_READ,
    SYSCALL_SET_PRIORITY, SYSCALL_WAITPID, SYSCALL_WRITE, SYSCALL_YIELD,
};

#[test]
fn syscall_numbers() {
    assert_eq!(SYSCALL_READ, 63);
    assert_eq!(SYSCALL_WRITE, 64);
    assert_eq!(SYSCALL_EXIT, 93);
    assert_eq!(SYSCALL_YIELD, 124);
    assert_eq!(SYSCALL_SET_PRIORITY, 140);
    assert_eq!(SYSCALL_GET_TIME, 169);
    assert_eq!(SYSCALL_GETPID, 172);
    assert_eq!(SYSCALL_MUNMAP, 215);
    assert_eq!(SYSCALL_FORK, 220);
    assert_eq!(SYSCALL_EXEC, 221);
    assert_eq!(SYSCALL_MMAP, 222);
    assert_eq!(SYSCALL_WAITPID, 260);
}

#[test]
fn syscall_reads_each_request() {
    let args = [11usize, 22, 33];
    assert_eq!(syscall(63, args), Syscall::Read { fd: 11, buf: 22, len: 33 });
    assert_eq!(syscall(64, args), Syscall::Write { fd: 11, buf: 22, len: 33 });
    assert_eq!(syscall(93, args), Syscall::Exit { exit_code: 11 });
    assert_eq!(syscall(124, args), Syscall::Yield);
    assert_eq!(syscall(169, args), Syscall::GetTime);
    assert_eq!(syscall(172, args), Syscall::GetPid);
    assert_eq!(syscall(220, args), Syscall::Fork);
    assert_eq!(syscall(221, args), Syscall::Exec { path: 11 });
    assert_eq!(syscall(260, args), Syscall::WaitPid { pid: 11, exit_code_ptr: 22 });
    assert_eq!(syscall(222, args), Syscall::Mmap { start: 11, len: 22, port: 33 });
    assert_eq!(syscall(215, args), Syscall::Munmap { start: 11, len: 22 });
}

#[test]
fn syscall_reads_signed_arguments() {
    // -1 in a register stands for any child.
    assert_eq!(
        syscall(SYSCALL_WAITPID, [usize::MAX, 0x1000, 0]),
        Syscall::WaitPid { pid: -1, exit_code_ptr: 0x1000 }
    );
    assert_eq!(
        syscall(SYSCALL_WAITPID, [usize::MAX - 1, 0, 0]),
        Syscall::WaitPid { pid: -2, exit_code_ptr: 0 }
    );
    // An exit code is the low 32 bits of the register.
    assert_eq!(syscall(SYSCALL_EXIT, [usize::MAX, 0, 0]), Syscall::Exit { exit_code: -1 });
    assert_eq!(
        syscall(SYSCALL_EXIT, [0x8000_0000, 0, 0]),
        Syscall::Exit { exit_code: i32::MIN }
    );
    assert_eq!(
        syscall(SYSCALL_EXIT, [(7usize << 16 << 16) | 7, 0, 0]),
        Syscall::Exit { exit_code: 7 }
    );
}

#[test]
fn syscall_table_knows_its_numbers() {
    let known = [63usize, 64, 93, 124, 169, 172, 215, 220, 221, 222, 260];
    for id in 0..400usize {
        assert_eq!(is_supported_syscall(id), known.contains(&id), "number {}", id);
    }
    assert!(!is_supported_syscall(SYSCALL_SET_PRIORITY));
    assert!(!is_supported_syscall(usize::MAX));
}
