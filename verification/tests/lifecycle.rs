use proc_core::loader::AppImage;
use proc_core::mm::AddressSpace;
use proc_core::syscall::process::{
    sys_exec, sys_exit, sys_fork, sys_getpid, sys_spawn, sys_waitpid, sys_yield,
};
use proc_core::task::context::{ContextSwitch, TaskContext};
use proc_core::task::kernel::Kernel;
use proc_core::task::processor::{
    current_task, current_trap_cx, current_user_token, run_tasks, schedule, take_current_task,
};
use proc_core::task::task::TaskStatus;
use proc_core::task::{add_initproc, exit_current_and_run_next, suspend_current_and_run_next};

fn image(token: usize) -> AppImage {
    AppImage { space: AddressSpace::new(token), entry_point: 0x1000 * token, user_sp: 0x8000 + token }
}

/// A kernel in which the root task runs.
fn boot() -> Kernel {
    let mut kernel = Kernel::new(image(1));
    add_initproc(&mut kernel);
    let switch = run_tasks(&mut kernel);
    assert_eq!(switch, Some(ContextSwitch { from: TaskContext::Idle, to: TaskContext::Task(1) }));
    kernel
}

/// Lets the tasks take turns until `pid` runs.
fn switch_to(kernel: &mut Kernel, pid: usize) {
    for _ in 0..64 {
        if current_task(kernel).is_none() {
            assert!(run_tasks(kernel).is_some());
        }
        if current_task(kernel) == Some(pid) {
            return;
        }
        sys_yield(kernel);
    }
    panic!("task {} never ran", pid);
}

fn children(kernel: &Kernel, pid: usize) -> Vec<usize> {
    kernel.get_task(pid).unwrap().inner.children.clone()
}

fn parent(kernel: &Kernel, pid: usize) -> Option<usize> {
    kernel.get_task(pid).unwrap().inner.parent
}

fn status(kernel: &Kernel, pid: usize) -> TaskStatus {
    kernel.get_task(pid).unwrap().inner.task_status
}

#[test]
fn boot_makes_root_task_with_first_pid() {
    let kernel = Kernel::new(image(1));
    assert_eq!(kernel.initproc(), 1);
    assert_eq!(current_task(&kernel), None);
    assert_eq!(kernel.ready_len(), 0);
    let root = kernel.get_task(1).unwrap();
    assert_eq!(root.getpid(), 1);
    assert_eq!(root.kernel_stack.pid, 1);
    assert_eq!(root.inner.task_status, TaskStatus::Ready);
    assert_eq!(root.inner.parent, None);
    assert!(root.inner.children.is_empty());
    assert_eq!(root.inner.memory_set, AddressSpace { token: 1, resident: true });
    assert_eq!(root.inner.trap_cx.sepc, 0x1000);
    assert_eq!(root.inner.trap_cx.x[2], 0x8001);
    assert_eq!(root.inner.priority.get(), 16);
    assert_eq!(root.inner.stride.0, 0);
    assert!(kernel.get_task(0).is_none());
    assert!(kernel.get_task(2).is_none());
}

#[test]
fn scenario_fork_exit_wait() {
    let mut kernel = boot();
    let mut slot: i32 = -100;

    // The root task forks P.
    assert_eq!(sys_getpid(&kernel), 1);
    assert_eq!(sys_fork(&mut kernel, AddressSpace::new(2)), 2);
    // P has not exited yet.
    assert_eq!(sys_waitpid(&mut kernel, 2, &mut slot), -2);
    assert_eq!(slot, -100);

    // P forks C.
    switch_to(&mut kernel, 2);
    assert_eq!(sys_getpid(&kernel), 2);
    assert_eq!(sys_fork(&mut kernel, AddressSpace::new(3)), 3);
    assert_eq!(children(&kernel, 2), vec![3]);
    assert_eq!(parent(&kernel, 3), Some(2));

    // C exits with 7.
    switch_to(&mut kernel, 3);
    let switch = sys_exit(&mut kernel, 7);
    assert_eq!(switch, ContextSwitch { from: TaskContext::Throwaway, to: TaskContext::Idle });
    assert_eq!(status(&kernel, 3), TaskStatus::Zombie);
    assert_eq!(current_task(&kernel), None);

    // P reaps C.
    switch_to(&mut kernel, 2);
    assert_eq!(sys_waitpid(&mut kernel, -1, &mut slot), 3);
    assert_eq!(slot, 7);
    assert!(children(&kernel, 2).is_empty());
    assert!(kernel.get_task(3).is_none());

    // The root task still waits for P.
    switch_to(&mut kernel, 1);
    assert_eq!(sys_waitpid(&mut kernel, 2, &mut slot), -2);
    assert_eq!(slot, 7);

    // P exits; it had no children left, so the root's children stay.
    switch_to(&mut kernel, 2);
    let before = children(&kernel, 1);
    assert_eq!(before, vec![2]);
    sys_exit(&mut kernel, 0);
    assert_eq!(children(&kernel, 1), before);

    // Now the root task reaps P.
    switch_to(&mut kernel, 1);
    assert_eq!(sys_waitpid(&mut kernel, 2, &mut slot), 2);
    assert_eq!(slot, 0);
    assert!(children(&kernel, 1).is_empty());
    assert!(kernel.get_task(2).is_none());
}

#[test]
fn forks_return_fresh_pids() {
    let mut kernel = boot();
    let mut seen: Vec<isize> = vec![1];
    // The root task forks, then each new task forks in turn.
    let mut parents: Vec<usize> = vec![1];
    for round in 0..4 {
        let mut next_parents: Vec<usize> = Vec::new();
        for &p in parents.iter() {
            switch_to(&mut kernel, p);
            for k in 0..3 {
                let child = sys_fork(&mut kernel, AddressSpace::new(100 * round + k));
                assert!(child > 0);
                assert_ne!(child, p as isize);
                assert!(!seen.contains(&child), "pid {} was handed out twice", child);
                seen.push(child);
                assert_eq!(parent(&kernel, child as usize), Some(p));
                next_parents.push(child as usize);
            }
        }
        parents = next_parents;
        if parents.len() > 9 {
            parents.truncate(9);
        }
    }
    // Without a reap in between the ids count up.
    let expected: Vec<isize> = (1..=seen.len() as isize).collect();
    assert_eq!(seen, expected);
}

#[test]
fn fork_copies_registers_and_zeroes_return_value() {
    let mut kernel = boot();
    {
        let cx = current_trap_cx(&mut kernel);
        cx.x[10] = 220;
        cx.x[5] = 55;
        cx.sepc = 0x4242;
    }
    let child = sys_fork(&mut kernel, AddressSpace::new(9)) as usize;
    let parent_cx = kernel.get_task(1).unwrap().inner.trap_cx;
    let child_tcb = kernel.get_task(child).unwrap();
    assert_eq!(parent_cx.x[10], 220);
    assert_eq!(child_tcb.inner.trap_cx.x[10], 0);
    assert_eq!(child_tcb.inner.trap_cx.x[5], 55);
    assert_eq!(child_tcb.inner.trap_cx.x[2], parent_cx.x[2]);
    assert_eq!(child_tcb.inner.trap_cx.sepc, 0x4242);
    assert_eq!(child_tcb.inner.memory_set, AddressSpace { token: 9, resident: true });
    assert_eq!(child_tcb.inner.task_status, TaskStatus::Ready);
    assert_eq!(child_tcb.inner.exit_code, 0);
    assert_eq!(child_tcb.inner.priority.get(), 16);
    assert_eq!(child_tcb.inner.stride.0, 0);
    assert!(child_tcb.inner.children.is_empty());
    assert_eq!(child_tcb.kernel_stack.pid, child);
    // The child waits in the pool.
    assert!(kernel.is_queued(child));
    assert!(!kernel.is_queued(1));
}

#[test]
fn fork_fails_when_pids_run_out() {
    let mut kernel = Kernel::with_pid_limit(image(1), 3);
    add_initproc(&mut kernel);
    run_tasks(&mut kernel);
    assert_eq!(sys_fork(&mut kernel, AddressSpace::new(2)), 2);
    assert_eq!(sys_fork(&mut kernel, AddressSpace::new(3)), 3);
    // No id is left: nothing changes.
    assert_eq!(sys_fork(&mut kernel, AddressSpace::new(4)), -1);
    assert_eq!(sys_spawn(&mut kernel, Some(image(4))), -1);
    assert_eq!(children(&kernel, 1), vec![2, 3]);
    assert_eq!(kernel.ready_len(), 2);
    assert!(kernel.get_task(4).is_none());
    // Once a child is reaped its id can be handed out again.
    switch_to(&mut kernel, 3);
    sys_exit(&mut kernel, 1);
    switch_to(&mut kernel, 1);
    let mut slot: i32 = 0;
    assert_eq!(sys_waitpid(&mut kernel, -1, &mut slot), 3);
    assert_eq!(sys_fork(&mut kernel, AddressSpace::new(5)), 3);
    assert_eq!(children(&kernel, 1), vec![2, 3]);
}

#[test]
fn reaped_pid_is_reused_last_in_first_out() {
    let mut kernel = boot();
    for token in 2..=4 {
        assert_eq!(sys_fork(&mut kernel, AddressSpace::new(token)), token as isize);
    }
    for pid in [2usize, 3, 4] {
        switch_to(&mut kernel, pid);
        sys_exit(&mut kernel, pid as i32);
    }
    switch_to(&mut kernel, 1);
    let mut slot: i32 = 0;
    assert_eq!(sys_waitpid(&mut kernel, 3, &mut slot), 3);
    assert_eq!(sys_waitpid(&mut kernel, 2, &mut slot), 2);
    // The id given back last goes out first.
    assert_eq!(sys_fork(&mut kernel, AddressSpace::new(7)), 2);
    assert_eq!(sys_fork(&mut kernel, AddressSpace::new(8)), 3);
    assert_eq!(sys_fork(&mut kernel, AddressSpace::new(9)), 5);
    assert_eq!(children(&kernel, 1), vec![4, 2, 3, 5]);
}

#[test]
fn exit_hands_children_to_root() {
    let mut kernel = boot();
    // Root has children 2 and 3; task 2 has children 4, 5, 6.
    assert_eq!(sys_fork(&mut kernel, AddressSpace::new(2)), 2);
    assert_eq!(sys_fork(&mut kernel, AddressSpace::new(3)), 3);
    switch_to(&mut kernel, 2);
    for token in 4..=6 {
        assert_eq!(sys_fork(&mut kernel, AddressSpace::new(token)), token as isize);
    }
    // Task 5 has a child of its own, which stays with it.
    switch_to(&mut kernel, 5);
    assert_eq!(sys_fork(&mut kernel, AddressSpace::new(7)), 7);

    switch_to(&mut kernel, 2);
    let root_before = children(&kernel, 1);
    let kids = children(&kernel, 2);
    assert_eq!(root_before, vec![2, 3]);
    assert_eq!(kids, vec![4, 5, 6]);
    let switch = exit_current_and_run_next(&mut kernel, -3);
    assert_eq!(switch, ContextSwitch { from: TaskContext::Throwaway, to: TaskContext::Idle });

    for &kid in kids.iter() {
        assert_eq!(parent(&kernel, kid), Some(1));
    }
    assert_eq!(children(&kernel, 1), vec![2, 3, 4, 5, 6]);
    assert_eq!(parent(&kernel, 7), Some(5));
    assert_eq!(children(&kernel, 5), vec![7]);

    let zombie = kernel.get_task(2).unwrap();
    assert_eq!(zombie.inner.task_status, TaskStatus::Zombie);
    assert_eq!(zombie.inner.exit_code, -3);
    assert!(zombie.inner.children.is_empty());
    assert_eq!(zombie.inner.parent, Some(1));
    assert_eq!(zombie.inner.memory_set, AddressSpace { token: 2, resident: false });
    assert_eq!(current_task(&kernel), None);
    assert!(!kernel.is_queued(2));
}

#[test]
fn exit_of_childless_task_leaves_root_children() {
    let mut kernel = boot();
    assert_eq!(sys_fork(&mut kernel, AddressSpace::new(2)), 2);
    assert_eq!(sys_fork(&mut kernel, AddressSpace::new(3)), 3);
    switch_to(&mut kernel, 3);
    sys_exit(&mut kernel, 5);
    assert_eq!(children(&kernel, 1), vec![2, 3]);
}

#[test]
fn waitpid_without_children_reports_no_child() {
    let mut kernel = boot();
    let mut slot: i32 = 41;
    assert_eq!(sys_waitpid(&mut kernel, -1, &mut slot), -1);
    assert_eq!(sys_waitpid(&mut kernel, 2, &mut slot), -1);
    assert_eq!(slot, 41);
}

#[test]
fn waitpid_for_a_stranger_reports_no_child() {
    let mut kernel = boot();
    assert_eq!(sys_fork(&mut kernel, AddressSpace::new(2)), 2);
    switch_to(&mut kernel, 2);
    assert_eq!(sys_fork(&mut kernel, AddressSpace::new(3)), 3);
    switch_to(&mut kernel, 3);
    sys_exit(&mut kernel, 9);
    switch_to(&mut kernel, 1);
    let mut slot: i32 = 41;
    // Task 3 is a zombie, but it is a grandchild, not a child.
    assert_eq!(sys_waitpid(&mut kernel, 3, &mut slot), -1);
    // No process id is negative, and only -1 stands for any child.
    assert_eq!(sys_waitpid(&mut kernel, -2, &mut slot), -1);
    assert_eq!(sys_waitpid(&mut kernel, isize::MIN, &mut slot), -1);
    // The root task itself is not its own child.
    assert_eq!(sys_waitpid(&mut kernel, 1, &mut slot), -1);
    assert_eq!(sys_waitpid(&mut kernel, 0, &mut slot), -1);
    assert_eq!(slot, 41);
    assert_eq!(status(&kernel, 3), TaskStatus::Zombie);
}

#[test]
fn waitpid_with_live_children_reports_not_yet() {
    let mut kernel = boot();
    assert_eq!(sys_fork(&mut kernel, AddressSpace::new(2)), 2);
    assert_eq!(sys_fork(&mut kernel, AddressSpace::new(3)), 3);
    let mut slot: i32 = 41;
    assert_eq!(sys_waitpid(&mut kernel, -1, &mut slot), -2);
    assert_eq!(sys_waitpid(&mut kernel, 2, &mut slot), -2);
    assert_eq!(sys_waitpid(&mut kernel, 3, &mut slot), -2);
    assert_eq!(slot, 41);
    assert_eq!(children(&kernel, 1), vec![2, 3]);
    // One child exits; a wait for the other still says "not yet".
    switch_to(&mut kernel, 3);
    sys_exit(&mut kernel, 1);
    switch_to(&mut kernel, 1);
    assert_eq!(sys_waitpid(&mut kernel, 2, &mut slot), -2);
    assert_eq!(slot, 41);
}

#[test]
fn waitpid_reaps_first_zombie_in_child_order() {
    let mut kernel = boot();
    for token in 2..=5 {
        assert_eq!(sys_fork(&mut kernel, AddressSpace::new(token)), token as isize);
    }
    // Task 5 exits first, then task 3.
    switch_to(&mut kernel, 5);
    sys_exit(&mut kernel, 50);
    switch_to(&mut kernel, 3);
    sys_exit(&mut kernel, 30);
    switch_to(&mut kernel, 1);
    let mut slot: i32 = 0;
    // Any child: the zombie that stands first among the children, not the
    // one that exited first.
    assert_eq!(sys_waitpid(&mut kernel, -1, &mut slot), 3);
    assert_eq!(slot, 30);
    assert_eq!(children(&kernel, 1), vec![2, 4, 5]);
    assert!(kernel.get_task(3).is_none());
    assert_eq!(sys_waitpid(&mut kernel, -1, &mut slot), 5);
    assert_eq!(slot, 50);
    assert_eq!(children(&kernel, 1), vec![2, 4]);
    assert_eq!(sys_waitpid(&mut kernel, -1, &mut slot), -2);
    assert_eq!(slot, 50);
}

#[test]
fn waitpid_for_one_child_passes_over_other_zombies() {
    let mut kernel = boot();
    for token in 2..=4 {
        assert_eq!(sys_fork(&mut kernel, AddressSpace::new(token)), token as isize);
    }
    switch_to(&mut kernel, 2);
    sys_exit(&mut kernel, i32::MIN);
    switch_to(&mut kernel, 4);
    sys_exit(&mut kernel, i32::MAX);
    switch_to(&mut kernel, 1);
    let mut slot: i32 = 0;
    assert_eq!(sys_waitpid(&mut kernel, 4, &mut slot), 4);
    assert_eq!(slot, i32::MAX);
    assert_eq!(children(&kernel, 1), vec![2, 3]);
    assert_eq!(sys_waitpid(&mut kernel, 4, &mut slot), -1);
    assert_eq!(sys_waitpid(&mut kernel, 2, &mut slot), 2);
    assert_eq!(slot, i32::MIN);
    assert_eq!(children(&kernel, 1), vec![3]);
}

#[test]
fn orphans_are_reaped_by_root() {
    let mut kernel = boot();
    assert_eq!(sys_fork(&mut kernel, AddressSpace::new(2)), 2);
    switch_to(&mut kernel, 2);
    assert_eq!(sys_fork(&mut kernel, AddressSpace::new(3)), 3);
    // The parent exits before the child.
    sys_exit(&mut kernel, 20);
    switch_to(&mut kernel, 3);
    assert_eq!(parent(&kernel, 3), Some(1));
    sys_exit(&mut kernel, 30);
    switch_to(&mut kernel, 1);
    let mut slot: i32 = 0;
    assert_eq!(sys_waitpid(&mut kernel, 3, &mut slot), 3);
    assert_eq!(slot, 30);
    assert_eq!(sys_waitpid(&mut kernel, -1, &mut slot), 2);
    assert_eq!(slot, 20);
    assert_eq!(sys_waitpid(&mut kernel, -1, &mut slot), -1);
}

#[test]
fn exec_replaces_program_in_place() {
    let mut kernel = boot();
    assert_eq!(sys_fork(&mut kernel, AddressSpace::new(2)), 2);
    switch_to(&mut kernel, 2);
    assert_eq!(sys_fork(&mut kernel, AddressSpace::new(3)), 3);
    {
        let cx = current_trap_cx(&mut kernel);
        cx.x[10] = 77;
    }
    let new_image = AppImage { space: AddressSpace::new(40), entry_point: 0xabc0, user_sp: 0xf000 };
    assert_eq!(sys_exec(&mut kernel, Some(new_image)), 0);
    assert_eq!(sys_getpid(&kernel), 2);
    assert_eq!(current_user_token(&kernel), 40);
    let tcb = kernel.get_task(2).unwrap();
    assert_eq!(tcb.inner.memory_set, AddressSpace { token: 40, resident: true });
    assert_eq!(tcb.inner.trap_cx.sepc, 0xabc0);
    assert_eq!(tcb.inner.trap_cx.x[2], 0xf000);
    assert_eq!(tcb.inner.trap_cx.x[10], 0);
    assert_eq!(tcb.inner.parent, Some(1));
    assert_eq!(tcb.inner.children, vec![3]);
    assert_eq!(tcb.inner.task_status, TaskStatus::Running);
    assert!(kernel.get_task(4).is_none());
}

#[test]
fn exec_of_unknown_program_changes_nothing() {
    let mut kernel = boot();
    {
        let cx = current_trap_cx(&mut kernel);
        cx.x[10] = 77;
    }
    assert_eq!(sys_exec(&mut kernel, None), -1);
    let tcb = kernel.get_task(1).unwrap();
    assert_eq!(tcb.inner.memory_set, AddressSpace { token: 1, resident: true });
    assert_eq!(tcb.inner.trap_cx.sepc, 0x1000);
    assert_eq!(tcb.inner.trap_cx.x[10], 77);
    assert_eq!(current_task(&kernel), Some(1));
}

#[test]
fn spawn_makes_child_from_image() {
    let mut kernel = boot();
    {
        let cx = current_trap_cx(&mut kernel);
        cx.x[7] = 70;
    }
    let child = sys_spawn(&mut kernel, Some(image(5)));
    assert_eq!(child, 2);
    let tcb = kernel.get_task(2).unwrap();
    assert_eq!(tcb.inner.parent, Some(1));
    assert_eq!(tcb.inner.memory_set, AddressSpace { token: 5, resident: true });
    assert_eq!(tcb.inner.trap_cx.sepc, 0x5000);
    assert_eq!(tcb.inner.trap_cx.x[2], 0x8005);
    // Nothing of the parent's registers goes over.
    assert_eq!(tcb.inner.trap_cx.x[7], 0);
    assert_eq!(tcb.inner.task_status, TaskStatus::Ready);
    assert_eq!(children(&kernel, 1), vec![2]);
    assert!(kernel.is_queued(2));
    // The parent goes on in its own program.
    assert_eq!(current_user_token(&kernel), 1);
}

#[test]
fn spawn_of_unknown_program_changes_nothing() {
    let mut kernel = boot();
    assert_eq!(sys_spawn(&mut kernel, None), -1);
    assert!(children(&kernel, 1).is_empty());
    assert_eq!(kernel.ready_len(), 0);
    assert!(kernel.get_task(2).is_none());
    // The id that was not used goes to the next child.
    assert_eq!(sys_fork(&mut kernel, AddressSpace::new(2)), 2);
}

#[test]
fn yield_requeues_and_returns_zero() {
    let mut kernel = boot();
    assert_eq!(sys_fork(&mut kernel, AddressSpace::new(2)), 2);
    let (value, switch) = sys_yield(&mut kernel);
    assert_eq!(value, 0);
    assert_eq!(switch, ContextSwitch { from: TaskContext::Task(1), to: TaskContext::Idle });
    assert_eq!(current_task(&kernel), None);
    assert_eq!(status(&kernel, 1), TaskStatus::Ready);
    assert!(kernel.is_queued(1));
    // The stride moved forward by the pass of priority 16.
    assert_eq!(kernel.get_task(1).unwrap().inner.stride.0, u64::MAX / 16);
    assert_eq!(kernel.ready_len(), 2);
    // The child, still at stride zero, runs next.
    let switch = run_tasks(&mut kernel);
    assert_eq!(switch, Some(ContextSwitch { from: TaskContext::Idle, to: TaskContext::Task(2) }));
    assert_eq!(status(&kernel, 2), TaskStatus::Running);
    assert_eq!(kernel.get_task(2).unwrap().inner.stride.0, 0);
    assert!(!kernel.is_queued(2));
}

#[test]
fn suspend_saves_the_task_for_later() {
    let mut kernel = boot();
    let switch = suspend_current_and_run_next(&mut kernel);
    assert_eq!(switch, ContextSwitch { from: TaskContext::Task(1), to: TaskContext::Idle });
    let switch = run_tasks(&mut kernel);
    assert_eq!(switch, Some(ContextSwitch { from: TaskContext::Idle, to: TaskContext::Task(1) }));
    assert_eq!(current_task(&kernel), Some(1));
}

#[test]
fn idle_processor_finds_nothing_in_empty_pool() {
    let mut kernel = Kernel::new(image(1));
    assert_eq!(run_tasks(&mut kernel), None);
    assert_eq!(current_task(&kernel), None);
    assert_eq!(status(&kernel, 1), TaskStatus::Ready);
    add_initproc(&mut kernel);
    assert_eq!(kernel.ready_len(), 1);
    assert!(run_tasks(&mut kernel).is_some());
    // The only task runs; the pool is empty again.
    assert_eq!(run_tasks(&mut kernel), None);
    assert_eq!(current_task(&kernel), Some(1));
}

#[test]
fn take_current_gives_the_task_once() {
    let mut kernel = boot();
    assert_eq!(current_task(&kernel), Some(1));
    assert_eq!(current_task(&kernel), Some(1));
    assert_eq!(take_current_task(&mut kernel), Some(1));
    assert_eq!(take_current_task(&mut kernel), None);
    assert_eq!(current_task(&kernel), None);
}

#[test]
fn schedule_switches_to_idle() {
    assert_eq!(
        schedule(TaskContext::Task(4)),
        ContextSwitch { from: TaskContext::Task(4), to: TaskContext::Idle }
    );
    assert_eq!(
        schedule(TaskContext::Throwaway),
        ContextSwitch { from: TaskContext::Throwaway, to: TaskContext::Idle }
    );
}

#[test]
fn getpid_and_token_follow_the_current_task() {
    let mut kernel = boot();
    assert_eq!(sys_fork(&mut kernel, AddressSpace::new(21)), 2);
    assert_eq!(sys_getpid(&kernel), 1);
    assert_eq!(current_user_token(&kernel), 1);
    switch_to(&mut kernel, 2);
    assert_eq!(sys_getpid(&kernel), 2);
    assert_eq!(current_user_token(&kernel), 21);
}

#[test]
fn trap_context_changes_stay_with_the_task() {
    let mut kernel = boot();
    assert_eq!(sys_fork(&mut kernel, AddressSpace::new(2)), 2);
    {
        let cx = current_trap_cx(&mut kernel);
        assert_eq!(cx.sepc, 0x1000);
        cx.sepc += 4;
        cx.x[10] = 2;
    }
    switch_to(&mut kernel, 2);
    {
        let cx = current_trap_cx(&mut kernel);
        assert_eq!(cx.x[10], 0);
        cx.x[10] = 99;
    }
    assert_eq!(kernel.get_task(1).unwrap().inner.trap_cx.sepc, 0x1004);
    assert_eq!(kernel.get_task(1).unwrap().inner.trap_cx.x[10], 2);
    assert_eq!(kernel.get_task(2).unwrap().inner.trap_cx.x[10], 99);
}
