//! The process table: the task control blocks of all live processes, found
//! by process id.
use vstd::prelude::*;
use crate::config::MAX_PID;
use crate::task::task::{TaskControlBlock, TaskControlBlockInner, TaskView};

verus! {

/// Holds one task control block for each live process id.
pub struct TaskTable {
    slots: Vec<Option<TaskControlBlock>>,
}

impl View for TaskTable {
    type V = Map<usize, TaskView>;

    closed spec fn view(&self) -> Map<usize, TaskView> {
        Map::new(
            |pid: usize| pid < self.slots.len() && self.slots[pid as int] is Some,
            |pid: usize| self.slots[pid as int].unwrap()@,
        )
    }
}

impl TaskTable {
    /// Every task control block is stored under its own process id.
    pub closed spec fn wf(&self) -> bool {
        forall|pid: int|
            0 <= pid < self.slots.len() && (#[trigger] self.slots[pid]) is Some ==> {
                &&& self.slots[pid].unwrap().pid == pid
                &&& self.slots[pid].unwrap().kernel_stack.pid == pid
            }
    }

    /// A table without tasks.
    pub fn new() -> (table: TaskTable)
        ensures
            table.wf(),
            table@ == Map::<usize, TaskView>::empty(),
    {
        let table = TaskTable { slots: Vec::new() };
        assert(table@ =~= Map::<usize, TaskView>::empty());
        table
    }

    /// Whether the table holds a task with process id `pid`.
    pub fn contains(&self, pid: usize) -> (b: bool)
        ensures
            b == self@.dom().contains(pid),
    {
        pid < self.slots.len() && self.slots[pid].is_some()
    }

    /// The task control block of `pid`.
    pub fn get(&self, pid: usize) -> (tcb: &TaskControlBlock)
        requires
            self.wf(),
            self@.dom().contains(pid),
        ensures
            tcb.pid == pid,
            tcb.kernel_stack.pid == pid,
            tcb@ == self@[pid],
    {
        self.slots[pid].as_ref().unwrap()
    }

    /// Exclusive access to the changing part of the task control block of
    /// `pid`, for as long as the returned reference lives. What the caller
    /// leaves there is what the table holds for `pid` afterwards; no other
    /// task is touched.
    pub fn inner_mut(&mut self, pid: usize) -> (inner: &mut TaskControlBlockInner)
        requires
            old(self).wf(),
            old(self)@.dom().contains(pid),
        ensures
            inner@ == old(self)@[pid],
            final(self).wf(),
            final(self)@ == old(self)@.insert(pid, final(inner)@),
    {
        proof {
            self.lemma_slot_update(pid);
        }
        let tcb = self.slots[pid].as_mut().unwrap();
        &mut tcb.inner
    }

    /// The table after one task control block's changing part was replaced.
    proof fn lemma_slot_update(&self, pid: usize)
        requires
            self.wf(),
            self@.dom().contains(pid),
        ensures
            forall|inner: TaskControlBlockInner, other: TaskTable|
                #![trigger other.slots@, inner@]
                other.slots@ == self.slots@.update(
                    pid as int,
                    Some(
                        TaskControlBlock {
                            pid: self.slots@[pid as int].unwrap().pid,
                            kernel_stack: self.slots@[pid as int].unwrap().kernel_stack,
                            inner,
                        },
                    ),
                ) ==> other.wf() && other@ == self@.insert(pid, inner@),
    {
        assert forall|inner: TaskControlBlockInner, other: TaskTable|
            #![trigger other.slots@, inner@]
            other.slots@ == self.slots@.update(
                pid as int,
                Some(
                    TaskControlBlock {
                        pid: self.slots@[pid as int].unwrap().pid,
                        kernel_stack: self.slots@[pid as int].unwrap().kernel_stack,
                        inner,
                    },
                ),
            ) implies other.wf() && other@ == self@.insert(pid, inner@) by {
            assert(other@ =~= self@.insert(pid, inner@));
        }
    }

    /// Puts `tcb` into the table, under its process id, which no task in the
    /// table has.
    pub fn insert(&mut self, tcb: TaskControlBlock)
        requires
            old(self).wf(),
            tcb.pid <= MAX_PID,
            tcb.kernel_stack.pid == tcb.pid,
            !old(self)@.dom().contains(tcb.pid),
        ensures
            final(self).wf(),
            final(self)@ == old(self)@.insert(tcb.pid, tcb@),
    {
        let pid: usize = tcb.pid;
        while self.slots.len() <= pid
            invariant
                pid <= MAX_PID,
                self.wf(),
                self@ == old(self)@,
            decreases pid + 1 - self.slots.len(),
        {
            let ghost before = self@;
            self.slots.push(None);
            assert(self@ =~= before);
        }
        let ghost before = self@;
        self.slots[pid] = Some(tcb);
        assert(self@ =~= before.insert(pid, tcb@));
    }

    /// Takes the task control block of `pid` out of the table.
    pub fn remove(&mut self, pid: usize) -> (tcb: TaskControlBlock)
        requires
            old(self).wf(),
            old(self)@.dom().contains(pid),
        ensures
            final(self).wf(),
            final(self)@ == old(self)@.remove(pid),
            tcb.pid == pid,
            tcb@ == old(self)@[pid],
    {
        let ghost before = self@;
        let tcb = self.slots[pid].take().unwrap();
        assert(self@ =~= before.remove(pid));
        tcb
    }
}

} // verus!
