//! Process ids: a counter of ids never used and a list of ids given back.
use vstd::prelude::*;
use crate::config::{FIRST_PID, MAX_PID};

verus! {

/// What a `PidAllocator` stands for: the next id never handed out, the ids
/// given back, the one given back last at the end, and the largest id that
/// may be handed out.
pub struct PidView {
    pub next: usize,
    pub recycled: Seq<usize>,
    pub limit: usize,
}

impl PidView {
    /// The ids given back are distinct and were handed out before; the
    /// counter has not passed the largest id by more than one.
    pub open spec fn wf(self) -> bool {
        &&& self.limit <= MAX_PID
        &&& FIRST_PID <= self.next <= self.limit + 1
        &&& self.recycled.no_duplicates()
        &&& forall|i: int|
            0 <= i < self.recycled.len() ==> FIRST_PID <= #[trigger] self.recycled[i] < self.next
    }

    /// Whether `pid` was handed out and not given back since.
    pub open spec fn in_use(self, pid: usize) -> bool {
        FIRST_PID <= pid < self.next && !self.recycled.contains(pid)
    }

    /// Whether an id is left to hand out.
    pub open spec fn can_alloc(self) -> bool {
        self.recycled.len() > 0 || self.next <= self.limit
    }

    /// The id that the next allocation hands out: the one given back last,
    /// or, where none was given back, the next one never used.
    pub open spec fn next_alloc(self) -> usize {
        if self.recycled.len() > 0 {
            self.recycled.last()
        } else {
            self.next
        }
    }

    /// The allocator after it handed out `next_alloc()`.
    pub open spec fn after_alloc(self) -> PidView {
        if self.recycled.len() > 0 {
            PidView { recycled: self.recycled.drop_last(), ..self }
        } else {
            PidView { next: (self.next + 1) as usize, ..self }
        }
    }

    /// The allocator after `pid` was given back.
    pub open spec fn after_dealloc(self, pid: usize) -> PidView {
        PidView { recycled: self.recycled.push(pid), ..self }
    }

    /// An allocation hands out an id that was not in use, leaves every other
    /// id as it was, and keeps the allocator well-formed.
    pub proof fn lemma_alloc(self)
        requires
            self.wf(),
            self.can_alloc(),
        ensures
            self.after_alloc().wf(),
            FIRST_PID <= self.next_alloc() <= self.limit,
            !self.in_use(self.next_alloc()),
            self.after_alloc().in_use(self.next_alloc()),
            forall|p: usize|
                p != self.next_alloc() ==> (self.after_alloc().in_use(p) <==> self.in_use(p)),
    {
        let pid = self.next_alloc();
        let after = self.after_alloc();
        if self.recycled.len() > 0 {
            let last = self.recycled.len() - 1;
            assert(self.recycled[last] == pid);
            assert(self.recycled.contains(pid));
            assert(!after.recycled.contains(pid)) by {
                if after.recycled.contains(pid) {
                    let j = choose|j: int| 0 <= j < after.recycled.len() && after.recycled[j] == pid;
                    assert(self.recycled[j] == self.recycled[last]);
                }
            }
            assert forall|p: usize| p != pid implies (after.in_use(p) <==> self.in_use(p)) by {
                if self.recycled.contains(p) {
                    let j = choose|j: int| 0 <= j < self.recycled.len() && self.recycled[j] == p;
                    assert(after.recycled[j] == p);
                }
                if after.recycled.contains(p) {
                    let j = choose|j: int| 0 <= j < after.recycled.len() && after.recycled[j] == p;
                    assert(self.recycled[j] == p);
                }
            }
        } else {
            assert(!after.recycled.contains(pid));
        }
    }

    /// Giving back an id that is in use frees that id, leaves every other id
    /// as it was, and keeps the allocator well-formed.
    pub proof fn lemma_dealloc(self, pid: usize)
        requires
            self.wf(),
            self.in_use(pid),
        ensures
            self.after_dealloc(pid).wf(),
            !self.after_dealloc(pid).in_use(pid),
            forall|p: usize| p != pid ==> (self.after_dealloc(pid).in_use(p) <==> self.in_use(p)),
    {
        let after = self.after_dealloc(pid);
        let n = self.recycled.len() as int;
        assert(after.recycled[n] == pid);
        assert forall|i: int, j: int|
            0 <= i < after.recycled.len() && 0 <= j < after.recycled.len() && i != j implies
            after.recycled[i] != after.recycled[j] by {
            if i == n {
                assert(self.recycled[j] == after.recycled[j]);
            } else if j == n {
                assert(self.recycled[i] == after.recycled[i]);
            }
        }
        assert forall|p: usize| p != pid implies (after.in_use(p) <==> self.in_use(p)) by {
            if self.recycled.contains(p) {
                let j = choose|j: int| 0 <= j < self.recycled.len() && self.recycled[j] == p;
                assert(after.recycled[j] == p);
            }
            if after.recycled.contains(p) {
                let j = choose|j: int| 0 <= j < after.recycled.len() && after.recycled[j] == p;
                assert(self.recycled[j] == p);
            }
        }
    }
}

/// Hands out process ids and takes them back.
pub struct PidAllocator {
    current: usize,
    recycled: Vec<usize>,
    limit: usize,
}

impl View for PidAllocator {
    type V = PidView;

    closed spec fn view(&self) -> PidView {
        PidView { next: self.current, recycled: self.recycled@, limit: self.limit }
    }
}

impl PidAllocator {
    /// An allocator that has handed out nothing yet and may hand out every
    /// id up to `MAX_PID`.
    pub fn new() -> (a: PidAllocator)
        ensures
            a@.wf(),
            a@ == (PidView { next: FIRST_PID, recycled: Seq::empty(), limit: MAX_PID }),
    {
        PidAllocator { current: FIRST_PID, recycled: Vec::new(), limit: MAX_PID }
    }

    /// An allocator that has handed out nothing yet and may hand out the ids
    /// up to `limit`.
    pub fn with_limit(limit: usize) -> (a: PidAllocator)
        requires
            FIRST_PID <= limit <= MAX_PID,
        ensures
            a@.wf(),
            a@ == (PidView { next: FIRST_PID, recycled: Seq::empty(), limit }),
    {
        PidAllocator { current: FIRST_PID, recycled: Vec::new(), limit }
    }

    /// The next id never handed out.
    pub fn next(&self) -> (n: usize)
        ensures
            n == self@.next,
    {
        self.current
    }

    /// Hands out an id: the one given back last, else the next one never
    /// used. Returns nothing, and changes nothing, where no id is left.
    pub fn pid_alloc(&mut self) -> (pid: Option<usize>)
        requires
            old(self)@.wf(),
        ensures
            pid is Some <==> old(self)@.can_alloc(),
            pid is Some ==> pid.unwrap() == old(self)@.next_alloc() && final(self)@ == old(
                self,
            )@.after_alloc(),
            pid is None ==> final(self)@ == old(self)@,
            final(self)@.wf(),
    {
        proof {
            if self@.can_alloc() {
                self@.lemma_alloc();
            }
        }
        match self.recycled.pop() {
            Some(pid) => Some(pid),
            None => {
                if self.current <= self.limit {
                    let pid: usize = self.current;
                    self.current = self.current + 1;
                    Some(pid)
                } else {
                    None
                }
            },
        }
    }

    /// Takes back `pid`, which must be in use.
    pub fn pid_dealloc(&mut self, pid: usize)
        requires
            old(self)@.wf(),
            old(self)@.in_use(pid),
        ensures
            final(self)@ == old(self)@.after_dealloc(pid),
            final(self)@.wf(),
    {
        proof {
            self@.lemma_dealloc(pid);
        }
        self.recycled.push(pid);
    }
}

} // verus!
