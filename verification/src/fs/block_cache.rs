//! Which disk blocks are kept in memory, and which one makes room for
//! another.
//!
//! The block cache holds a bounded number of blocks. Reading a block from
//! the device and handing its bytes to users is the file system's work; here
//! is the order of the cached blocks and the choice of the block that leaves
//! when the cache is full.
use std::collections::VecDeque;
use vstd::prelude::*;

verus! {

/// The most blocks the cache holds.
pub const BLOCK_CACHE_SIZE: usize = 16;

/// What a request for a block comes to.
#[derive(Clone, Copy, Debug, PartialEq, Eq, Structural)]
pub enum CacheLookup {
    /// The block is cached, at this place of the queue.
    Hit { index: usize },
    /// The block was not cached and has joined the end of the queue; it is to
    /// be read from the device. Where the cache was full, the block at place
    /// `evicted` of the queue as it was has left to make room.
    Load { evicted: Option<usize> },
    /// The block is not cached, the cache is full, and every cached block is
    /// in use: nothing changed.
    Exhausted,
}

/// Whether place `i` is the first place of `queue` that holds `block_id`.
pub open spec fn first_place_of(queue: Seq<usize>, block_id: usize, i: int) -> bool {
    &&& 0 <= i < queue.len()
    &&& queue[i] == block_id
    &&& forall|j: int| 0 <= j < i ==> queue[j] != block_id
}

/// Whether place `i` is the first place whose block nobody uses.
pub open spec fn first_unused(in_use: Seq<bool>, i: int) -> bool {
    &&& 0 <= i < in_use.len()
    &&& !in_use[i]
    &&& forall|j: int| 0 <= j < i ==> in_use[j]
}

/// The numbers of the cached blocks, the one cached longest at the front.
pub struct BlockCacheManager {
    queue: VecDeque<usize>,
}

impl View for BlockCacheManager {
    type V = Seq<usize>;

    closed spec fn view(&self) -> Seq<usize> {
        self.queue@
    }
}

impl BlockCacheManager {
    /// The cache holds no block twice and no more blocks than its size.
    pub open spec fn wf(&self) -> bool {
        &&& self@.len() <= BLOCK_CACHE_SIZE
        &&& self@.no_duplicates()
    }

    /// An empty cache.
    pub fn new() -> (manager: BlockCacheManager)
        ensures
            manager.wf(),
            manager@ == Seq::<usize>::empty(),
    {
        BlockCacheManager { queue: VecDeque::new() }
    }

    /// The number of cached blocks.
    pub fn len(&self) -> (n: usize)
        ensures
            n == self@.len(),
    {
        self.queue.len()
    }

    /// Looks for the block `block_id`. `in_use` says of each cached block, by
    /// its place in the queue, whether anybody but the cache holds it.
    ///
    /// A cached block is a hit, and nothing changes. A block that is not
    /// cached joins the end of the queue. Where the cache is full, the first
    /// block of the queue that nobody uses leaves before; where all are in
    /// use the cache is exhausted and stays as it is.
    pub fn get_block_cache(&mut self, block_id: usize, in_use: &Vec<bool>) -> (lookup: CacheLookup)
        requires
            old(self).wf(),
            in_use@.len() == old(self)@.len(),
        ensures
            final(self).wf(),
            old(self)@.contains(block_id) ==> {
                &&& lookup matches CacheLookup::Hit { index }
                &&& first_place_of(old(self)@, block_id, index as int)
                &&& final(self)@ == old(self)@
            },
            !old(self)@.contains(block_id) && old(self)@.len() < BLOCK_CACHE_SIZE ==> {
                &&& lookup == (CacheLookup::Load { evicted: None })
                &&& final(self)@ == old(self)@.push(block_id)
            },
            !old(self)@.contains(block_id) && old(self)@.len() == BLOCK_CACHE_SIZE
                && in_use@.contains(false) ==> {
                &&& lookup matches CacheLookup::Load { evicted: Some(index) }
                &&& first_unused(in_use@, index as int)
                &&& final(self)@ == old(self)@.remove(index as int).push(block_id)
            },
            !old(self)@.contains(block_id) && old(self)@.len() == BLOCK_CACHE_SIZE
                && !in_use@.contains(false) ==> {
                &&& lookup == CacheLookup::Exhausted
                &&& final(self)@ == old(self)@
            },
    {
        let n: usize = self.queue.len();
        let mut i: usize = 0;
        while i < n
            invariant
                old(self).wf(),
                n == self.queue@.len(),
                self.queue@ == old(self)@,
                0 <= i <= n,
                forall|j: int| 0 <= j < i ==> self.queue@[j] != block_id,
            decreases n - i,
        {
            if self.queue[i] == block_id {
                return CacheLookup::Hit { index: i };
            }
            i = i + 1;
        }
        let mut evicted: Option<usize> = None;
        if n == BLOCK_CACHE_SIZE {
            let mut k: usize = 0;
            while k < n && evicted.is_none()
                invariant
                    old(self).wf(),
                    n == self.queue@.len(),
                    n == in_use@.len(),
                    self.queue@ == old(self)@,
                    0 <= k <= n,
                    evicted matches Some(index) ==> first_unused(in_use@, index as int),
                    evicted is None ==> forall|j: int| 0 <= j < k ==> in_use@[j],
                decreases n - k + (if evicted is None { 1int } else { 0int }),
            {
                if !in_use[k] {
                    evicted = Some(k);
                }
                k = k + 1;
            }
            match evicted {
                Some(index) => {
                    let ghost before = self.queue@;
                    self.queue.remove(index);
                    proof {
                        before.remove_ensures(index as int);
                        let rest = before.remove(index as int);
                        assert forall|a: int, b: int|
                            0 <= a < rest.len() && 0 <= b < rest.len() && a != b implies rest[a]
                            != rest[b] by {
                            let a0 = if a < index { a } else { a + 1 };
                            let b0 = if b < index { b } else { b + 1 };
                            assert(rest[a] == before[a0]);
                            assert(rest[b] == before[b0]);
                        }
                        assert forall|a: int| 0 <= a < rest.len() implies rest[a] != block_id by {
                            let a0 = if a < index { a } else { a + 1 };
                            assert(rest[a] == before[a0]);
                        }
                    }
                },
                None => {
                    return CacheLookup::Exhausted;
                },
            }
        }
        let ghost rest = self.queue@;
        self.queue.push_back(block_id);
        proof {
            assert forall|a: int, b: int|
                0 <= a < self.queue@.len() && 0 <= b < self.queue@.len() && a != b implies self.queue@[a]
                != self.queue@[b] by {
                if a < rest.len() {
                    assert(self.queue@[a] == rest[a]);
                }
                if b < rest.len() {
                    assert(self.queue@[b] == rest[b]);
                }
            }
        }
        CacheLookup::Load { evicted }
    }
}

} // verus!
