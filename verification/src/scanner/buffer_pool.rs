//! A stash of fixed-capacity read buffers, recycled between workers so
//! that reads allocate nothing in the steady state. A buffer handed out
//! keeps whatever bytes its last user wrote; only the length returned by
//! a read may be trusted.

use vstd::prelude::*;

verus! {

/// The fixed capacity of every read buffer, in bytes.
pub const BUFFER_CAPACITY: usize = 512;

/// An unordered stash of fixed-capacity byte buffers.
pub struct BufferPool {
    pool: Vec<Vec<u8>>,
}

impl BufferPool {
    /// Every stored buffer has the fixed capacity.
    pub closed spec fn wf(&self) -> bool {
        forall|i: int|
            0 <= i < self.pool@.len() ==> (#[trigger] self.pool@[i])@.len() == BUFFER_CAPACITY
    }

    /// How many buffers are waiting for reuse.
    pub closed spec fn stored(&self) -> int {
        self.pool@.len() as int
    }

    /// An empty pool.
    pub fn new() -> (p: BufferPool)
        ensures
            p.wf(),
            p.stored() == 0,
    {
        BufferPool { pool: Vec::new() }
    }

    /// Takes a buffer out, allocating a fresh zeroed one when the pool is
    /// empty.
    pub fn get(&mut self) -> (b: Vec<u8>)
        requires
            old(self).wf(),
        ensures
            final(self).wf(),
            b@.len() == BUFFER_CAPACITY,
            final(self).stored() == if old(self).stored() == 0 {
                0int
            } else {
                old(self).stored() - 1
            },
    {
        match self.pool.pop() {
            Some(buf) => {
                proof {
                    assert(old(self).pool@.last() == buf);
                }
                buf
            },
            None => {
                let mut fresh: Vec<u8> = Vec::new();
                let mut i: usize = 0;
                while i < BUFFER_CAPACITY
                    invariant
                        i <= BUFFER_CAPACITY,
                        fresh@.len() == i,
                    decreases BUFFER_CAPACITY - i,
                {
                    fresh.push(0);
                    i = i + 1;
                }
                fresh
            },
        }
    }

    /// Returns a buffer for reuse.
    pub fn put(&mut self, buf: Vec<u8>)
        requires
            old(self).wf(),
            buf@.len() == BUFFER_CAPACITY,
        ensures
            final(self).wf(),
            final(self).stored() == old(self).stored() + 1,
    {
        self.pool.push(buf);
        proof {
            assert forall|i: int|
                0 <= i < self.pool@.len() implies (#[trigger] self.pool@[i])@.len()
                == BUFFER_CAPACITY by {
                if i < self.pool@.len() - 1 {
                    assert(self.pool@[i] == old(self).pool@[i]);
                }
            }
        }
    }
}

} // verus!
