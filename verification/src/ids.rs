//! Issues account identifiers: positive, strictly increasing, never reused.

use vstd::prelude::*;

verus! {

/// Hands out the identifiers 1, 2, 3, ... in order.
#[derive(Clone, Copy, Debug)]
pub struct IdAllocator {
    issued: u64,
}

impl IdAllocator {
    /// The largest identifier handed out so far; 0 when none has been.
    pub closed spec fn high_water(&self) -> u64 {
        self.issued
    }

    /// An allocator that has handed out nothing yet.
    pub fn new() -> (a: IdAllocator)
        ensures
            a.high_water() == 0,
    {
        IdAllocator { issued: 0 }
    }

    /// An allocator that continues after `id`: the next identifier it hands
    /// out is `id + 1`.
    pub fn resuming_after(id: u64) -> (a: IdAllocator)
        ensures
            a.high_water() == id,
    {
        IdAllocator { issued: id }
    }

    /// The largest identifier handed out so far; 0 when none has been.
    pub fn last_issued(&self) -> (id: u64)
        ensures
            id == self.high_water(),
    {
        self.issued
    }

    /// Hands out the next identifier. It is larger than every identifier
    /// handed out before, so none is ever issued twice. `None` once
    /// `u64::MAX` has been issued; the allocator is then left as it was.
    pub fn allocate(&mut self) -> (r: Option<u64>)
        ensures
            old(self).high_water() < u64::MAX ==> r == Some((old(self).high_water() + 1) as u64)
                && final(self).high_water() == old(self).high_water() + 1,
            old(self).high_water() == u64::MAX ==> r.is_none() && *final(self) == *old(self),
    {
        if self.issued == u64::MAX {
            None
        } else {
            self.issued = self.issued + 1;
            Some(self.issued)
        }
    }
}

} // verus!
