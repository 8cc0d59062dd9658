//! Stack-disciplined allocation of scratch registers.
//!
//! Registers name slots of the active frame's register window. The compiler
//! allocates them transiently while lowering an expression and must return
//! them in reverse order of allocation: the allocator hands out consecutive
//! indices and only ever takes back the most recently allocated live one, so
//! the allocate/deallocate history of any verified client is well nested by
//! construction.

use vstd::prelude::*;

verus! {

/// A scratch register handed out by [`RegisterAllocator::allocate`].
pub struct Register {
    index: u32,
}

impl Register {
    /// The register's index, as seen by specifications.
    pub closed spec fn idx(&self) -> u32 {
        self.index
    }

    /// The slot index this register names inside the frame's register window.
    #[verifier::when_used_as_spec(idx)]
    pub fn index(&self) -> (r: u32)
        ensures
            r == self.idx(),
    {
        self.index
    }
}

/// A stack-disciplined pool of scratch register indices.
///
///
/// `live` is the number of currently allocated registers; their indices are
/// exactly `0 .. live`. `peak` records the high-water mark, which becomes the
/// register count of the finished code unit.
#[derive(Debug)]
pub struct RegisterAllocator {
    live: u32,
    peak: u32,
}

impl RegisterAllocator {
    /// The number of currently live scratch registers.
    pub closed spec fn live(&self) -> u32 {
        self.live
    }

    /// The high-water mark of live registers since creation.
    pub closed spec fn peak(&self) -> u32 {
        self.peak
    }

    /// The number of currently live scratch registers.
    #[verifier::when_used_as_spec(live)]
    pub fn live_count(&self) -> (r: u32)
        ensures
            r == self.live(),
    {
        self.live
    }

    /// The high-water mark of live registers since creation.
    #[verifier::when_used_as_spec(peak)]
    pub fn peak_count(&self) -> (r: u32)
        ensures
            r == self.peak(),
    {
        self.peak
    }

    /// Creates an empty pool.
    pub fn new() -> (r: RegisterAllocator)
        ensures
            r.live() == 0,
            r.peak() == 0,
    {
        RegisterAllocator { live: 0, peak: 0 }
    }

    /// Allocates the next scratch register.
    ///
    /// The fresh register's index is the previous live count, so live
    /// registers always occupy the contiguous range `0 .. live`.
    pub fn allocate(&mut self) -> (r: Register)
        requires
            old(self).live() < u32::MAX,
        ensures
            r.idx() == old(self).live(),
            final(self).live() == old(self).live() + 1,
            final(self).peak() == if old(self).live() + 1 > old(self).peak() {
                old(self).live() + 1
            } else {
                old(self).peak() as int
            },
    {
        let index = self.live;
        self.live = self.live + 1;
        if self.live > self.peak {
            self.peak = self.live;
        }
        Register { index }
    }

    /// Returns a scratch register to the pool.
    ///
    /// Only the most recently allocated live register may be returned:
    /// deallocating any other index is a compiler defect, which the
    /// precondition rules out for verified callers.
    pub fn deallocate(&mut self, register: Register)
        requires
            old(self).live() > 0,
            register.idx() == old(self).live() - 1,
        ensures
            final(self).live() == old(self).live() - 1,
            final(self).peak() == old(self).peak(),
    {
        let _ = register;
        self.live = self.live - 1;
    }
}

} // verus!
