//! A register allocator that hands out registers in order, wrapping after the last.

use vstd::prelude::*;

verus! {

#[derive(Debug, Clone, Copy, PartialEq, Eq, Structural)]
pub struct Register(pub u8);

pub struct RegisterAllocator {
    next: u8,
}

impl View for RegisterAllocator {
    type V = u8;

    /// The register the next allocation hands out.
    closed spec fn view(&self) -> u8 {
        self.next
    }
}

impl RegisterAllocator {
    /// An allocator that starts at register 0.
    pub fn new() -> (r: RegisterAllocator)
        ensures
            r@ == 0,
    {
        RegisterAllocator { next: 0 }
    }

    /// The next register; after register 255 comes register 0 again.
    pub fn allocate(&mut self) -> (r: Register)
        ensures
            r.0 == old(self)@,
            final(self)@ == (old(self)@ + 1) % 256,
    {
        let reg = Register(self.next);
        self.next = self.next.wrapping_add(1);
        reg
    }
}

/// The `k`-th allocation after the allocator stood at `start` hands out
/// register `(start + k) mod 256`: 256 allocations in a row hand out every
/// register once.
pub open spec fn nth_register(start: u8, k: nat) -> u8 {
    ((start + k) % 256) as u8
}

pub proof fn law_alloc_sequence(start: u8, k: nat)
    ensures
        nth_register(start, k + 1) == ((nth_register(start, k) + 1) % 256) as u8,
        nth_register(start, 0) == start,
        nth_register(start, k + 256) == nth_register(start, k),
{
}

} // verus!
