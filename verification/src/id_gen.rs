//! Allocation of flow identifiers: one monotonically increasing counter.

use vstd::prelude::*;

verus! {

/// Hands out the sequence 0, 1, 2, ... of flow-id counter values.  One
/// generator is owned by a registry, whose exclusive lock (held by the
/// unverified shell) serializes all calls; the counter advances like an
/// atomic fetch-and-add, wrapping only at the machine-word bound, far beyond
/// the 65536 distinguishable flow ids.  Truncation to the 16-bit flow-id
/// range is the caller's concern.
pub struct IncrementalIdGeneratorAtomic {
    last_id: usize,
}

impl IncrementalIdGeneratorAtomic {
    /// The counter value the next call to `next` will return.
    pub closed spec fn counter(&self) -> usize {
        self.last_id
    }

    /// A fresh generator, counting from 0.
    pub fn new() -> (g: IncrementalIdGeneratorAtomic)
        ensures
            g.counter() == 0,
    {
        IncrementalIdGeneratorAtomic { last_id: 0 }
    }

    /// Returns the current counter value and advances the counter by one;
    /// consecutive calls never return the same value until the counter wraps
    /// at `usize::MAX`.
    pub fn next(&mut self) -> (id: usize)
        ensures
            id == old(self).counter(),
            old(self).counter() < usize::MAX ==> final(self).counter() == old(self).counter()
                + 1,
            old(self).counter() == usize::MAX ==> final(self).counter() == 0,
    {
        let id = self.last_id;
        self.last_id = self.last_id.wrapping_add(1);
        id
    }
}

} // verus!
