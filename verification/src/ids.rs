//! Allocation of unique, non-zero session identifiers.

use vstd::prelude::*;

verus! {

/// Produces session identifiers: a monotonically increasing 64-bit counter
/// that never returns `0`, the reserved "all sessions" sentinel. At the
/// (practically unreachable) top of the range it wraps around, skipping `0`.
pub struct SessionIdAllocator {
    /// The most recently issued identifier; `0` before the first allocation.
    pub last: u64,
}

impl SessionIdAllocator {
    /// A fresh allocator; the first allocated id will be `1`.
    pub fn new() -> (r: SessionIdAllocator)
        ensures
            r.last == 0,
    {
        SessionIdAllocator { last: 0 }
    }

    /// The next identifier: never `0`, and strictly greater than every
    /// previously issued identifier until the 64-bit counter wraps.
    pub fn allocate(&mut self) -> (id: u64)
        ensures
            id != 0,
            final(self).last == id,
            old(self).last < u64::MAX ==> id == old(self).last + 1,
            old(self).last == u64::MAX ==> id == 1,
    {
        if self.last == u64::MAX {
            self.last = 1;
        } else {
            self.last = self.last + 1;
        }
        self.last
    }
}

} // verus!
