//! The mark allocator: issues monotonically increasing, globally unique jump
//! target identifiers.  One allocator is shared by exclusive reference across
//! the whole recursive generation pass, so that no two label definitions
//! anywhere in the program receive the same mark.

use vstd::prelude::*;

verus! {

pub struct MarkTracker {
    next: usize,
}

impl View for MarkTracker {
    type V = nat;

    /// The model of the allocator is the count it will hand out next.
    closed spec fn view(&self) -> nat {
        self.next as nat
    }
}

impl MarkTracker {
    /// A fresh allocator that starts at zero.
    pub fn new() -> (r: MarkTracker)
        ensures
            r@ == 0,
    {
        MarkTracker { next: 0 }
    }

    /// A fresh allocator that starts at the given value.
    pub fn starting_at(first: usize) -> (r: MarkTracker)
        ensures
            r@ == first as nat,
    {
        MarkTracker { next: first }
    }

    /// Issues the next mark: returns the current count and advances it.
    pub fn next_mark(&mut self) -> (r: usize)
        requires
            old(self)@ < usize::MAX,
        ensures
            r as nat == old(self)@,
            final(self)@ == old(self)@ + 1,
    {
        let m = self.next;
        self.next = self.next + 1;
        m
    }
}

impl Default for MarkTracker {
    fn default() -> (r: MarkTracker)
        ensures
            r@ == 0,
    {
        MarkTracker::new()
    }
}

} // verus!
