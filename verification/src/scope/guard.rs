//! The two guards of a region.
//!
//! A guard is shared by its holders and goes when the last of them lets
//! go. The termination guard wraps the region's shared state: when it
//! goes, the region has terminated. The cancel guard wraps the
//! termination guard: when it goes, the region is cancelled, and its hold
//! on the termination guard is released.

use vstd::prelude::*;

verus! {

/// A count of the holders of a guard.
#[derive(Debug)]
pub struct Holders {
    count: usize,
}

impl View for Holders {
    type V = nat;

    closed spec fn view(&self) -> nat {
        self.count as nat
    }
}

impl Holders {
    /// A guard with `count` holders.
    pub fn new(count: usize) -> (h: Holders)
        ensures
            h@ == count,
    {
        Holders { count }
    }

    /// How many hold the guard.
    pub fn count(&self) -> (n: usize)
        ensures
            n == self@,
    {
        self.count
    }

    /// Whether the guard is gone: nobody holds it.
    pub fn is_gone(&self) -> (b: bool)
        ensures
            b == (self@ == 0),
    {
        self.count == 0
    }

    /// One more holder.
    pub fn acquire(&mut self)
        requires
            old(self)@ < usize::MAX,
        ensures
            final(self)@ == old(self)@ + 1,
    {
        self.count = self.count + 1;
    }

    /// One holder lets go. Returns whether it was the last, so that the
    /// guard is gone.
    pub fn release(&mut self) -> (last: bool)
        requires
            old(self)@ > 0,
        ensures
            final(self)@ == old(self)@ - 1,
            last == (final(self)@ == 0),
    {
        self.count = self.count - 1;
        self.count == 0
    }
}

/// Held by the main tasks of a region. When it goes, the region is
/// cancelled.
#[derive(Debug)]
pub struct CancelGuard(pub Holders);

/// Held by the background tasks of a region, and by its cancel guard for
/// as long as that has a holder. When it goes, the region has terminated.
#[derive(Debug)]
pub struct TerminateGuard(pub Holders);

} // verus!
