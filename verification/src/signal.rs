//! One-shot latching signal.

use vstd::prelude::*;

verus! {

/// A latch that starts unfired and, once set, stays set.
#[derive(Debug)]
pub struct Once {
    fired: bool,
}

/// The outcome of one poll of a suspension point.
#[derive(Debug, PartialEq, Eq)]
pub enum Poll<T> {
    /// The awaited thing has happened, with this result.
    Ready(T),
    /// Nothing to report yet: the waiter stays suspended.
    Pending,
}

impl View for Once {
    type V = bool;

    /// Whether the signal has fired.
    closed spec fn view(&self) -> bool {
        self.fired
    }
}

impl Once {
    /// A fresh, unfired signal.
    pub fn new() -> (s: Once)
        ensures
            !s@,
    {
        Once { fired: false }
    }

    /// Fires the signal. Idempotent: returns whether this call was the one
    /// that fired it.
    pub fn set(&mut self) -> (first: bool)
        ensures
            final(self)@,
            first == !old(self)@,
    {
        let first = !self.fired;
        self.fired = true;
        first
    }

    /// Non-suspending probe.
    pub fn try_recv(&self) -> (fired: bool)
        ensures
            fired == self@,
    {
        self.fired
    }

    /// One poll of a waiter: ready exactly when the signal has fired.
    /// Polling leaves the signal untouched, so an abandoned wait can be
    /// taken up again.
    pub fn recv(&self) -> (p: Poll<()>)
        ensures
            p == (if self@ {
                Poll::Ready(())
            } else {
                Poll::<()>::Pending
            }),
    {
        if self.fired {
            Poll::Ready(())
        } else {
            Poll::Pending
        }
    }
}

} // verus!
