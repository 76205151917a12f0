//! Computations that must run to completion.
//!
//! Most code above the level of I/O primitives is written as if it could
//! not be abandoned at a suspension point. The wrapper of this module
//! makes that assumption safe: abandoning a wrapped computation before it
//! has completed is a fault that ends the process, and is never swallowed
//! by error handling on the way up.

use crate::signal::Poll;
use vstd::prelude::*;

verus! {

/// What the owner of a guard has to do when the guard is destroyed.
#[derive(Clone, Copy, Debug, PartialEq, Eq, Structural)]
pub enum DropAction {
    /// The computation had completed: nothing to do.
    Nothing,
    /// The computation was abandoned: report it, with a backtrace, and
    /// abort the process.
    Abort,
}

/// Guards one computation. Armed from its creation until the computation
/// has completed.
#[derive(Debug)]
pub struct MustCompleteGuard {
    armed: bool,
}

impl View for MustCompleteGuard {
    type V = bool;

    /// Whether the guard is still armed.
    closed spec fn view(&self) -> bool {
        self.armed
    }
}

impl MustCompleteGuard {
    /// An armed guard, for a computation that is about to start.
    pub fn new() -> (g: MustCompleteGuard)
        ensures
            g@,
    {
        MustCompleteGuard { armed: true }
    }

    /// Disarms the guard: the computation has completed.
    pub fn disarm(&mut self)
        ensures
            !final(self)@,
    {
        self.armed = false;
    }

    /// The guard is being destroyed: abort exactly if it is still armed.
    pub fn on_drop(&self) -> (a: DropAction)
        ensures
            a == (if self@ {
                DropAction::Abort
            } else {
                DropAction::Nothing
            }),
    {
        if self.armed {
            DropAction::Abort
        } else {
            DropAction::Nothing
        }
    }
}

/// One poll of a wrapped computation: `inner` is what the computation
/// itself reported. The wrapper reports the same, and disarms the guard
/// when that is a result.
pub fn must_complete<T>(guard: &mut MustCompleteGuard, inner: Poll<T>) -> (p: Poll<T>)
    ensures
        p == inner,
        final(guard)@ == (old(guard)@ && inner is Pending),
{
    match inner {
        Poll::Ready(v) => {
            guard.disarm();
            Poll::Ready(v)
        },
        Poll::Pending => Poll::Pending,
    }
}

} // verus!
