//! The state that all tasks of one region share.

use crate::ctx::{Ctx, CtxTree, Deadline};
use crate::signal::{Once, Poll};
use vstd::prelude::*;

verus! {

/// The shared state of a region as a mathematical value.
pub struct InnerState<E> {
    /// The region's context, a child of the context the region was
    /// entered from. Every task of the region runs under it.
    pub ctx: Ctx,
    /// The first-error slot.
    pub err: Option<E>,
    /// Whether the slot has been emptied to hand the region's outcome out.
    pub taken: bool,
    /// Every error that was reported to the region, in order of arrival.
    pub errors: Seq<E>,
    /// Whether the termination signal has fired.
    pub terminated: bool,
}

impl<E> InnerState<E> {
    pub open spec fn fresh(ctx: Ctx) -> InnerState<E> {
        InnerState { ctx, err: None, taken: false, errors: Seq::empty(), terminated: false }
    }

    /// The error that arrived first, if any has.
    pub open spec fn first_error(self) -> Option<E> {
        if self.errors.len() == 0 {
            None
        } else {
            Some(self.errors[0])
        }
    }

    /// Until the slot is emptied it holds the error that arrived first.
    pub open spec fn wf(self) -> bool {
        !self.taken ==> self.err == self.first_error()
    }

    /// The state after `err` was reported: the slot keeps what it holds,
    /// and takes `err` only if it was empty.
    pub open spec fn register(self, err: E) -> InnerState<E> {
        InnerState {
            err: if self.err is None {
                Some(err)
            } else {
                self.err
            },
            errors: self.errors.push(err),
            ..self
        }
    }

    /// The state after the termination signal has fired.
    pub open spec fn fire(self) -> InnerState<E> {
        InnerState { terminated: true, ..self }
    }

    /// The state after the slot was emptied.
    pub open spec fn take(self) -> InnerState<E> {
        InnerState { err: None, taken: true, ..self }
    }

    /// What a terminated region hands out: the error in the slot, or
    /// success if the slot is empty.
    pub open spec fn outcome(self) -> Result<(), E> {
        match self.err {
            Some(e) => Err(e),
            None => Ok(()),
        }
    }
}

/// The shared state of a region: its context, its termination signal and
/// its first-error slot.
pub struct Inner<E> {
    ctx: Ctx,
    err: Option<E>,
    taken: bool,
    errors: Ghost<Seq<E>>,
    terminated: Once,
}

impl<E> View for Inner<E> {
    type V = InnerState<E>;

    closed spec fn view(&self) -> InnerState<E> {
        InnerState {
            ctx: self.ctx,
            err: self.err,
            taken: self.taken,
            errors: self.errors@,
            terminated: self.terminated@,
        }
    }
}

impl<E> Inner<E> {
    /// The state of a new region entered from `parent`: a fresh child
    /// context without a deadline of its own, an empty slot, an unfired
    /// termination signal.
    pub fn new(tree: &mut CtxTree, parent: Ctx) -> (inner: Inner<E>)
        requires
            old(tree)@.wf(),
            old(tree)@.contains(parent),
        ensures
            final(tree)@ == old(tree)@.sub(parent, Deadline::Infinite),
            final(tree)@.wf(),
            old(tree)@.precedes(final(tree)@),
            final(tree)@.nodes.len() <= usize::MAX,
            inner@ == InnerState::<E>::fresh(Ctx { id: old(tree)@.nodes.len() as usize }),
            inner@.wf(),
            final(tree)@.contains(inner@.ctx),
            final(tree)@.is_cancelled(inner@.ctx) == old(tree)@.is_cancelled(parent),
            forall|x: Ctx|
                old(tree)@.contains(x) ==> #[trigger] final(tree)@.is_cancelled(x) == old(
                    tree,
                )@.is_cancelled(x),
    {
        let ctx = tree.sub(parent, Deadline::Infinite);
        Inner {
            ctx,
            err: None,
            taken: false,
            errors: Ghost(Seq::empty()),
            terminated: Once::new(),
        }
    }

    /// The region's context.
    pub fn ctx(&self) -> (c: Ctx)
        ensures
            c == self@.ctx,
    {
        self.ctx
    }

    /// Reports `err` to the region. The first report wins the slot and
    /// cancels the region's context; every later one is dropped. Returns
    /// whether this report won.
    pub fn register(&mut self, tree: &mut CtxTree, err: E) -> (won: bool)
        requires
            old(tree)@.wf(),
            old(tree)@.contains(old(self)@.ctx),
            old(self)@.wf(),
        ensures
            final(self)@ == old(self)@.register(err),
            final(self)@.wf(),
            won == old(self)@.err is None,
            final(tree)@ == (if won {
                old(tree)@.cancel(old(self)@.ctx)
            } else {
                old(tree)@
            }),
            final(tree)@.wf(),
            won ==> final(tree)@.is_cancelled(old(self)@.ctx),
            won ==> final(self)@.err == Some(err),
            forall|x: Ctx|
                old(tree)@.contains(x) && old(tree)@.is_cancelled(x)
                    ==> #[trigger] final(tree)@.is_cancelled(x),
    {
        proof {
            let ghost history = self.errors@.push(err);
            self.errors@ = history;
        }
        if self.err.is_none() {
            self.err = Some(err);
            tree.cancel(self.ctx);
            true
        } else {
            false
        }
    }

    /// What the first-error slot holds.
    pub fn first_error(&self) -> (e: Option<&E>)
        ensures
            match e {
                Some(e) => self@.err == Some(*e),
                None => self@.err is None,
            },
    {
        self.err.as_ref()
    }

    /// Non-suspending probe of the termination signal.
    pub fn is_terminated(&self) -> (b: bool)
        ensures
            b == self@.terminated,
    {
        self.terminated.try_recv()
    }

    /// Fires the termination signal. Idempotent.
    pub fn fire(&mut self)
        ensures
            final(self)@ == old(self)@.fire(),
    {
        self.terminated.set();
    }

    /// One poll of a waiter for the region's end: pending until the
    /// termination signal has fired, then the error in the slot, or
    /// success if it is empty.
    pub fn terminated(&self) -> (p: Poll<Result<(), &E>>)
        ensures
            !self@.terminated ==> p is Pending,
            self@.terminated ==> (p matches Poll::Ready(r) && match r {
                Ok(_) => self@.err is None,
                Err(e) => self@.err == Some(*e),
            }),
    {
        if !self.terminated.try_recv() {
            return Poll::Pending;
        }
        match self.err.as_ref() {
            Some(e) => Poll::Ready(Err(e)),
            None => Poll::Ready(Ok(())),
        }
    }

    /// As `terminated`, but moves the error out of the slot. Pending
    /// leaves the state as it was.
    pub fn terminated_take(&mut self) -> (p: Poll<Result<(), E>>)
        requires
            old(self)@.wf(),
        ensures
            !old(self)@.terminated ==> p is Pending && final(self)@ == old(self)@,
            old(self)@.terminated ==> p == Poll::Ready(old(self)@.outcome()) && final(self)@
                == old(self)@.take(),
            final(self)@.wf(),
    {
        if !self.terminated.try_recv() {
            return Poll::Pending;
        }
        self.taken = true;
        match self.err.take() {
            Some(e) => Poll::Ready(Err(e)),
            None => Poll::Ready(Ok(())),
        }
    }
}

} // verus!
