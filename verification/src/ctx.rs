//! Cancellation contexts.
//!
//! A context is a node of a cancellation tree with an optional deadline.
//! A context is cancelled when it was cancelled itself, when its deadline
//! has elapsed, or when its parent is cancelled. The tree only grows, and
//! a child always sits behind its parent, so walking up the parents ends.

use crate::signal::Poll;
use vstd::prelude::*;

verus! {

/// The caller's context was cancelled before the awaited thing happened.
#[derive(Clone, Copy, Debug, PartialEq, Eq, Structural)]
pub struct ErrCancelled;

/// A point on the monotonic clock, in nanoseconds, or no limit at all.
#[derive(Clone, Copy, Debug, PartialEq, Eq, Structural)]
pub enum Deadline {
    Finite(u64),
    Infinite,
}

impl Deadline {
    /// A deadline has elapsed once the clock has reached it.
    pub open spec fn elapsed(self, now: u64) -> bool {
        match self {
            Deadline::Finite(t) => t <= now,
            Deadline::Infinite => false,
        }
    }

    /// `self` comes no later than `other`; every finite deadline comes
    /// before the infinite one.
    pub open spec fn no_later_than(self, other: Deadline) -> bool {
        match (self, other) {
            (_, Deadline::Infinite) => true,
            (Deadline::Infinite, Deadline::Finite(_)) => false,
            (Deadline::Finite(a), Deadline::Finite(b)) => a <= b,
        }
    }

    /// The earlier of two deadlines.
    pub open spec fn earliest_spec(self, other: Deadline) -> Deadline {
        if self.no_later_than(other) {
            self
        } else {
            other
        }
    }

    #[verifier::when_used_as_spec(earliest_spec)]
    pub fn earliest(self, other: Deadline) -> (d: Deadline)
        ensures
            d == self.earliest_spec(other),
    {
        match (self, other) {
            (_, Deadline::Infinite) => self,
            (Deadline::Infinite, Deadline::Finite(_)) => other,
            (Deadline::Finite(a), Deadline::Finite(b)) => if a <= b {
                self
            } else {
                other
            },
        }
    }

    pub fn has_elapsed(self, now: u64) -> (b: bool)
        ensures
            b == self.elapsed(now),
    {
        match self {
            Deadline::Finite(t) => t <= now,
            Deadline::Infinite => false,
        }
    }
}

/// Handle of a context: its place in the tree.
#[derive(Clone, Copy, Debug, PartialEq, Eq, Structural)]
pub struct Ctx {
    pub id: usize,
}

/// One node of the cancellation tree.
#[derive(Clone, Copy, Debug, PartialEq, Eq, Structural)]
pub struct Node {
    /// The context this one was derived from; `None` for the root.
    pub parent: Option<usize>,
    /// The node's own one-shot cancel flag.
    pub cancelled: bool,
    /// The node's deadline, never later than its parent's.
    pub deadline: Deadline,
}

/// The cancellation tree as a mathematical value.
pub struct CtxState {
    pub nodes: Seq<Node>,
    /// The latest reading of the monotonic clock that the tree has seen.
    pub now: u64,
}

impl CtxState {
    pub open spec fn contains(self, c: Ctx) -> bool {
        c.id < self.nodes.len()
    }

    /// Every parent sits before its child and has no earlier deadline.
    pub open spec fn wf(self) -> bool {
        &&& self.nodes.len() > 0
        &&& forall|i: int|
            0 <= i < self.nodes.len() ==> match (#[trigger] self.nodes[i]).parent {
                Some(p) => p < i && self.nodes[i].deadline.no_later_than(
                    self.nodes[p as int].deadline,
                ),
                None => true,
            }
    }

    /// Whether the node at `i` counts as cancelled: by its own flag, by its
    /// deadline, or through its parent.
    pub open spec fn cancelled_at(self, i: int) -> bool
        decreases i,
    {
        &&& 0 <= i < self.nodes.len()
        &&& {
            ||| self.nodes[i].cancelled
            ||| self.nodes[i].deadline.elapsed(self.now)
            ||| match self.nodes[i].parent {
                Some(p) => p < i && self.cancelled_at(p as int),
                None => false,
            }
        }
    }

    pub open spec fn is_cancelled(self, c: Ctx) -> bool {
        self.cancelled_at(c.id as int)
    }

    /// Whether node `x` is `top` or lies anywhere below it.
    pub open spec fn within(self, top: int, x: int) -> bool
        decreases x,
    {
        &&& 0 <= x < self.nodes.len()
        &&& {
            ||| x == top
            ||| match self.nodes[x].parent {
                Some(p) => p < x && self.within(top, p as int),
                None => false,
            }
        }
    }

    /// A tree of one root that has no deadline and is not cancelled.
    pub open spec fn root() -> CtxState {
        CtxState {
            nodes: seq![Node { parent: None, cancelled: false, deadline: Deadline::Infinite }],
            now: 0,
        }
    }

    /// The deadline that a child of `parent` asked to end by `deadline` gets.
    pub open spec fn child_deadline(self, parent: Ctx, deadline: Deadline) -> Deadline {
        self.nodes[parent.id as int].deadline.earliest_spec(deadline)
    }

    /// The tree after deriving a child of `parent`.
    pub open spec fn sub(self, parent: Ctx, deadline: Deadline) -> CtxState {
        CtxState {
            nodes: self.nodes.push(
                Node {
                    parent: Some(parent.id),
                    cancelled: false,
                    deadline: self.child_deadline(parent, deadline),
                },
            ),
            now: self.now,
        }
    }

    /// The tree after cancelling `c`.
    pub open spec fn cancel(self, c: Ctx) -> CtxState {
        CtxState {
            nodes: self.nodes.update(
                c.id as int,
                Node { cancelled: true, ..self.nodes[c.id as int] },
            ),
            now: self.now,
        }
    }

    /// The tree after the clock was read as `now`. The clock is monotonic:
    /// an earlier reading changes nothing.
    pub open spec fn advance(self, now: u64) -> CtxState {
        CtxState { nodes: self.nodes, now: if now >= self.now { now } else { self.now } }
    }

    /// `later` may come after `self`: the tree has only grown, the clock
    /// has not gone back, and what was cancelled is cancelled still.
    pub open spec fn precedes(self, later: CtxState) -> bool {
        &&& self.nodes.len() <= later.nodes.len()
        &&& self.now <= later.now
        &&& forall|i: int|
            0 <= i < self.nodes.len() ==> {
                &&& (#[trigger] later.nodes[i]).parent == self.nodes[i].parent
                &&& later.nodes[i].deadline == self.nodes[i].deadline
            }
        &&& forall|i: int| #[trigger] self.cancelled_at(i) ==> later.cancelled_at(i)
    }

    /// Cancelling a context cancels it and everything below it, and
    /// nothing else changes.
    pub proof fn lemma_cancel(self, c: Ctx, x: int)
        requires
            self.wf(),
            self.contains(c),
        ensures
            self.cancel(c).wf(),
            self.cancel(c).cancelled_at(x) == (self.cancelled_at(x) || self.within(c.id as int, x)),
        decreases x,
    {
        let after = self.cancel(c);
        if 0 <= x < self.nodes.len() {
            match self.nodes[x].parent {
                Some(p) => {
                    if p < x {
                        self.lemma_cancel(c, p as int);
                    }
                },
                None => {},
            }
        }
    }

    /// Cancelling a context a second time changes nothing.
    pub proof fn law_cancel_idempotent(self, c: Ctx)
        requires
            self.contains(c),
        ensures
            self.cancel(c).cancel(c) == self.cancel(c),
    {
        assert(self.cancel(c).cancel(c).nodes =~= self.cancel(c).nodes);
    }

    /// Deriving a child leaves every existing context as it was; the child
    /// starts cancelled exactly if its parent is cancelled or its deadline
    /// has already elapsed.
    pub proof fn lemma_sub(self, parent: Ctx, deadline: Deadline, x: int)
        requires
            self.wf(),
            self.contains(parent),
        ensures
            self.sub(parent, deadline).wf(),
            x < self.nodes.len() ==> self.sub(parent, deadline).cancelled_at(x)
                == self.cancelled_at(x),
            x == self.nodes.len() ==> self.sub(parent, deadline).cancelled_at(x) == (
            self.is_cancelled(parent) || self.child_deadline(parent, deadline).elapsed(self.now)),
        decreases x,
    {
        let after = self.sub(parent, deadline);
        assert(after.wf()) by {
            assert forall|i: int| 0 <= i < after.nodes.len() implies match (
            #[trigger] after.nodes[i]).parent {
                Some(p) => p < i && after.nodes[i].deadline.no_later_than(
                    after.nodes[p as int].deadline,
                ),
                None => true,
            } by {
                if i < self.nodes.len() {
                    assert(after.nodes[i] == self.nodes[i]);
                }
            }
        }
        if 0 <= x < self.nodes.len() {
            match self.nodes[x].parent {
                Some(p) => {
                    if p < x {
                        self.lemma_sub(parent, deadline, p as int);
                    }
                },
                None => {},
            }
        } else if x == self.nodes.len() {
            self.lemma_sub(parent, deadline, parent.id as int);
        }
    }

    /// In a well-formed tree the deadline of a context has elapsed whenever
    /// the deadline of a context above it has.
    pub proof fn law_deadline_reaches_down(self, top: int, x: int, now: u64)
        requires
            self.wf(),
            self.within(top, x),
            self.nodes[top].deadline.elapsed(now),
        ensures
            self.nodes[x].deadline.elapsed(now),
        decreases x,
    {
        if x != top {
            let p = self.nodes[x].parent->0;
            self.law_deadline_reaches_down(top, p as int, now);
        }
    }

    /// Reading the clock cancels exactly the contexts whose own deadline
    /// has now elapsed, besides those that were cancelled before.
    pub proof fn lemma_advance(self, now: u64, x: int)
        requires
            self.wf(),
            0 <= x < self.nodes.len(),
        ensures
            self.advance(now).wf(),
            self.advance(now).cancelled_at(x) == (self.cancelled_at(x)
                || self.nodes[x].deadline.elapsed(now)),
        decreases x,
    {
        match self.nodes[x].parent {
            Some(p) => {
                self.lemma_advance(now, p as int);
            },
            None => {},
        }
    }

    /// A cancelled context has everything below it cancelled.
    pub proof fn lemma_cancelled_reaches_down(self, top: int, x: int)
        requires
            self.cancelled_at(top),
            self.within(top, x),
        ensures
            self.cancelled_at(x),
        decreases x,
    {
        if x != top {
            let p = self.nodes[x].parent->0;
            self.lemma_cancelled_reaches_down(top, p as int);
        }
    }

    pub proof fn lemma_cancel_precedes(self, c: Ctx)
        requires
            self.wf(),
            self.contains(c),
        ensures
            self.cancel(c).wf(),
            self.precedes(self.cancel(c)),
            self.cancel(c).is_cancelled(c),
    {
        self.lemma_cancel(c, c.id as int);
        assert forall|i: int| #[trigger] self.cancelled_at(i) implies self.cancel(c).cancelled_at(
            i,
        ) by {
            self.lemma_cancel(c, i);
        }
    }

    pub proof fn lemma_sub_precedes(self, parent: Ctx, deadline: Deadline)
        requires
            self.wf(),
            self.contains(parent),
        ensures
            self.sub(parent, deadline).wf(),
            self.precedes(self.sub(parent, deadline)),
    {
        self.lemma_sub(parent, deadline, 0);
        assert forall|i: int| #[trigger] self.cancelled_at(i) implies self.sub(
            parent,
            deadline,
        ).cancelled_at(i) by {
            self.lemma_sub(parent, deadline, i);
        }
    }

    pub proof fn lemma_advance_precedes(self, now: u64)
        requires
            self.wf(),
        ensures
            self.advance(now).wf(),
            self.precedes(self.advance(now)),
    {
        self.lemma_advance(now, 0);
        assert forall|i: int| #[trigger] self.cancelled_at(i) implies self.advance(
            now,
        ).cancelled_at(i) by {
            self.lemma_advance(now, i);
        }
    }

    pub proof fn lemma_precedes_transitive(self, mid: CtxState, later: CtxState)
        requires
            self.precedes(mid),
            mid.precedes(later),
        ensures
            self.precedes(later),
    {
        assert forall|i: int| 0 <= i < self.nodes.len() implies {
            &&& (#[trigger] later.nodes[i]).parent == self.nodes[i].parent
            &&& later.nodes[i].deadline == self.nodes[i].deadline
        } by {
            assert(mid.nodes[i].parent == self.nodes[i].parent);
        }
        assert forall|i: int| #[trigger] self.cancelled_at(i) implies later.cancelled_at(i) by {
            assert(mid.cancelled_at(i));
        }
    }
}

/// The cancellation tree.
pub struct CtxTree {
    nodes: Vec<Node>,
    now: u64,
}

impl View for CtxTree {
    type V = CtxState;

    closed spec fn view(&self) -> CtxState {
        CtxState { nodes: self.nodes@, now: self.now }
    }
}

impl CtxTree {
    /// A tree that holds the root context only: no deadline, not cancelled.
    pub fn new() -> (t: CtxTree)
        ensures
            t@ == CtxState::root(),
            t@.wf(),
    {
        let mut nodes: Vec<Node> = Vec::new();
        nodes.push(Node { parent: None, cancelled: false, deadline: Deadline::Infinite });
        let t = CtxTree { nodes, now: 0 };
        assert(t@.nodes =~= CtxState::root().nodes);
        t
    }

    /// The root context.
    pub fn root(&self) -> (c: Ctx)
        ensures
            c == (Ctx { id: 0 }),
    {
        Ctx { id: 0 }
    }

    /// Whether `c` names a context of this tree.
    pub fn contains(&self, c: Ctx) -> (b: bool)
        ensures
            b == self@.contains(c),
    {
        c.id < self.nodes.len()
    }

    /// The latest clock reading that the tree has seen.
    pub fn now(&self) -> (t: u64)
        ensures
            t == self@.now,
    {
        self.now
    }

    /// The deadline of `c`: the earliest of the deadlines asked for on the
    /// way down from the root.
    pub fn deadline(&self, c: Ctx) -> (d: Deadline)
        requires
            self@.contains(c),
        ensures
            d == self@.nodes[c.id as int].deadline,
    {
        self.nodes[c.id].deadline
    }

    /// Derives a child of `parent` that is cancelled with its parent, by
    /// itself, or when `deadline` elapses.
    pub fn sub(&mut self, parent: Ctx, deadline: Deadline) -> (child: Ctx)
        requires
            old(self)@.wf(),
            old(self)@.contains(parent),
        ensures
            final(self)@ == old(self)@.sub(parent, deadline),
            final(self)@.wf(),
            old(self)@.precedes(final(self)@),
            final(self)@.nodes.len() <= usize::MAX,
            child.id == old(self)@.nodes.len(),
            final(self)@.contains(child),
            final(self)@.is_cancelled(child) == (old(self)@.is_cancelled(parent) || old(
                self,
            )@.child_deadline(parent, deadline).elapsed(old(self)@.now)),
            forall|x: Ctx|
                old(self)@.contains(x) ==> #[trigger] final(self)@.is_cancelled(x) == old(
                    self,
                )@.is_cancelled(x),
    {
        let id = self.nodes.len();
        let d = self.nodes[parent.id].deadline.earliest(deadline);
        self.nodes.push(Node { parent: Some(parent.id), cancelled: false, deadline: d });
        assert(self.nodes.len() <= usize::MAX);
        proof {
            let pre = old(self)@;
            pre.lemma_sub(parent, deadline, id as int);
            pre.lemma_sub_precedes(parent, deadline);
            assert forall|x: Ctx| pre.contains(x) implies #[trigger] self@.is_cancelled(x)
                == pre.is_cancelled(x) by {
                pre.lemma_sub(parent, deadline, x.id as int);
            }
        }
        Ctx { id }
    }

    /// Marks `c` cancelled. Idempotent. Returns whether `c` was not yet
    /// cancelled, by any cause, before the call.
    pub fn cancel(&mut self, c: Ctx) -> (newly: bool)
        requires
            old(self)@.wf(),
            old(self)@.contains(c),
        ensures
            final(self)@ == old(self)@.cancel(c),
            final(self)@.wf(),
            old(self)@.precedes(final(self)@),
            newly == !old(self)@.is_cancelled(c),
            final(self)@.is_cancelled(c),
            forall|x: Ctx|
                old(self)@.contains(x) ==> #[trigger] final(self)@.is_cancelled(x) == (old(
                    self,
                )@.is_cancelled(x) || old(self)@.within(c.id as int, x.id as int)),
    {
        let newly = !self.is_cancelled(c);
        let n = self.nodes[c.id];
        self.nodes[c.id] = Node { parent: n.parent, cancelled: true, deadline: n.deadline };
        proof {
            let pre = old(self)@;
            assert(self@.nodes =~= pre.cancel(c).nodes);
            pre.lemma_cancel(c, c.id as int);
            pre.lemma_cancel_precedes(c);
            assert forall|x: Ctx| pre.contains(x) implies #[trigger] self@.is_cancelled(x) == (
            pre.is_cancelled(x) || pre.within(c.id as int, x.id as int)) by {
                pre.lemma_cancel(c, x.id as int);
            }
        }
        newly
    }

    /// Hands the tree a reading of the monotonic clock. Contexts whose
    /// deadline is at or before it are cancelled from now on.
    pub fn advance(&mut self, now: u64)
        requires
            old(self)@.wf(),
        ensures
            final(self)@ == old(self)@.advance(now),
            final(self)@.wf(),
            old(self)@.precedes(final(self)@),
            forall|x: Ctx|
                old(self)@.contains(x) ==> #[trigger] final(self)@.is_cancelled(x) == (old(
                    self,
                )@.is_cancelled(x) || old(self)@.nodes[x.id as int].deadline.elapsed(now)),
    {
        if now >= self.now {
            self.now = now;
        }
        proof {
            let pre = old(self)@;
            assert forall|x: Ctx| pre.contains(x) implies #[trigger] self@.is_cancelled(x) == (
            pre.is_cancelled(x) || pre.nodes[x.id as int].deadline.elapsed(now)) by {
                pre.lemma_advance(now, x.id as int);
            }
            pre.lemma_advance_precedes(now);
        }
    }

    /// Non-suspending probe: whether `c` is cancelled.
    pub fn is_cancelled(&self, c: Ctx) -> (b: bool)
        requires
            self@.wf(),
            self@.contains(c),
        ensures
            b == self@.is_cancelled(c),
    {
        let mut cur = c.id;
        loop
            invariant
                cur < self.nodes.len(),
                self@.cancelled_at(c.id as int) == self@.cancelled_at(cur as int),
            decreases cur,
        {
            let n = self.nodes[cur];
            if n.cancelled || n.deadline.has_elapsed(self.now) {
                return true;
            }
            match n.parent {
                None => {
                    return false;
                },
                Some(p) => {
                    if p >= cur {
                        return false;
                    }
                    cur = p;
                },
            }
        }
    }

    /// One poll of a task that awaits the cancellation of `c`.
    pub fn cancelled(&self, c: Ctx) -> (p: Poll<()>)
        requires
            self@.wf(),
            self@.contains(c),
        ensures
            p == (if self@.is_cancelled(c) {
                Poll::Ready(())
            } else {
                Poll::<()>::Pending
            }),
    {
        if self.is_cancelled(c) {
            Poll::Ready(())
        } else {
            Poll::Pending
        }
    }

    /// One poll of a computation that runs under `c`: `inner` is what the
    /// computation itself reported at this poll. A finished computation
    /// wins; an unfinished one gives way to cancellation.
    pub fn wait<T>(&self, c: Ctx, inner: Poll<T>) -> (p: Poll<Result<T, ErrCancelled>>)
        requires
            self@.wf(),
            self@.contains(c),
        ensures
            p == wait_spec(self@.is_cancelled(c), inner),
    {
        match inner {
            Poll::Ready(v) => Poll::Ready(Ok(v)),
            Poll::Pending => {
                if self.is_cancelled(c) {
                    Poll::Ready(Err(ErrCancelled))
                } else {
                    Poll::Pending
                }
            },
        }
    }
}

/// What a bounded wait reports: the result of the inner computation if it
/// has one, else the cancellation of the waiter if that has fired.
pub open spec fn wait_spec<T>(cancelled: bool, inner: Poll<T>) -> Poll<Result<T, ErrCancelled>> {
    match inner {
        Poll::Ready(v) => Poll::Ready(Ok(v)),
        Poll::Pending => if cancelled {
            Poll::Ready(Err(ErrCancelled))
        } else {
            Poll::Pending
        },
    }
}

} // verus!
