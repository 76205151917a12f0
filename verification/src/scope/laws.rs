//! What holds of every runtime, whatever is done with it.
//!
//! The operations of the runtime are gathered in one type, so that a
//! history is a sequence of them; the laws speak of every state that some
//! history leads to, and of every history that leads on from it.

use crate::ctx::{Ctx, Deadline};
use crate::scope::model::{State, region_precedes, task_precedes};
use crate::scope::task::{JoinHandle, Role, holds, lemma_live_update, lemma_live_zero};
use vstd::prelude::*;

verus! {

/// One operation on the runtime.
pub enum Op<E> {
    /// A context is derived.
    Sub { parent: Ctx, deadline: Deadline },
    /// A context is cancelled: by its owner, or because the handle of the
    /// service it belongs to was let go.
    Cancel { ctx: Ctx },
    /// The clock is read.
    Advance { now: u64 },
    /// A scope is entered.
    NewScope { parent: Ctx },
    /// A task is spawned.
    Spawn { region: usize, role: Role },
    /// A service is created.
    NewService { host: usize },
    /// A task finishes, with an error or without.
    Finish { task: JoinHandle, failure: Option<E> },
    /// The outcome of a terminated region is handed out.
    Take { region: usize },
}

impl<E> State<E> {
    /// Whether `op` can be taken in this state.
    pub open spec fn enabled(self, op: Op<E>) -> bool {
        match op {
            Op::Sub { parent, .. } => self.ctxs.contains(parent),
            Op::Cancel { ctx } => self.ctxs.contains(ctx),
            Op::Advance { .. } => true,
            Op::NewScope { parent } => self.ctxs.contains(parent),
            Op::Spawn { region, role } => self.may_spawn(region, role),
            Op::NewService { host } => {
                &&& self.may_host(host)
                &&& self.regions.len() < usize::MAX
                &&& self.regions[host as int].tasks.len() < usize::MAX
                &&& self.ctxs.nodes.len() < usize::MAX
            },
            Op::Finish { task, .. } => self.may_finish(task),
            Op::Take { region } => self.has_region(region) && self.terminated(region as int),
        }
    }

    /// The state after `op`. An operation that cannot be taken is refused
    /// and changes nothing.
    pub open spec fn apply(self, op: Op<E>) -> State<E> {
        if !self.enabled(op) {
            self
        } else {
            match op {
                Op::Sub { parent, deadline } => self.ctx_sub(parent, deadline),
                Op::Cancel { ctx } => self.ctx_cancel(ctx),
                Op::Advance { now } => self.advance(now),
                Op::NewScope { parent } => self.new_scope(parent),
                Op::Spawn { region, role } => self.spawn(region, role),
                Op::NewService { host } => self.new_service(host),
                Op::Finish { task, failure } => self.finish(task, failure),
                Op::Take { region } => self.take(region),
            }
        }
    }

    /// The state after a whole history.
    pub open spec fn apply_all(self, ops: Seq<Op<E>>) -> State<E>
        decreases ops.len(),
    {
        if ops.len() == 0 {
            self
        } else {
            self.apply_all(ops.drop_last()).apply(ops.last())
        }
    }

    /// Whether region `r` is `top`, or a service created in `top`, or a
    /// service created in such a service, and so on.
    pub open spec fn hosted_within(self, top: int, r: int) -> bool
        decreases r,
    {
        &&& 0 <= r < self.regions.len()
        &&& {
            ||| r == top
            ||| match self.regions[r].host {
                Some(w) => w.region < r && self.hosted_within(top, w.region as int),
                None => false,
            }
        }
    }

    /// One operation keeps the invariant and moves the state forward.
    pub proof fn law_step(self, op: Op<E>)
        requires
            self.inv(),
        ensures
            self.apply(op).inv(),
            self.precedes(self.apply(op)),
    {
        if !self.enabled(op) {
            self.lemma_precedes_reflexive();
        } else {
            match op {
                Op::Sub { parent, deadline } => self.lemma_ctx_sub(parent, deadline),
                Op::Cancel { ctx } => self.lemma_ctx_cancel(ctx),
                Op::Advance { now } => self.lemma_advance(now),
                Op::NewScope { parent } => self.lemma_new_scope(parent),
                Op::Spawn { region, role } => self.lemma_spawn(region, role),
                Op::NewService { host } => self.lemma_new_service(host),
                Op::Finish { task, failure } => self.lemma_finish(task, failure),
                Op::Take { region } => self.lemma_take(region),
            }
        }
    }

    /// Every history keeps the invariant and moves the state forward.
    pub proof fn law_history(self, ops: Seq<Op<E>>)
        requires
            self.inv(),
        ensures
            self.apply_all(ops).inv(),
            self.precedes(self.apply_all(ops)),
        decreases ops.len(),
    {
        if ops.len() == 0 {
            self.lemma_precedes_reflexive();
        } else {
            let mid = self.apply_all(ops.drop_last());
            self.law_history(ops.drop_last());
            mid.law_step(ops.last());
            self.lemma_precedes_transitive(mid, mid.apply(ops.last()));
        }
    }

    /// Every state that a history leads to from the empty runtime meets
    /// the invariant.
    pub proof fn law_reachable(ops: Seq<Op<E>>)
        ensures
            Self::initial().apply_all(ops).inv(),
    {
        Self::lemma_initial();
        Self::initial().law_history(ops);
    }

    /// Once a context is cancelled it is cancelled after every history.
    pub proof fn law_cancel_monotone(self, ops: Seq<Op<E>>, c: Ctx)
        requires
            self.inv(),
            self.ctxs.is_cancelled(c),
        ensures
            self.apply_all(ops).ctxs.is_cancelled(c),
    {
        self.law_history(ops);
    }

    /// Once a region has terminated it has terminated after every
    /// history.
    pub proof fn law_termination_latches(self, ops: Seq<Op<E>>, r: usize)
        requires
            self.inv(),
            self.has_region(r),
            self.terminated(r as int),
        ensures
            self.apply_all(ops).has_region(r),
            self.apply_all(ops).terminated(r as int),
    {
        self.law_history(ops);
        let later = self.apply_all(ops);
        assert(region_precedes(self.regions[r as int], later.regions[r as int]));
    }

    /// A finished task stays as it finished, after every history.
    pub proof fn law_finished_stays(self, ops: Seq<Op<E>>, h: JoinHandle)
        requires
            self.inv(),
            self.has_task(h),
            self.task(h).state !is Running,
        ensures
            self.apply_all(ops).has_task(h),
            self.apply_all(ops).task(h) == self.task(h),
    {
        self.law_history(ops);
        let later = self.apply_all(ops);
        let a = self.regions[h.region as int];
        let b = later.regions[h.region as int];
        assert(region_precedes(a, b));
        assert(task_precedes(a.tasks[h.index as int], b.tasks[h.index as int]));
    }

    /// When a region has terminated, every service created within it has
    /// terminated, and none of their tasks is running: nothing that was
    /// spawned in the region, at any depth, outlives it.
    pub proof fn law_termination(self, top: usize, r: usize, i: int)
        requires
            self.inv(),
            self.has_region(top),
            self.terminated(top as int),
            self.hosted_within(top as int, r as int),
            0 <= i < self.regions[r as int].tasks.len(),
        ensures
            self.terminated(r as int),
            self.regions[r as int].tasks[i].state !is Running,
    {
        self.lemma_terminated_within(top as int, r as int);
        let reg = self.regions[r as int];
        assert(self.region_inv(r as int));
        lemma_live_zero(reg.tasks, Role::Main);
        lemma_live_zero(reg.tasks, Role::Background);
        let t = reg.tasks[i];
        if t.state is Running {
            match t.role {
                Role::Main => {
                    assert(holds(reg.tasks[i], Role::Main));
                },
                Role::Background => {
                    assert(holds(reg.tasks[i], Role::Background));
                },
            }
        }
    }

    /// A region that has terminated has all that was created within it
    /// terminated.
    pub proof fn lemma_terminated_within(self, top: int, r: int)
        requires
            self.inv(),
            0 <= top < self.regions.len(),
            self.terminated(top),
            self.hosted_within(top, r),
        ensures
            self.terminated(r),
        decreases r,
    {
        if r != top {
            let w = self.regions[r].host->0;
            let p = w.region as int;
            self.lemma_terminated_within(top, p);
            assert(self.region_inv(r));
            assert(self.region_inv(p));
            assert(self.task_inv(p, w.index as int));
            let host = self.regions[p];
            lemma_live_zero(host.tasks, Role::Main);
            lemma_live_zero(host.tasks, Role::Background);
            let t = host.tasks[w.index as int];
            if t.state is Running {
                match t.role {
                    Role::Main => {
                        assert(holds(host.tasks[w.index as int], Role::Main));
                    },
                    Role::Background => {
                        assert(holds(
                            host.tasks[w.index as int],
                            Role::Background,
                        ));
                    },
                }
            }
        }
    }

    /// A region hands out the error that was reported first, and no
    /// other: until the outcome is taken, the slot of a region holds the
    /// first of all errors that its tasks have reported. Once an error is
    /// reported the region is cancelled, so that every other task
    /// observes the cancellation.
    pub proof fn law_first_error_wins(self, r: usize)
        requires
            self.inv(),
            self.has_region(r),
            !self.regions[r as int].inner.taken,
        ensures
            self.regions[r as int].inner.outcome() == (if self.regions[r as int].inner.errors.len()
                == 0 {
                Ok::<(), E>(())
            } else {
                Err::<(), E>(self.regions[r as int].inner.errors[0])
            }),
            self.regions[r as int].inner.errors.len() > 0 ==> self.cancelled(r as int),
    {
        assert(self.region_inv(r as int));
    }

    /// The first error of a region stays the first: whatever is reported
    /// later, in any history, the region's outcome is the error that was
    /// reported first.
    pub proof fn law_first_error_kept(self, ops: Seq<Op<E>>, r: usize)
        requires
            self.inv(),
            self.has_region(r),
            self.regions[r as int].inner.errors.len() > 0,
            !self.apply_all(ops).regions[r as int].inner.taken,
        ensures
            self.apply_all(ops).regions[r as int].inner.outcome() == Err::<(), E>(
                self.regions[r as int].inner.errors[0],
            ),
    {
        self.law_history(ops);
        let later = self.apply_all(ops);
        assert(region_precedes(self.regions[r as int], later.regions[r as int]));
        assert(later.region_inv(r as int));
        let a = self.regions[r as int].inner.errors;
        let b = later.regions[r as int].inner.errors;
        assert(a.is_prefix_of(b));
        assert(a[0] == b[0]);
    }

    /// No error is lost: if a task of a region has ended with an error,
    /// the region does not hand out success.
    pub proof fn law_no_silent_loss(self, h: JoinHandle)
        requires
            self.inv(),
            self.has_task(h),
            self.task(h).state is Failed,
            !self.regions[h.region as int].inner.taken,
        ensures
            self.regions[h.region as int].inner.outcome() is Err,
    {
        assert(self.region_inv(h.region as int));
        assert(self.task_inv(h.region as int, h.index as int));
    }

    /// Background tasks do not keep a region from being cancelled: a
    /// region without a running main task is cancelled.
    pub proof fn law_background_does_not_pin(self, r: usize)
        requires
            self.inv(),
            self.has_region(r),
            self.regions[r as int].mains() == 0,
        ensures
            self.cancelled(r as int),
    {
        assert(self.region_inv(r as int));
    }

    /// When the last main task of a region finishes, the region is
    /// cancelled in the very step, whatever background tasks still run.
    pub proof fn law_last_main_cancels(self, h: JoinHandle, failure: Option<E>)
        requires
            self.inv(),
            self.may_finish(h),
            self.task(h).role == Role::Main,
            self.regions[h.region as int].mains() == 1,
        ensures
            self.finish(h, failure).cancelled(h.region as int),
    {
        self.lemma_finish(h, failure);
        let later = self.finish(h, failure);
        let reg = self.regions[h.region as int];
        lemma_live_update(
            reg.tasks,
            h.index as int,
            later.regions[h.region as int].tasks[h.index as int],
            Role::Main,
        );
        assert(later.region_inv(h.region as int));
    }

    /// A region is not terminated before it is cancelled.
    pub proof fn law_terminated_is_cancelled(self, r: usize)
        requires
            self.inv(),
            self.has_region(r),
            self.terminated(r as int),
        ensures
            self.cancelled(r as int),
    {
        assert(self.region_inv(r as int));
    }

    /// The context of a region created within `top` lies below the
    /// context of `top`.
    pub proof fn lemma_ctx_within(self, top: int, r: int)
        requires
            self.inv(),
            self.hosted_within(top, r),
        ensures
            self.ctxs.within(
                self.regions[top].inner.ctx.id as int,
                self.regions[r].inner.ctx.id as int,
            ),
        decreases r,
    {
        assert(self.region_inv(r));
        if r != top {
            let w = self.regions[r].host->0;
            self.lemma_ctx_within(top, w.region as int);
            assert(self.region_inv(w.region as int));
            let c = self.regions[r].inner.ctx.id as int;
            assert(self.ctxs.nodes[c].parent == Some(self.regions[w.region as int].inner.ctx.id));
        }
    }

    /// Letting go of the handle of a service cancels the service, and
    /// every service created within it, at once.
    pub proof fn law_service_drop_cancels(self, service: usize, r: usize)
        requires
            self.inv(),
            self.has_service(service),
            self.hosted_within(service as int, r as int),
        ensures
            self.ctx_cancel(self.regions[service as int].inner.ctx).cancelled(r as int),
    {
        let c = self.regions[service as int].inner.ctx;
        assert(self.region_inv(service as int));
        self.lemma_ctx_within(service as int, r as int);
        self.ctxs.lemma_cancel(c, self.regions[r as int].inner.ctx.id as int);
    }

    /// Cancelling a region, or the context that it was entered from,
    /// cancels every service created within it.
    pub proof fn law_cancellation_reaches_down(self, top: usize, r: usize)
        requires
            self.inv(),
            self.has_region(top),
            self.cancelled(top as int),
            self.hosted_within(top as int, r as int),
        ensures
            self.cancelled(r as int),
    {
        self.lemma_ctx_within(top as int, r as int);
        self.ctxs.lemma_cancelled_reaches_down(
            self.regions[top as int].inner.ctx.id as int,
            self.regions[r as int].inner.ctx.id as int,
        );
    }

    /// A join does not hold a cancelled caller: once the caller's context
    /// is cancelled, every poll of a join has a result, whatever the
    /// joined task does.
    pub proof fn law_join_gives_way(self, h: JoinHandle, caller: Ctx)
        requires
            self.ctxs.is_cancelled(caller),
        ensures
            self.join(h, caller) is Ready,
            self.join_err(h, caller) is Ready,
    {
    }

    /// A service is not cancelled for want of tasks: as long as its
    /// context is not cancelled, its guard task runs, and the service has
    /// not terminated.
    pub proof fn law_service_stays_open(self, service: usize)
        requires
            self.inv(),
            self.has_service(service),
            !self.cancelled(service as int),
        ensures
            !self.terminated(service as int),
            self.regions[service as int].mains() > 0,
    {
        assert(self.region_inv(service as int));
    }
}

} // verus!
