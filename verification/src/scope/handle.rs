//! What the tasks of a region get to hold: the scope, the handle of a
//! service, and the handle of a task.

use crate::ctx::{Ctx, ErrCancelled};
use crate::scope::laws::Op;
use crate::scope::model::State;
use crate::scope::runtime::Runtime;
use crate::scope::task::{ErrTaskCancelled, ErrTerminated, JoinHandle, Role, TaskState};
use crate::signal::Poll;
use vstd::prelude::*;

verus! {

/// A scope: a region that is cancelled when its last main task finishes,
/// and that the computation which entered it waits for.
#[derive(Clone, Copy, Debug, PartialEq, Eq, Structural)]
pub struct Scope {
    pub region: usize,
}

/// The handle of a service: a region that lives for as long as its handle,
/// not for as long as it has tasks. Letting go of the handle cancels the
/// service.
#[derive(Debug)]
pub struct Service {
    pub region: usize,
}

/// A new service together with the two tasks that keep it in step with
/// the rest: the executor completes `guard` when the service's context is
/// cancelled, and `watcher` when the service has terminated.
#[derive(Debug)]
pub struct Started {
    pub service: Service,
    pub guard: JoinHandle,
    pub watcher: JoinHandle,
}

/// Enters a scope from the context `parent`. The root computation is the
/// scope's first main task; its handle is returned with the scope.
pub fn new_scope<E>(rt: &mut Runtime<E>, parent: Ctx) -> (entered: (Scope, JoinHandle))
    requires
        old(rt).wf(),
        old(rt)@.ctxs.contains(parent),
    ensures
        final(rt)@ == old(rt)@.new_scope(parent),
        final(rt)@ == old(rt)@.apply(Op::NewScope { parent }),
        final(rt).wf(),
        old(rt)@.precedes(final(rt)@),
        entered.0.region == old(rt)@.regions.len(),
        entered.1 == (JoinHandle { region: entered.0.region, index: 0 }),
        final(rt)@.has_scope(entered.0.region),
        final(rt)@.has_task(entered.1),
        !final(rt)@.terminated(entered.0.region as int),
        final(rt)@.cancelled(entered.0.region as int) == old(rt)@.ctxs.is_cancelled(parent),
{
    let region = rt.new_scope(parent);
    (Scope { region }, JoinHandle { region, index: 0 })
}

/// The end of a scope: one poll of the computation that entered it. It
/// stays pending until every task of the scope has finished; then it
/// hands out the error that was reported first, or success if no task
/// reported one.
pub fn run<E>(rt: &mut Runtime<E>, scope: Scope) -> (p: Poll<Result<(), E>>)
    requires
        old(rt).wf(),
        old(rt)@.has_scope(scope.region),
    ensures
        p == (if old(rt)@.terminated(scope.region as int) {
            Poll::Ready(old(rt)@.regions[scope.region as int].inner.outcome())
        } else {
            Poll::<Result<(), E>>::Pending
        }),
        final(rt)@ == (if old(rt)@.terminated(scope.region as int) {
            old(rt)@.take(scope.region)
        } else {
            old(rt)@
        }),
        final(rt)@ == old(rt)@.apply(Op::Take { region: scope.region }),
        final(rt).wf(),
        old(rt)@.precedes(final(rt)@),
{
    rt.run(scope.region)
}

impl Scope {
    /// The context that the tasks of the scope run under.
    pub fn ctx<E>(&self, rt: &Runtime<E>) -> (c: Ctx)
        requires
            rt.wf(),
            rt@.has_scope(self.region),
        ensures
            c == rt@.regions[self.region as int].inner.ctx,
            rt@.ctxs.contains(c),
    {
        rt.ctx_of(self.region)
    }

    /// Spawns a main task. The scope is cancelled once all its main tasks
    /// have finished. If they already have, the task is a background
    /// task. Fails exactly if the scope has terminated.
    pub fn spawn<E>(&self, rt: &mut Runtime<E>) -> (res: Result<JoinHandle, ErrTerminated>)
        requires
            old(rt).wf(),
            old(rt)@.has_scope(self.region),
        ensures
            res is Err == old(rt)@.terminated(self.region as int),
            res is Err ==> final(rt)@ == old(rt)@,
            final(rt)@ == old(rt)@.apply(Op::Spawn { region: self.region, role: Role::Main }),
            res matches Ok(h) ==> {
                &&& final(rt)@ == old(rt)@.spawn(self.region, Role::Main)
                &&& h == (JoinHandle {
                    region: self.region,
                    index: old(rt)@.regions[self.region as int].tasks.len() as usize,
                })
                &&& final(rt)@.has_task(h)
                &&& final(rt)@.task(h).role == old(rt)@.granted(self.region, Role::Main)
                &&& final(rt)@.task(h).state is Running
            },
            final(rt).wf(),
            old(rt)@.precedes(final(rt)@),
    {
        if rt.is_terminated(self.region) {
            proof {
                old(rt)@.lemma_precedes_reflexive();
            }
            return Err(ErrTerminated);
        }
        Ok(rt.spawn(self.region, Role::Main))
    }

    /// Spawns a background task: it does not keep the scope from being
    /// cancelled, but the scope does not terminate before it has
    /// finished. Fails exactly if the scope has terminated.
    pub fn spawn_bg<E>(&self, rt: &mut Runtime<E>) -> (res: Result<JoinHandle, ErrTerminated>)
        requires
            old(rt).wf(),
            old(rt)@.has_scope(self.region),
        ensures
            res is Err == old(rt)@.terminated(self.region as int),
            res is Err ==> final(rt)@ == old(rt)@,
            final(rt)@ == old(rt)@.apply(Op::Spawn { region: self.region, role: Role::Background }),
            res matches Ok(h) ==> {
                &&& final(rt)@ == old(rt)@.spawn(self.region, Role::Background)
                &&& h == (JoinHandle {
                    region: self.region,
                    index: old(rt)@.regions[self.region as int].tasks.len() as usize,
                })
                &&& final(rt)@.has_task(h)
                &&& final(rt)@.task(h).role == Role::Background
                &&& final(rt)@.task(h).state is Running
            },
            final(rt).wf(),
            old(rt)@.precedes(final(rt)@),
    {
        if rt.is_terminated(self.region) {
            proof {
                old(rt)@.lemma_precedes_reflexive();
            }
            return Err(ErrTerminated);
        }
        Ok(rt.spawn(self.region, Role::Background))
    }

    /// Creates a service in the scope. The service does not keep the
    /// scope from being cancelled, but the scope does not terminate
    /// before the service has. Fails exactly if the scope has terminated.
    pub fn new_service<E>(&self, rt: &mut Runtime<E>) -> (res: Result<Started, ErrTerminated>)
        requires
            old(rt).wf(),
            old(rt)@.has_scope(self.region),
        ensures
            res is Err == old(rt)@.terminated(self.region as int),
            res is Err ==> final(rt)@ == old(rt)@,
            final(rt)@ == old(rt)@.apply(Op::NewService { host: self.region }),
            res matches Ok(s) ==> started(old(rt)@, final(rt)@, self.region, s),
            final(rt).wf(),
            old(rt)@.precedes(final(rt)@),
    {
        start_service(rt, self.region)
    }
}

/// What holds when region `host` has started the service `s`.
pub open spec fn started<E>(
    before: State<E>,
    after: State<E>,
    host: usize,
    s: Started,
) -> bool {
    &&& after == before.new_service(host)
    &&& s.service.region == before.regions.len()
    &&& s.guard == (JoinHandle { region: s.service.region, index: 0 })
    &&& s.watcher == (JoinHandle {
        region: host,
        index: before.regions[host as int].tasks.len() as usize,
    })
    &&& after.has_service(s.service.region)
    &&& after.has_task(s.guard)
    &&& after.has_task(s.watcher)
    &&& !after.terminated(s.service.region as int)
    &&& after.cancelled(s.service.region as int) == before.cancelled(host as int)
}

/// Creates a service hosted by region `host`, unless that has terminated.
fn start_service<E>(rt: &mut Runtime<E>, host: usize) -> (res: Result<Started, ErrTerminated>)
    requires
        old(rt).wf(),
        old(rt)@.has_region(host),
    ensures
        res is Err == old(rt)@.terminated(host as int),
        res is Err ==> final(rt)@ == old(rt)@,
        res matches Ok(s) ==> started(old(rt)@, final(rt)@, host, s),
        final(rt)@ == old(rt)@.apply(Op::NewService { host }),
        final(rt).wf(),
        old(rt)@.precedes(final(rt)@),
{
    if rt.is_terminated(host) {
        proof {
            old(rt)@.lemma_precedes_reflexive();
        }
        return Err(ErrTerminated);
    }
    let index = rt.task_count(host);
    let region = rt.new_service(host);
    Ok(
        Started {
            service: Service { region },
            guard: JoinHandle { region, index: 0 },
            watcher: JoinHandle { region: host, index },
        },
    )
}

impl Service {
    /// The context that the tasks of the service run under.
    pub fn ctx<E>(&self, rt: &Runtime<E>) -> (c: Ctx)
        requires
            rt.wf(),
            rt@.has_service(self.region),
        ensures
            c == rt@.regions[self.region as int].inner.ctx,
            rt@.ctxs.contains(c),
    {
        rt.ctx_of(self.region)
    }

    /// Non-suspending probe: whether the service has terminated.
    pub fn is_terminated<E>(&self, rt: &Runtime<E>) -> (b: bool)
        requires
            rt@.has_service(self.region),
        ensures
            b == rt@.terminated(self.region as int),
    {
        rt.is_terminated(self.region)
    }

    /// Spawns a task in the service. Fails exactly if the service has
    /// terminated.
    pub fn spawn<E>(&self, rt: &mut Runtime<E>) -> (res: Result<JoinHandle, ErrTerminated>)
        requires
            old(rt).wf(),
            old(rt)@.has_service(self.region),
        ensures
            res is Err == old(rt)@.terminated(self.region as int),
            res is Err ==> final(rt)@ == old(rt)@,
            final(rt)@ == old(rt)@.apply(Op::Spawn { region: self.region, role: Role::Main }),
            res matches Ok(h) ==> {
                &&& final(rt)@ == old(rt)@.spawn(self.region, Role::Main)
                &&& h == (JoinHandle {
                    region: self.region,
                    index: old(rt)@.regions[self.region as int].tasks.len() as usize,
                })
                &&& final(rt)@.has_task(h)
                &&& final(rt)@.task(h).role == Role::Main
                &&& final(rt)@.task(h).state is Running
            },
            final(rt).wf(),
            old(rt)@.precedes(final(rt)@),
    {
        if rt.is_terminated(self.region) {
            proof {
                old(rt)@.lemma_precedes_reflexive();
            }
            return Err(ErrTerminated);
        }
        proof {
            assert(old(rt)@.region_inv(self.region as int));
        }
        Ok(rt.spawn(self.region, Role::Main))
    }

    /// Creates a service inside this one. Fails exactly if this service
    /// has terminated.
    pub fn new_service<E>(&self, rt: &mut Runtime<E>) -> (res: Result<Started, ErrTerminated>)
        requires
            old(rt).wf(),
            old(rt)@.has_service(self.region),
        ensures
            res is Err == old(rt)@.terminated(self.region as int),
            res is Err ==> final(rt)@ == old(rt)@,
            final(rt)@ == old(rt)@.apply(Op::NewService { host: self.region }),
            res matches Ok(s) ==> started(old(rt)@, final(rt)@, self.region, s),
            final(rt).wf(),
            old(rt)@.precedes(final(rt)@),
    {
        start_service(rt, self.region)
    }

    /// One poll of a wait for the termination of the service by a caller
    /// that runs under `caller`.
    pub fn terminated<E>(&self, rt: &Runtime<E>, caller: Ctx) -> (p: Poll<
        Result<(), ErrCancelled>,
    >)
        requires
            rt.wf(),
            rt@.has_service(self.region),
            rt@.ctxs.contains(caller),
        ensures
            p == rt@.await_terminated(self.region, caller),
    {
        let inner = if rt.is_terminated(self.region) {
            Poll::Ready(())
        } else {
            Poll::Pending
        };
        rt.wait(caller, inner)
    }

    /// Cancels the service, and polls once for its termination as
    /// `terminated` does.
    pub fn terminate<E>(&self, rt: &mut Runtime<E>, caller: Ctx) -> (p: Poll<
        Result<(), ErrCancelled>,
    >)
        requires
            old(rt).wf(),
            old(rt)@.has_service(self.region),
            old(rt)@.ctxs.contains(caller),
        ensures
            final(rt)@ == old(rt)@.ctx_cancel(old(rt)@.regions[self.region as int].inner.ctx),
            final(rt)@ == old(rt)@.apply(
                Op::Cancel { ctx: old(rt)@.regions[self.region as int].inner.ctx },
            ),
            final(rt)@.cancelled(self.region as int),
            p == final(rt)@.await_terminated(self.region, caller),
            final(rt).wf(),
            old(rt)@.precedes(final(rt)@),
    {
        let c = rt.ctx_of(self.region);
        rt.cancel(c);
        self.terminated(rt, caller)
    }

    /// Lets go of the handle: the service is cancelled.
    pub fn release<E>(self, rt: &mut Runtime<E>)
        requires
            old(rt).wf(),
            old(rt)@.has_service(self.region),
        ensures
            final(rt)@ == old(rt)@.ctx_cancel(old(rt)@.regions[self.region as int].inner.ctx),
            final(rt)@ == old(rt)@.apply(
                Op::Cancel { ctx: old(rt)@.regions[self.region as int].inner.ctx },
            ),
            final(rt)@.cancelled(self.region as int),
            final(rt).wf(),
            old(rt)@.precedes(final(rt)@),
    {
        let c = rt.ctx_of(self.region);
        rt.cancel(c);
    }
}

impl JoinHandle {
    /// One poll of the join of the task by a caller that runs under
    /// `caller`.
    pub fn join<E>(&self, rt: &Runtime<E>, caller: Ctx) -> (p: Poll<
        Result<Result<(), ErrTaskCancelled>, ErrCancelled>,
    >)
        requires
            rt.wf(),
            rt@.has_task(*self),
            rt@.ctxs.contains(caller),
        ensures
            p == rt@.join(*self, caller),
    {
        match rt.task(*self).state {
            TaskState::Succeeded => Poll::Ready(Ok(Ok(()))),
            TaskState::Failed => {
                let inner = if rt.is_terminated(self.region) {
                    Poll::Ready(Err(ErrTaskCancelled))
                } else {
                    Poll::Pending
                };
                rt.wait(caller, inner)
            },
            TaskState::Running => rt.wait(caller, Poll::Pending),
        }
    }

    /// As `join`, but a task that failed is joined with the error that its
    /// region reported first: what the first-error slot holds once the
    /// region has terminated.
    pub fn join_err<'a, E>(&self, rt: &'a Runtime<E>, caller: Ctx) -> (p: Poll<
        Result<Result<(), Option<&'a E>>, ErrCancelled>,
    >)
        requires
            rt.wf(),
            rt@.has_task(*self),
            rt@.ctxs.contains(caller),
        ensures
            match p {
                Poll::Pending => rt@.join_err(*self, caller) is Pending,
                Poll::Ready(Err(_)) => rt@.join_err(*self, caller) == Poll::Ready(
                    Err::<Result<(), Option<E>>, ErrCancelled>(ErrCancelled),
                ),
                Poll::Ready(Ok(Ok(_))) => rt@.join_err(*self, caller) == Poll::Ready(
                    Ok::<Result<(), Option<E>>, ErrCancelled>(Ok(())),
                ),
                Poll::Ready(Ok(Err(Some(e)))) => rt@.join_err(*self, caller) == Poll::Ready(
                    Ok::<Result<(), Option<E>>, ErrCancelled>(Err(Some(*e))),
                ),
                Poll::Ready(Ok(Err(None))) => rt@.join_err(*self, caller) == Poll::Ready(
                    Ok::<Result<(), Option<E>>, ErrCancelled>(Err(None)),
                ),
            },
    {
        match rt.task(*self).state {
            TaskState::Succeeded => Poll::Ready(Ok(Ok(()))),
            TaskState::Failed => {
                if rt.is_terminated(self.region) {
                    Poll::Ready(Ok(Err(rt.first_error(self.region))))
                } else if rt.is_cancelled(caller) {
                    Poll::Ready(Err(ErrCancelled))
                } else {
                    Poll::Pending
                }
            },
            TaskState::Running => {
                if rt.is_cancelled(caller) {
                    Poll::Ready(Err(ErrCancelled))
                } else {
                    Poll::Pending
                }
            },
        }
    }
}

} // verus!
