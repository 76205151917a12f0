//! The regions of a runtime as a mathematical state machine.
//!
//! The state is the cancellation tree and, for every region, its shared
//! state, its tasks, and for a service the watcher that its host runs.
//! Each operation of the runtime is a function from state to state here,
//! together with the condition under which it may be taken.

use crate::ctx::{Ctx, CtxState, Deadline, ErrCancelled, wait_spec};
use crate::scope::inner::InnerState;
use crate::scope::task::{Awaits, ErrTaskCancelled, JoinHandle, Role, Task, TaskState, live};
use crate::signal::Poll;
use vstd::prelude::*;

verus! {

/// One region: a scope, or a service.
pub struct RegionState<E> {
    pub inner: InnerState<E>,
    /// For a service, the watcher task that the hosting region runs for it.
    /// `None` for a scope.
    pub host: Option<JoinHandle>,
    /// Every task ever spawned in the region, in order of spawning.
    pub tasks: Seq<Task>,
}

impl<E> RegionState<E> {
    /// How many tasks hold the cancel guard.
    pub open spec fn mains(self) -> nat {
        live(self.tasks, Role::Main)
    }

    /// How many tasks hold the termination guard alone.
    pub open spec fn backgrounds(self) -> nat {
        live(self.tasks, Role::Background)
    }

    /// No task of the region is running.
    pub open spec fn quiet(self) -> bool {
        self.mains() == 0 && self.backgrounds() == 0
    }

    pub open spec fn is_service(self) -> bool {
        self.host is Some
    }
}

/// The task that a region starts with: the root computation of a scope.
pub open spec fn root_task() -> Task {
    Task { role: Role::Main, awaits: Awaits::Work, state: TaskState::Running }
}

/// The task that a service starts with: it holds the service open until
/// the service's context is cancelled.
pub open spec fn guard_task() -> Task {
    Task { role: Role::Main, awaits: Awaits::Cancellation, state: TaskState::Running }
}

/// A task keeps its role and what it awaits; once finished it stays as it
/// finished.
pub open spec fn task_precedes(a: Task, b: Task) -> bool {
    &&& a.role == b.role
    &&& a.awaits == b.awaits
    &&& a.state !is Running ==> b.state == a.state
}

/// The whole state.
pub struct State<E> {
    pub ctxs: CtxState,
    pub regions: Seq<RegionState<E>>,
}

impl<E> State<E> {
    pub open spec fn has_region(self, r: usize) -> bool {
        r < self.regions.len()
    }

    pub open spec fn has_task(self, h: JoinHandle) -> bool {
        self.has_region(h.region) && h.index < self.regions[h.region as int].tasks.len()
    }

    pub open spec fn task(self, h: JoinHandle) -> Task {
        self.regions[h.region as int].tasks[h.index as int]
    }

    /// Whether the context of region `r` is cancelled.
    pub open spec fn cancelled(self, r: int) -> bool {
        self.ctxs.is_cancelled(self.regions[r].inner.ctx)
    }

    /// Whether region `r` has terminated.
    pub open spec fn terminated(self, r: int) -> bool {
        self.regions[r].inner.terminated
    }

    /// What holds of task `i` of region `r` in every reachable state.
    pub open spec fn task_inv(self, r: int, i: int) -> bool {
        let t = self.regions[r].tasks[i];
        &&& t.state is Failed ==> self.regions[r].inner.errors.len() > 0
        &&& match t.awaits {
            Awaits::Work => true,
            Awaits::Cancellation => t.state !is Running ==> self.cancelled(r),
            Awaits::Termination(s) => {
                &&& r < s < self.regions.len()
                &&& t.state !is Running ==> self.terminated(s as int)
            },
        }
    }

    /// What holds of region `r` in every reachable state.
    pub open spec fn region_inv(self, r: int) -> bool {
        let reg = self.regions[r];
        &&& self.ctxs.contains(reg.inner.ctx)
        &&& reg.inner.wf()
        &&& reg.inner.terminated == reg.quiet()
        &&& reg.inner.taken ==> reg.inner.terminated
        &&& reg.mains() == 0 ==> self.cancelled(r)
        &&& reg.inner.errors.len() > 0 ==> self.cancelled(r)
        &&& reg.is_service() ==> reg.backgrounds() == 0
        &&& match reg.host {
            Some(w) => {
                &&& w.region < r <= usize::MAX
                &&& w.index < self.regions[w.region as int].tasks.len()
                &&& self.task(w).awaits == Awaits::Termination(r as usize)
                &&& self.ctxs.nodes[reg.inner.ctx.id as int].parent == Some(
                    self.regions[w.region as int].inner.ctx.id,
                )
            },
            None => true,
        }
        &&& forall|i: int| 0 <= i < reg.tasks.len() ==> #[trigger] self.task_inv(r, i)
    }

    /// The invariant of the runtime.
    pub open spec fn inv(self) -> bool {
        &&& self.ctxs.wf()
        &&& forall|r: int| 0 <= r < self.regions.len() ==> #[trigger] self.region_inv(r)
    }

    /// `later` may come after `self`: nothing that is monotonic has gone
    /// back. Contexts stay cancelled, regions stay terminated, finished
    /// tasks stay finished, and the history of errors only grows.
    pub open spec fn precedes(self, later: State<E>) -> bool {
        &&& self.ctxs.precedes(later.ctxs)
        &&& self.regions.len() <= later.regions.len()
        &&& forall|r: int|
            0 <= r < self.regions.len() ==> region_precedes(
                self.regions[r],
                #[trigger] later.regions[r],
            )
    }

    // ---------------------------------------------------------------
    // The operations
    // ---------------------------------------------------------------
    /// A runtime without regions: the root context alone.
    pub open spec fn initial() -> State<E> {
        State { ctxs: CtxState::root(), regions: Seq::empty() }
    }

    /// Deriving a context.
    pub open spec fn ctx_sub(self, parent: Ctx, deadline: Deadline) -> State<E> {
        State { ctxs: self.ctxs.sub(parent, deadline), ..self }
    }

    /// Cancelling a context.
    pub open spec fn ctx_cancel(self, c: Ctx) -> State<E> {
        State { ctxs: self.ctxs.cancel(c), ..self }
    }

    /// Reading the clock.
    pub open spec fn advance(self, now: u64) -> State<E> {
        State { ctxs: self.ctxs.advance(now), ..self }
    }

    /// Entering a scope from context `parent`: a new region whose context
    /// is a child of `parent`, with the root computation as its one task.
    pub open spec fn new_scope(self, parent: Ctx) -> State<E> {
        State {
            ctxs: self.ctxs.sub(parent, Deadline::Infinite),
            regions: self.regions.push(
                RegionState {
                    inner: InnerState::fresh(Ctx { id: self.ctxs.nodes.len() as usize }),
                    host: None,
                    tasks: seq![root_task()],
                },
            ),
        }
    }

    /// The role that a task asked to spawn in `role` gets in region `r`:
    /// once the cancel guard is gone a main task is a background task.
    pub open spec fn granted(self, r: usize, role: Role) -> Role {
        if role == Role::Main && self.regions[r as int].mains() == 0 {
            Role::Background
        } else {
            role
        }
    }

    /// Whether a task may be spawned in region `r`: the region has not
    /// terminated. In a service every task is a main task.
    pub open spec fn may_spawn(self, r: usize, role: Role) -> bool {
        &&& self.has_region(r)
        &&& !self.terminated(r as int)
        &&& self.regions[r as int].is_service() ==> role == Role::Main
    }

    /// Spawning a task of the user in region `r`.
    pub open spec fn spawn(self, r: usize, role: Role) -> State<E> {
        let reg = self.regions[r as int];
        let t = Task {
            role: self.granted(r, role),
            awaits: Awaits::Work,
            state: TaskState::Running,
        };
        State {
            regions: self.regions.update(
                r as int,
                RegionState { tasks: reg.tasks.push(t), ..reg },
            ),
            ..self
        }
    }

    /// The role of the watcher of a service hosted by region `p`: it holds
    /// the guard that the host's handle stands for.
    pub open spec fn watcher_role(self, p: usize) -> Role {
        if self.regions[p as int].is_service() {
            Role::Main
        } else {
            Role::Background
        }
    }

    /// Whether region `p` may host a new service: it has not terminated.
    pub open spec fn may_host(self, p: usize) -> bool {
        self.has_region(p) && !self.terminated(p as int)
    }

    /// Creating a service hosted by region `p`: a new region whose context
    /// is a child of the host's, with its guard task; and in the host a
    /// watcher that awaits the termination of the new region.
    pub open spec fn new_service(self, p: usize) -> State<E> {
        let host = self.regions[p as int];
        let s = self.regions.len() as usize;
        let watcher = Task {
            role: self.watcher_role(p),
            awaits: Awaits::Termination(s),
            state: TaskState::Running,
        };
        State {
            ctxs: self.ctxs.sub(host.inner.ctx, Deadline::Infinite),
            regions: self.regions.update(
                p as int,
                RegionState { tasks: host.tasks.push(watcher), ..host },
            ).push(
                RegionState {
                    inner: InnerState::fresh(Ctx { id: self.ctxs.nodes.len() as usize }),
                    host: Some(JoinHandle { region: p, index: host.tasks.len() as usize }),
                    tasks: seq![guard_task()],
                },
            ),
        }
    }

    /// Whether task `h` may finish now: it is running, and what it awaits
    /// has happened.
    pub open spec fn may_finish(self, h: JoinHandle) -> bool {
        &&& self.has_task(h)
        &&& self.task(h).state is Running
        &&& match self.task(h).awaits {
            Awaits::Work => true,
            Awaits::Cancellation => self.cancelled(h.region as int),
            Awaits::Termination(s) => s < self.regions.len() && self.terminated(s as int),
        }
    }

    /// Task `h` finishing, with an error or without. An error is reported
    /// to the region before the task lets go of its guard. The cancel
    /// guard goes with its last holder and cancels the region; the
    /// termination guard goes with the last task and fires the
    /// termination signal.
    pub open spec fn finish(self, h: JoinHandle, failure: Option<E>) -> State<E> {
        let reg = self.regions[h.region as int];
        let t = reg.tasks[h.index as int];
        let tasks = reg.tasks.update(
            h.index as int,
            Task {
                state: if failure is Some {
                    TaskState::Failed
                } else {
                    TaskState::Succeeded
                },
                ..t
            },
        );
        let reported = match failure {
            Some(e) => reg.inner.register(e),
            None => reg.inner,
        };
        let won = failure is Some && reg.inner.err is None;
        let guard_gone = t.role == Role::Main && live(tasks, Role::Main) == 0;
        let quiet = live(tasks, Role::Main) == 0 && live(tasks, Role::Background) == 0;
        State {
            ctxs: if won || guard_gone {
                self.ctxs.cancel(reg.inner.ctx)
            } else {
                self.ctxs
            },
            regions: self.regions.update(
                h.region as int,
                RegionState {
                    inner: if quiet {
                        reported.fire()
                    } else {
                        reported
                    },
                    tasks,
                    ..reg
                },
            ),
        }
    }

    /// Region `r` is a scope of this runtime.
    pub open spec fn has_scope(self, r: usize) -> bool {
        self.has_region(r) && !self.regions[r as int].is_service()
    }

    /// Region `r` is a service of this runtime.
    pub open spec fn has_service(self, r: usize) -> bool {
        self.has_region(r) && self.regions[r as int].is_service()
    }

    /// What one poll of the join of task `h` reports to a caller that
    /// runs under `caller`. A task that succeeded is joined at once. A
    /// task that failed is joined, as cancelled, when its region has
    /// terminated. Until then the caller waits, unless it is cancelled.
    pub open spec fn join(self, h: JoinHandle, caller: Ctx) -> Poll<
        Result<Result<(), ErrTaskCancelled>, ErrCancelled>,
    > {
        match self.task(h).state {
            TaskState::Succeeded => Poll::Ready(Ok(Ok(()))),
            TaskState::Failed => wait_spec(
                self.ctxs.is_cancelled(caller),
                if self.terminated(h.region as int) {
                    Poll::Ready(Err(ErrTaskCancelled))
                } else {
                    Poll::Pending
                },
            ),
            TaskState::Running => wait_spec(self.ctxs.is_cancelled(caller), Poll::Pending),
        }
    }

    /// As `join`, but a task that failed is joined with what the
    /// first-error slot of its terminated region holds.
    pub open spec fn join_err(self, h: JoinHandle, caller: Ctx) -> Poll<
        Result<Result<(), Option<E>>, ErrCancelled>,
    > {
        match self.task(h).state {
            TaskState::Succeeded => Poll::Ready(Ok(Ok(()))),
            TaskState::Failed => wait_spec(
                self.ctxs.is_cancelled(caller),
                if self.terminated(h.region as int) {
                    Poll::Ready(Err(self.regions[h.region as int].inner.err))
                } else {
                    Poll::Pending
                },
            ),
            TaskState::Running => wait_spec(self.ctxs.is_cancelled(caller), Poll::Pending),
        }
    }

    /// What one poll of a wait for the termination of region `r` reports
    /// to a caller that runs under `caller`.
    pub open spec fn await_terminated(self, r: usize, caller: Ctx) -> Poll<
        Result<(), ErrCancelled>,
    > {
        wait_spec(
            self.ctxs.is_cancelled(caller),
            if self.terminated(r as int) {
                Poll::Ready(())
            } else {
                Poll::Pending
            },
        )
    }

    /// Handing the outcome of the terminated region `r` out.
    pub open spec fn take(self, r: usize) -> State<E> {
        let reg = self.regions[r as int];
        State {
            regions: self.regions.update(r as int, RegionState { inner: reg.inner.take(), ..reg }),
            ..self
        }
    }
}

/// The error that an outcome carries, if it is one.
pub open spec fn failure_of<E>(outcome: Result<(), E>) -> Option<E> {
    match outcome {
        Ok(_) => None,
        Err(e) => Some(e),
    }
}

/// A region keeps its context and its host; it stays terminated; its
/// tasks and its history of errors only grow.
pub open spec fn region_precedes<E>(a: RegionState<E>, b: RegionState<E>) -> bool {
    &&& a.inner.ctx == b.inner.ctx
    &&& a.host == b.host
    &&& a.inner.terminated ==> b.inner.terminated
    &&& a.inner.taken ==> b.inner.taken
    &&& a.inner.errors.is_prefix_of(b.inner.errors)
    &&& a.tasks.len() <= b.tasks.len()
    &&& forall|i: int| 0 <= i < a.tasks.len() ==> task_precedes(a.tasks[i], #[trigger] b.tasks[i])
}

} // verus!
