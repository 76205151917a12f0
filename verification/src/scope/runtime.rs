//! The runtime: the cancellation tree and all regions, with the guards of
//! every region kept as counts of their holders.

use crate::ctx::{Ctx, CtxTree, Deadline, ErrCancelled, wait_spec};
use crate::scope::guard::{CancelGuard, Holders, TerminateGuard};
use crate::scope::inner::Inner;
use crate::scope::laws::Op;
use crate::scope::model::{RegionState, State, failure_of, guard_task, root_task};
use crate::scope::task::{
    Awaits,
    JoinHandle,
    Role,
    Task,
    TaskState,
    lemma_live_push,
    lemma_live_total,
    lemma_live_update,
    live,
};
use crate::signal::Poll;
use vstd::prelude::*;

verus! {

/// One region of the runtime.
pub struct Region<E> {
    inner: Inner<E>,
    host: Option<JoinHandle>,
    tasks: Vec<Task>,
    /// Held by the running main tasks.
    cancel_guard: CancelGuard,
    /// Held by the running background tasks, and by the cancel guard
    /// for as long as that has a holder.
    terminate_guard: TerminateGuard,
}

impl<E> View for Region<E> {
    type V = RegionState<E>;

    closed spec fn view(&self) -> RegionState<E> {
        RegionState { inner: self.inner@, host: self.host, tasks: self.tasks@ }
    }
}

impl<E> Region<E> {
    /// The two counts say how many tasks hold each guard.
    closed spec fn counted(&self) -> bool {
        &&& self.cancel_guard.0@ == live(self.tasks@, Role::Main)
        &&& self.terminate_guard.0@ == live(self.tasks@, Role::Background) + if self.cancel_guard.0@
            > 0 {
            1nat
        } else {
            0nat
        }
    }
}

/// The cancellation tree and every region entered so far.
pub struct Runtime<E> {
    ctxs: CtxTree,
    regions: Vec<Region<E>>,
}

impl<E> View for Runtime<E> {
    type V = State<E>;

    closed spec fn view(&self) -> State<E> {
        State {
            ctxs: self.ctxs@,
            regions: Seq::new(self.regions@.len(), |i: int| self.regions@[i]@),
        }
    }
}

impl<E> Runtime<E> {
    /// The guard counts of every region are right.
    pub closed spec fn counted(&self) -> bool {
        forall|r: int| 0 <= r < self.regions@.len() ==> (#[trigger] self.regions@[r]).counted()
    }

    /// The runtime is in a reachable state.
    pub open spec fn wf(&self) -> bool {
        self@.inv() && self.counted()
    }

    /// A runtime that holds the root context and no region.
    pub fn new() -> (rt: Runtime<E>)
        ensures
            rt@ == State::<E>::initial(),
            rt.wf(),
    {
        let rt = Runtime { ctxs: CtxTree::new(), regions: Vec::new() };
        assert(rt@.regions =~= State::<E>::initial().regions);
        rt
    }

    /// The root context: no deadline, cancelled only when told so.
    pub fn root(&self) -> (c: Ctx)
        ensures
            c == (Ctx { id: 0 }),
            self.wf() ==> self@.ctxs.contains(c),
    {
        self.ctxs.root()
    }

    /// Whether `c` names a context of this runtime.
    pub fn has_ctx(&self, c: Ctx) -> (b: bool)
        ensures
            b == self@.ctxs.contains(c),
    {
        self.ctxs.contains(c)
    }

    /// Whether `h` names a task of this runtime.
    pub fn has_task(&self, h: JoinHandle) -> (b: bool)
        ensures
            b == self@.has_task(h),
    {
        h.region < self.regions.len() && h.index < self.regions[h.region].tasks.len()
    }

    /// Derives a child of `parent` with a deadline.
    pub fn sub(&mut self, parent: Ctx, deadline: Deadline) -> (child: Ctx)
        requires
            old(self).wf(),
            old(self)@.ctxs.contains(parent),
        ensures
            final(self)@ == old(self)@.ctx_sub(parent, deadline),
            final(self)@ == old(self)@.apply(Op::Sub { parent, deadline }),
            final(self).wf(),
            old(self)@.precedes(final(self)@),
            child.id == old(self)@.ctxs.nodes.len(),
            final(self)@.ctxs.contains(child),
            final(self)@.ctxs.is_cancelled(child) == (old(self)@.ctxs.is_cancelled(parent) || old(
                self,
            )@.ctxs.child_deadline(parent, deadline).elapsed(old(self)@.ctxs.now)),
    {
        let child = self.ctxs.sub(parent, deadline);
        proof {
            assert(self@.regions =~= old(self)@.regions);
            old(self)@.lemma_ctx_sub(parent, deadline);
        }
        child
    }

    /// Cancels `c`, and with it every context below it.
    pub fn cancel(&mut self, c: Ctx)
        requires
            old(self).wf(),
            old(self)@.ctxs.contains(c),
        ensures
            final(self)@ == old(self)@.ctx_cancel(c),
            final(self)@ == old(self)@.apply(Op::Cancel { ctx: c }),
            final(self).wf(),
            old(self)@.precedes(final(self)@),
            final(self)@.ctxs.is_cancelled(c),
            forall|x: Ctx|
                old(self)@.ctxs.contains(x) ==> #[trigger] final(self)@.ctxs.is_cancelled(x) == (
                old(self)@.ctxs.is_cancelled(x) || old(self)@.ctxs.within(
                    c.id as int,
                    x.id as int,
                )),
    {
        self.ctxs.cancel(c);
        proof {
            assert(self@.regions =~= old(self)@.regions);
            old(self)@.lemma_ctx_cancel(c);
        }
    }

    /// Hands the runtime a reading of the monotonic clock.
    pub fn advance(&mut self, now: u64)
        requires
            old(self).wf(),
        ensures
            final(self)@ == old(self)@.advance(now),
            final(self)@ == old(self)@.apply(Op::Advance { now }),
            final(self).wf(),
            old(self)@.precedes(final(self)@),
            forall|x: Ctx|
                old(self)@.ctxs.contains(x) ==> #[trigger] final(self)@.ctxs.is_cancelled(x) == (
                old(self)@.ctxs.is_cancelled(x) || old(
                    self,
                )@.ctxs.nodes[x.id as int].deadline.elapsed(now)),
    {
        self.ctxs.advance(now);
        proof {
            assert(self@.regions =~= old(self)@.regions);
            old(self)@.lemma_advance(now);
        }
    }

    /// Non-suspending probe: whether `c` is cancelled.
    pub fn is_cancelled(&self, c: Ctx) -> (b: bool)
        requires
            self.wf(),
            self@.ctxs.contains(c),
        ensures
            b == self@.ctxs.is_cancelled(c),
    {
        self.ctxs.is_cancelled(c)
    }

    /// One poll of a task that awaits the cancellation of `c`.
    pub fn cancelled(&self, c: Ctx) -> (p: Poll<()>)
        requires
            self.wf(),
            self@.ctxs.contains(c),
        ensures
            p == (if self@.ctxs.is_cancelled(c) {
                Poll::Ready(())
            } else {
                Poll::<()>::Pending
            }),
    {
        self.ctxs.cancelled(c)
    }

    /// One poll of a computation that runs under `c` and reported `inner`.
    pub fn wait<T>(&self, c: Ctx, inner: Poll<T>) -> (p: Poll<Result<T, ErrCancelled>>)
        requires
            self.wf(),
            self@.ctxs.contains(c),
        ensures
            p == wait_spec(self@.ctxs.is_cancelled(c), inner),
    {
        self.ctxs.wait(c, inner)
    }

    /// The deadline of `c`.
    pub fn deadline(&self, c: Ctx) -> (d: Deadline)
        requires
            self@.ctxs.contains(c),
        ensures
            d == self@.ctxs.nodes[c.id as int].deadline,
    {
        self.ctxs.deadline(c)
    }

    /// Enters a scope from the context `parent`: allocates the region
    /// with a child context of `parent`, spawns the root computation as
    /// its first main task, and lets go of the guard that the entry
    /// itself held. Returns the number of the region; the root task is
    /// its task 0.
    pub(crate) fn new_scope(&mut self, parent: Ctx) -> (r: usize)
        requires
            old(self).wf(),
            old(self)@.ctxs.contains(parent),
        ensures
            final(self)@ == old(self)@.new_scope(parent),
            final(self)@ == old(self)@.apply(Op::NewScope { parent }),
            final(self).wf(),
            old(self)@.precedes(final(self)@),
            r == old(self)@.regions.len(),
            final(self)@.has_scope(r),
            final(self)@.regions[r as int].tasks.len() == 1,
            !final(self)@.terminated(r as int),
            final(self)@.cancelled(r as int) == old(self)@.ctxs.is_cancelled(parent),
    {
        let r = self.regions.len();
        let inner = Inner::new(&mut self.ctxs, parent);
        let mut tasks: Vec<Task> = Vec::new();
        tasks.push(Task { role: Role::Main, awaits: Awaits::Work, state: TaskState::Running });
        self.regions.push(
            Region {
                inner,
                host: None,
                tasks,
                cancel_guard: CancelGuard(Holders::new(1)),
                terminate_guard: TerminateGuard(Holders::new(1)),
            },
        );
        proof {
            let pre = old(self)@;
            assert(self.regions@[r as int]@.tasks =~= seq![root_task()]);
            assert(self@.regions =~= pre.new_scope(parent).regions);
            pre.lemma_new_scope(parent);
            lemma_live_push(Seq::empty(), root_task(), Role::Main);
            lemma_live_push(Seq::empty(), root_task(), Role::Background);
            assert(seq![root_task()] =~= Seq::empty().push(root_task()));
            assert forall|x: int| 0 <= x < self.regions@.len() implies (
            #[trigger] self.regions@[x]).counted() by {
                if x < r {
                    assert(self.regions@[x] == old(self).regions@[x]);
                }
            }
        }
        r
    }

    /// Spawns a task of the user in region `r`, in the role that the
    /// region grants. Returns the task's place in the region.
    pub(crate) fn spawn(&mut self, r: usize, role: Role) -> (h: JoinHandle)
        requires
            old(self).wf(),
            old(self)@.may_spawn(r, role),
        ensures
            final(self)@ == old(self)@.spawn(r, role),
            final(self)@ == old(self)@.apply(Op::Spawn { region: r, role }),
            final(self).wf(),
            old(self)@.precedes(final(self)@),
            h == (JoinHandle { region: r, index: old(self)@.regions[r as int].tasks.len() as usize }),
            final(self)@.has_task(h),
            final(self)@.task(h) == (Task {
                role: old(self)@.granted(r, role),
                awaits: Awaits::Work,
                state: TaskState::Running,
            }),
    {
        let index = self.regions[r].tasks.len();
        let granted = match role {
            Role::Main => if self.regions[r].cancel_guard.0.is_gone() {
                Role::Background
            } else {
                Role::Main
            },
            Role::Background => Role::Background,
        };
        let t = Task { role: granted, awaits: Awaits::Work, state: TaskState::Running };
        assert(old(self).regions@[r as int].counted());
        self.regions[r].tasks.push(t);
        proof {
            let before = old(self).regions@[r as int].tasks@;
            assert(self.regions@[r as int].tasks.len() <= usize::MAX);
            lemma_live_total(before);
            lemma_live_push(before, t, Role::Main);
            lemma_live_push(before, t, Role::Background);
        }
        match granted {
            Role::Main => {
                self.regions[r].cancel_guard.0.acquire();
            },
            Role::Background => {
                self.regions[r].terminate_guard.0.acquire();
            },
        }
        proof {
            let pre = old(self)@;
            assert(self@.regions =~= pre.spawn(r, role).regions);
            pre.lemma_spawn(r, role);
            assert forall|x: int| 0 <= x < self.regions@.len() implies (
            #[trigger] self.regions@[x]).counted() by {
                if x != r {
                    assert(self.regions@[x] == old(self).regions@[x]);
                }
            }
        }
        JoinHandle { region: r, index }
    }

    /// Creates a service hosted by region `p`. Returns the number of the
    /// new region; its guard task is its task 0, and its watcher is the
    /// task of the host that was spawned last.
    pub(crate) fn new_service(&mut self, p: usize) -> (s: usize)
        requires
            old(self).wf(),
            old(self)@.may_host(p),
        ensures
            final(self)@ == old(self)@.new_service(p),
            final(self)@ == old(self)@.apply(Op::NewService { host: p }),
            final(self).wf(),
            old(self)@.precedes(final(self)@),
            s == old(self)@.regions.len(),
            final(self)@.has_service(s),
            final(self)@.regions[s as int].host == Some(
                JoinHandle { region: p, index: old(self)@.regions[p as int].tasks.len() as usize },
            ),
            final(self)@.regions[s as int].tasks.len() == 1,
            final(self)@.regions[p as int].tasks.len() == old(self)@.regions[p as int].tasks.len()
                + 1,
            !final(self)@.terminated(s as int),
            final(self)@.cancelled(s as int) == old(self)@.cancelled(p as int),
    {
        let s = self.regions.len();
        let index = self.regions[p].tasks.len();
        let role = if self.regions[p].host.is_some() {
            Role::Main
        } else {
            Role::Background
        };
        let watcher = Task { role, awaits: Awaits::Termination(s), state: TaskState::Running };
        let parent = self.regions[p].inner.ctx();
        assert(old(self).regions@[p as int].counted());
        assert(old(self)@.region_inv(p as int));
        self.regions[p].tasks.push(watcher);
        proof {
            let before = old(self).regions@[p as int].tasks@;
            assert(self.regions@[p as int].tasks.len() <= usize::MAX);
            lemma_live_total(before);
            lemma_live_push(before, watcher, Role::Main);
            lemma_live_push(before, watcher, Role::Background);
        }
        match role {
            Role::Main => {
                self.regions[p].cancel_guard.0.acquire();
            },
            Role::Background => {
                self.regions[p].terminate_guard.0.acquire();
            },
        }
        let inner = Inner::new(&mut self.ctxs, parent);
        let mut tasks: Vec<Task> = Vec::new();
        tasks.push(Task { role: Role::Main, awaits: Awaits::Cancellation, state: TaskState::Running });
        self.regions.push(
            Region {
                inner,
                host: Some(JoinHandle { region: p, index }),
                tasks,
                cancel_guard: CancelGuard(Holders::new(1)),
                terminate_guard: TerminateGuard(Holders::new(1)),
            },
        );
        proof {
            let pre = old(self)@;
            assert(self.regions.len() <= usize::MAX);
            assert(self.regions@[s as int]@.tasks =~= seq![guard_task()]);
            assert(self@.regions =~= pre.new_service(p).regions);
            pre.lemma_new_service(p);
            lemma_live_push(Seq::empty(), guard_task(), Role::Main);
            lemma_live_push(Seq::empty(), guard_task(), Role::Background);
            assert(seq![guard_task()] =~= Seq::empty().push(guard_task()));
            assert forall|x: int| 0 <= x < self.regions@.len() implies (
            #[trigger] self.regions@[x]).counted() by {
                if x != p && x < s {
                    assert(self.regions@[x] == old(self).regions@[x]);
                }
            }
        }
        s
    }

    /// Whether task `h` may finish now.
    pub fn may_finish(&self, h: JoinHandle) -> (b: bool)
        requires
            self.wf(),
        ensures
            b == self@.may_finish(h),
    {
        if !self.has_task(h) {
            return false;
        }
        let t = self.regions[h.region].tasks[h.index];
        match t.state {
            TaskState::Running => {},
            _ => {
                return false;
            },
        }
        assert(self@.region_inv(h.region as int));
        match t.awaits {
            Awaits::Work => true,
            Awaits::Cancellation => self.ctxs.is_cancelled(self.regions[h.region].inner.ctx()),
            Awaits::Termination(s) => s < self.regions.len() && self.regions[s].inner.is_terminated(),
        }
    }

    /// Task `h` has finished with `outcome`. An error is reported to the
    /// region first; then the task lets go of its guard, which cancels
    /// the region if it was the last main task, and fires the region's
    /// termination signal if it was the last task of all. A task that may
    /// not finish now is refused, and nothing changes.
    pub fn finish(&mut self, h: JoinHandle, outcome: Result<(), E>) -> (accepted: bool)
        requires
            old(self).wf(),
        ensures
            accepted == old(self)@.may_finish(h),
            final(self)@ == (if accepted {
                old(self)@.finish(h, failure_of(outcome))
            } else {
                old(self)@
            }),
            final(self)@ == old(self)@.apply(Op::Finish { task: h, failure: failure_of(outcome) }),
            final(self).wf(),
            old(self)@.precedes(final(self)@),
    {
        if !self.may_finish(h) {
            proof {
                old(self)@.lemma_precedes_reflexive();
            }
            return false;
        }
        let r = h.region;
        let t = self.regions[r].tasks[h.index];
        let done = Task {
            role: t.role,
            awaits: t.awaits,
            state: if outcome.is_err() {
                TaskState::Failed
            } else {
                TaskState::Succeeded
            },
        };
        assert(old(self).regions@[r as int].counted());
        assert(old(self)@.region_inv(r as int));
        proof {
            let before = old(self).regions@[r as int].tasks@;
            lemma_live_update(before, h.index as int, done, Role::Main);
            lemma_live_update(before, h.index as int, done, Role::Background);
        }
        self.regions[r].tasks[h.index] = done;
        match outcome {
            Err(e) => {
                self.regions[r].inner.register(&mut self.ctxs, e);
            },
            Ok(_) => {},
        }
        match t.role {
            Role::Main => {
                // The last main task takes the cancel guard with it: the
                // region is cancelled, and the guard lets go of the
                // termination guard.
                if self.regions[r].cancel_guard.0.release() {
                    let c = self.regions[r].inner.ctx();
                    self.ctxs.cancel(c);
                    self.regions[r].terminate_guard.0.release();
                }
            },
            Role::Background => {
                self.regions[r].terminate_guard.0.release();
            },
        }
        if self.regions[r].terminate_guard.0.is_gone() {
            self.regions[r].inner.fire();
        }
        proof {
            let pre = old(self)@;
            let post = pre.finish(h, failure_of(outcome));
            assert(self@.ctxs.nodes =~= post.ctxs.nodes);
            assert(self@.regions[r as int].tasks =~= post.regions[r as int].tasks);
            assert(self@.regions[r as int].inner == post.regions[r as int].inner);
            assert(self@.regions =~= post.regions);
            pre.lemma_finish(h, failure_of(outcome));
            assert forall|x: int| 0 <= x < self.regions@.len() implies (
            #[trigger] self.regions@[x]).counted() by {
                if x != r {
                    assert(self.regions@[x] == old(self).regions@[x]);
                }
            }
        }
        true
    }

    /// The last step of a scope: one poll of the wait for the region's
    /// termination. Once the region has terminated, this hands out the
    /// error that was reported first, or success if none was; the error
    /// is moved out of the slot.
    pub(crate) fn run(&mut self, r: usize) -> (p: Poll<Result<(), E>>)
        requires
            old(self).wf(),
            old(self)@.has_region(r),
        ensures
            p == (if old(self)@.terminated(r as int) {
                Poll::Ready(old(self)@.regions[r as int].inner.outcome())
            } else {
                Poll::<Result<(), E>>::Pending
            }),
            final(self)@ == (if old(self)@.terminated(r as int) {
                old(self)@.take(r)
            } else {
                old(self)@
            }),
            final(self)@ == old(self)@.apply(Op::Take { region: r }),
            final(self).wf(),
            old(self)@.precedes(final(self)@),
    {
        assert(old(self)@.region_inv(r as int));
        let p = self.regions[r].inner.terminated_take();
        proof {
            let pre = old(self)@;
            if pre.terminated(r as int) {
                assert(self@.regions =~= pre.take(r).regions);
                pre.lemma_take(r);
            } else {
                assert(self@.regions =~= pre.regions);
                pre.lemma_precedes_reflexive();
            }
            assert forall|x: int| 0 <= x < self.regions@.len() implies (
            #[trigger] self.regions@[x]).counted() by {
                if x != r {
                    assert(self.regions@[x] == old(self).regions@[x]);
                }
            }
        }
        p
    }

    /// Non-suspending probe: whether region `r` has terminated.
    pub fn is_terminated(&self, r: usize) -> (b: bool)
        requires
            self@.has_region(r),
        ensures
            b == self@.terminated(r as int),
    {
        self.regions[r].inner.is_terminated()
    }

    /// Whether region `r` is a service.
    pub fn is_service(&self, r: usize) -> (b: bool)
        requires
            self@.has_region(r),
        ensures
            b == self@.regions[r as int].is_service(),
    {
        self.regions[r].host.is_some()
    }

    /// Whether `r` names a region of this runtime.
    pub fn has_region(&self, r: usize) -> (b: bool)
        ensures
            b == self@.has_region(r),
    {
        r < self.regions.len()
    }

    /// How many tasks region `r` has had so far.
    pub fn task_count(&self, r: usize) -> (n: usize)
        requires
            self@.has_region(r),
        ensures
            n == self@.regions[r as int].tasks.len(),
    {
        self.regions[r].tasks.len()
    }

    /// The context of region `r`, under which its tasks run.
    pub fn ctx_of(&self, r: usize) -> (c: Ctx)
        requires
            self.wf(),
            self@.has_region(r),
        ensures
            c == self@.regions[r as int].inner.ctx,
            self@.ctxs.contains(c),
    {
        assert(self@.region_inv(r as int));
        self.regions[r].inner.ctx()
    }

    /// The state of task `h`.
    pub fn task(&self, h: JoinHandle) -> (t: Task)
        requires
            self@.has_task(h),
        ensures
            t == self@.task(h),
    {
        self.regions[h.region].tasks[h.index]
    }

    /// What the first-error slot of region `r` holds.
    pub fn first_error(&self, r: usize) -> (e: Option<&E>)
        requires
            self@.has_region(r),
        ensures
            match e {
                Some(e) => self@.regions[r as int].inner.err == Some(*e),
                None => self@.regions[r as int].inner.err is None,
            },
    {
        self.regions[r].inner.first_error()
    }
}

} // verus!
