//! Every operation keeps the invariant and only moves the state forward.

use crate::ctx::{Ctx, Deadline};
use crate::scope::model::{State, guard_task, region_precedes, root_task, task_precedes};
use crate::scope::task::{Awaits, JoinHandle, Role, lemma_live_push, lemma_live_update};
use vstd::prelude::*;

verus! {

impl<E> State<E> {
    pub proof fn lemma_precedes_reflexive(self)
        ensures
            self.precedes(self),
    {
    }

    pub proof fn lemma_precedes_transitive(self, mid: State<E>, later: State<E>)
        requires
            self.precedes(mid),
            mid.precedes(later),
        ensures
            self.precedes(later),
    {
        self.ctxs.lemma_precedes_transitive(mid.ctxs, later.ctxs);
        assert forall|r: int| 0 <= r < self.regions.len() implies region_precedes(
            self.regions[r],
            #[trigger] later.regions[r],
        ) by {
            let a = self.regions[r];
            let b = mid.regions[r];
            let c = later.regions[r];
            assert(region_precedes(a, b));
            assert(region_precedes(b, c));
            assert forall|i: int| 0 <= i < a.tasks.len() implies task_precedes(
                a.tasks[i],
                #[trigger] c.tasks[i],
            ) by {
                assert(task_precedes(a.tasks[i], b.tasks[i]));
                assert(task_precedes(b.tasks[i], c.tasks[i]));
            }
        }
    }

    /// A region that an operation has not touched still meets its
    /// invariant in any later state.
    pub proof fn lemma_frame(self, later: State<E>, r: int)
        requires
            self.inv(),
            self.precedes(later),
            later.ctxs.wf(),
            0 <= r < self.regions.len(),
            later.regions[r] == self.regions[r],
        ensures
            later.region_inv(r),
    {
        let reg = self.regions[r];
        assert(self.region_inv(r));
        assert(self.ctxs.cancelled_at(reg.inner.ctx.id as int) ==> later.ctxs.cancelled_at(
            reg.inner.ctx.id as int,
        ));
        match reg.host {
            Some(w) => {
                assert(region_precedes(
                    self.regions[w.region as int],
                    later.regions[w.region as int],
                ));
                assert(later.ctxs.nodes[reg.inner.ctx.id as int].parent
                    == self.ctxs.nodes[reg.inner.ctx.id as int].parent);
            },
            None => {},
        }
        assert forall|i: int| 0 <= i < reg.tasks.len() implies #[trigger] later.task_inv(r, i) by {
            assert(self.task_inv(r, i));
            match reg.tasks[i].awaits {
                Awaits::Termination(s) => {
                    assert(region_precedes(self.regions[s as int], later.regions[s as int]));
                },
                _ => {},
            }
        }
    }

    pub proof fn lemma_initial()
        ensures
            Self::initial().inv(),
    {
    }

    pub proof fn lemma_ctx_sub(self, parent: Ctx, deadline: Deadline)
        requires
            self.inv(),
            self.ctxs.contains(parent),
        ensures
            self.ctx_sub(parent, deadline).inv(),
            self.precedes(self.ctx_sub(parent, deadline)),
    {
        let later = self.ctx_sub(parent, deadline);
        self.ctxs.lemma_sub_precedes(parent, deadline);
        assert forall|r: int| 0 <= r < later.regions.len() implies #[trigger] later.region_inv(
            r,
        ) by {
            self.lemma_frame(later, r);
        }
    }

    pub proof fn lemma_ctx_cancel(self, c: Ctx)
        requires
            self.inv(),
            self.ctxs.contains(c),
        ensures
            self.ctx_cancel(c).inv(),
            self.precedes(self.ctx_cancel(c)),
    {
        let later = self.ctx_cancel(c);
        self.ctxs.lemma_cancel_precedes(c);
        assert forall|r: int| 0 <= r < later.regions.len() implies #[trigger] later.region_inv(
            r,
        ) by {
            self.lemma_frame(later, r);
        }
    }

    pub proof fn lemma_advance(self, now: u64)
        requires
            self.inv(),
        ensures
            self.advance(now).inv(),
            self.precedes(self.advance(now)),
    {
        let later = self.advance(now);
        self.ctxs.lemma_advance_precedes(now);
        assert forall|r: int| 0 <= r < later.regions.len() implies #[trigger] later.region_inv(
            r,
        ) by {
            self.lemma_frame(later, r);
        }
    }

    pub proof fn lemma_new_scope(self, parent: Ctx)
        requires
            self.inv(),
            self.ctxs.contains(parent),
        ensures
            self.new_scope(parent).inv(),
            self.precedes(self.new_scope(parent)),
    {
        let later = self.new_scope(parent);
        let n = self.regions.len() as int;
        self.ctxs.lemma_sub_precedes(parent, Deadline::Infinite);
        assert forall|r: int| 0 <= r < later.regions.len() implies #[trigger] later.region_inv(
            r,
        ) by {
            if r < n {
                self.lemma_frame(later, r);
            } else {
                let reg = later.regions[r];
                lemma_live_push(Seq::empty(), root_task(), Role::Main);
                lemma_live_push(Seq::empty(), root_task(), Role::Background);
                assert(reg.tasks =~= Seq::empty().push(root_task()));
                assert(later.task_inv(r, 0));
            }
        }
    }

    pub proof fn lemma_spawn(self, r: usize, role: Role)
        requires
            self.inv(),
            self.may_spawn(r, role),
        ensures
            self.spawn(r, role).inv(),
            self.precedes(self.spawn(r, role)),
    {
        let later = self.spawn(r, role);
        let reg = self.regions[r as int];
        let after = later.regions[r as int];
        let t = after.tasks[reg.tasks.len() as int];
        self.ctxs.lemma_precedes_transitive(self.ctxs, self.ctxs);
        assert(self.region_inv(r as int));
        lemma_live_push(reg.tasks, t, Role::Main);
        lemma_live_push(reg.tasks, t, Role::Background);
        assert(self.precedes(later));
        assert forall|x: int| 0 <= x < later.regions.len() implies #[trigger] later.region_inv(
            x,
        ) by {
            if x != r {
                self.lemma_frame(later, x);
            } else {
                assert forall|i: int| 0 <= i < after.tasks.len() implies #[trigger] later.task_inv(
                    x,
                    i,
                ) by {
                    if i < reg.tasks.len() {
                        assert(self.task_inv(x, i));
                    }
                }
            }
        }
    }

    pub proof fn lemma_new_service(self, p: usize)
        requires
            self.inv(),
            self.may_host(p),
            self.regions.len() < usize::MAX,
            self.regions[p as int].tasks.len() < usize::MAX,
            self.ctxs.nodes.len() < usize::MAX,
        ensures
            self.new_service(p).inv(),
            self.precedes(self.new_service(p)),
    {
        let later = self.new_service(p);
        let host = self.regions[p as int];
        let after = later.regions[p as int];
        let n = self.regions.len() as int;
        let watcher = after.tasks[host.tasks.len() as int];
        assert(self.region_inv(p as int));
        self.ctxs.lemma_sub_precedes(host.inner.ctx, Deadline::Infinite);
        lemma_live_push(host.tasks, watcher, Role::Main);
        lemma_live_push(host.tasks, watcher, Role::Background);
        assert(self.precedes(later));
        assert forall|x: int| 0 <= x < later.regions.len() implies #[trigger] later.region_inv(
            x,
        ) by {
            if x == n {
                let reg = later.regions[x];
                let g = guard_task();
                lemma_live_push(Seq::empty(), g, Role::Main);
                lemma_live_push(Seq::empty(), g, Role::Background);
                assert(reg.tasks =~= Seq::empty().push(g));
                assert(later.task_inv(x, 0));
            } else if x != p {
                self.lemma_frame(later, x);
            } else {
                assert(self.ctxs.cancelled_at(host.inner.ctx.id as int)
                    ==> later.ctxs.cancelled_at(host.inner.ctx.id as int));
                match host.host {
                    Some(w) => {
                        assert(later.regions[w.region as int] == self.regions[w.region as int]);
                        assert(later.ctxs.nodes[host.inner.ctx.id as int].parent
                            == self.ctxs.nodes[host.inner.ctx.id as int].parent);
                    },
                    None => {},
                }
                assert forall|i: int| 0 <= i < after.tasks.len() implies #[trigger] later.task_inv(
                    x,
                    i,
                ) by {
                    if i < host.tasks.len() {
                        assert(self.task_inv(x, i));
                        match host.tasks[i].awaits {
                            Awaits::Termination(s) => {
                                assert(later.regions[s as int] == self.regions[s as int]);
                            },
                            _ => {},
                        }
                    }
                }
            }
        }
    }

    pub proof fn lemma_finish(self, h: JoinHandle, failure: Option<E>)
        requires
            self.inv(),
            self.may_finish(h),
        ensures
            self.finish(h, failure).inv(),
            self.precedes(self.finish(h, failure)),
    {
        let later = self.finish(h, failure);
        let r = h.region as int;
        let reg = self.regions[r];
        let after = later.regions[r];
        let t = reg.tasks[h.index as int];
        let done = after.tasks[h.index as int];
        assert(self.region_inv(r));
        assert(self.task_inv(r, h.index as int));
        lemma_live_update(reg.tasks, h.index as int, done, Role::Main);
        lemma_live_update(reg.tasks, h.index as int, done, Role::Background);
        if later.ctxs != self.ctxs {
            self.ctxs.lemma_cancel_precedes(reg.inner.ctx);
        } else {
            self.ctxs.lemma_precedes_transitive(self.ctxs, self.ctxs);
        }
        assert(self.ctxs.precedes(later.ctxs));
        assert(later.ctxs.wf());
        assert(self.ctxs.cancelled_at(reg.inner.ctx.id as int) ==> later.ctxs.cancelled_at(
            reg.inner.ctx.id as int,
        ));
        assert(!reg.inner.terminated);
        assert(region_precedes(reg, after));
        assert(self.precedes(later));
        assert forall|x: int| 0 <= x < later.regions.len() implies #[trigger] later.region_inv(
            x,
        ) by {
            if x != r {
                self.lemma_frame(later, x);
            } else {
                match reg.host {
                    Some(w) => {
                        assert(later.regions[w.region as int] == self.regions[w.region as int]);
                        assert(later.ctxs.nodes[reg.inner.ctx.id as int].parent
                            == self.ctxs.nodes[reg.inner.ctx.id as int].parent);
                    },
                    None => {},
                }
                assert forall|i: int| 0 <= i < after.tasks.len() implies #[trigger] later.task_inv(
                    x,
                    i,
                ) by {
                    assert(self.task_inv(x, i));
                    match reg.tasks[i].awaits {
                        Awaits::Termination(s) => {
                            assert(later.regions[s as int] == self.regions[s as int]);
                        },
                        _ => {},
                    }
                }
            }
        }
    }

    pub proof fn lemma_take(self, r: usize)
        requires
            self.inv(),
            self.has_region(r),
            self.terminated(r as int),
        ensures
            self.take(r).inv(),
            self.precedes(self.take(r)),
    {
        let later = self.take(r);
        let reg = self.regions[r as int];
        let after = later.regions[r as int];
        assert(self.region_inv(r as int));
        self.ctxs.lemma_precedes_transitive(self.ctxs, self.ctxs);
        assert(region_precedes(reg, after));
        assert(self.precedes(later));
        assert forall|x: int| 0 <= x < later.regions.len() implies #[trigger] later.region_inv(
            x,
        ) by {
            if x != r {
                self.lemma_frame(later, x);
            } else {
                assert forall|i: int| 0 <= i < after.tasks.len() implies #[trigger] later.task_inv(
                    x,
                    i,
                ) by {
                    assert(self.task_inv(x, i));
                }
            }
        }
    }
}

} // verus!
