use near_network_core::ctx::{Ctx, Deadline, ErrCancelled};
use near_network_core::must_complete::{must_complete, DropAction, MustCompleteGuard};
use near_network_core::scope::guard::Holders;
use near_network_core::scope::handle::{new_scope, run, Scope, Service, Started};
use near_network_core::scope::runtime::Runtime;
use near_network_core::scope::task::{
    Awaits, ErrTaskCancelled, ErrTerminated, JoinHandle, Role, TaskState,
};
use near_network_core::signal::{Once, Poll};

type Rt = Runtime<&'static str>;

fn enter(rt: &mut Rt) -> (Scope, JoinHandle) {
    let root = rt.root();
    new_scope(rt, root)
}

#[test]
fn simple_success() {
    let mut rt = Rt::new();
    let (scope, root) = enter(&mut rt);
    assert_eq!(run(&mut rt, scope), Poll::Pending);
    // The root computation ends with the value 42.
    let value = 42;
    assert!(rt.finish(root, Ok(())));
    let returned = match run(&mut rt, scope) {
        Poll::Ready(Ok(())) => Ok(value),
        Poll::Ready(Err(e)) => Err(e),
        Poll::Pending => panic!("the scope has no task left"),
    };
    assert_eq!(returned, Ok(42));
}

#[test]
fn single_task_error_propagation() {
    let mut rt = Rt::new();
    let (scope, root) = enter(&mut rt);
    let a = scope.spawn(&mut rt).unwrap();
    let b = scope.spawn(&mut rt).unwrap();
    let ctx = scope.ctx(&rt);
    assert!(rt.finish(root, Ok(())));
    assert_eq!(rt.cancelled(ctx), Poll::Pending);
    // B fails: A, which awaits cancellation, is woken.
    assert!(rt.finish(b, Err("boom")));
    assert_eq!(rt.cancelled(ctx), Poll::Ready(()));
    // The scope does not return before A has finished.
    assert_eq!(run(&mut rt, scope), Poll::Pending);
    assert!(rt.finish(a, Ok(())));
    assert_eq!(rt.task(a).state, TaskState::Succeeded);
    assert_eq!(rt.task(b).state, TaskState::Failed);
    assert_eq!(run(&mut rt, scope), Poll::Ready(Err("boom")));
}

#[test]
fn background_outlives_main() {
    let mut rt = Rt::new();
    let (scope, root) = enter(&mut rt);
    let main = scope.spawn(&mut rt).unwrap();
    let bg = scope.spawn_bg(&mut rt).unwrap();
    assert_eq!(rt.task(main).role, Role::Main);
    assert_eq!(rt.task(bg).role, Role::Background);
    let ctx = scope.ctx(&rt);
    assert!(rt.finish(main, Ok(())));
    assert!(!rt.is_cancelled(ctx));
    assert!(rt.finish(root, Ok(())));
    // All main tasks are done: the background task observes cancellation,
    // and the scope waits for it.
    assert!(rt.is_cancelled(ctx));
    assert!(!rt.is_terminated(scope.region));
    assert_eq!(run(&mut rt, scope), Poll::Pending);
    assert!(rt.finish(bg, Ok(())));
    assert!(rt.is_terminated(scope.region));
    assert_eq!(run(&mut rt, scope), Poll::Ready(Ok(())));
}

fn start(rt: &mut Rt, scope: Scope) -> Started {
    scope.new_service(rt).unwrap()
}

#[test]
fn service_handle_drop() {
    let mut rt = Rt::new();
    let (scope, root) = enter(&mut rt);
    let Started { service, guard, watcher } = start(&mut rt, scope);
    let task = service.spawn(&mut rt).unwrap();
    let service_ctx = service.ctx(&rt);
    let region = service.region;
    assert!(!rt.is_cancelled(service_ctx));
    // Neither the guard nor the watcher may finish yet.
    assert!(!rt.may_finish(guard));
    assert!(!rt.may_finish(watcher));
    service.release(&mut rt);
    assert!(rt.is_cancelled(service_ctx));
    assert!(!rt.is_cancelled(scope.ctx(&rt)));
    assert!(rt.finish(task, Ok(())));
    assert!(rt.finish(guard, Ok(())));
    assert!(rt.is_terminated(region));
    assert!(rt.finish(watcher, Ok(())));
    assert!(rt.finish(root, Ok(())));
    assert_eq!(run(&mut rt, scope), Poll::Ready(Ok(())));
}

#[test]
fn service_spawn_after_termination() {
    let mut rt = Rt::new();
    let (scope, _root) = enter(&mut rt);
    let Started { service, guard, watcher: _ } = start(&mut rt, scope);
    let task = service.spawn(&mut rt).unwrap();
    let caller = scope.ctx(&rt);
    assert!(!service.is_terminated(&rt));
    assert_eq!(service.terminate(&mut rt, caller), Poll::Pending);
    assert!(rt.finish(task, Ok(())));
    assert_eq!(service.terminated(&rt, caller), Poll::Pending);
    assert!(rt.finish(guard, Ok(())));
    assert_eq!(service.terminated(&rt, caller), Poll::Ready(Ok(())));
    assert!(service.is_terminated(&rt));
    assert_eq!(service.spawn(&mut rt), Err(ErrTerminated));
    assert!(matches!(service.new_service(&mut rt), Err(ErrTerminated)));
}

#[test]
fn must_complete_abort() {
    // Dropped before completion: the owner has to abort.
    let mut guard = MustCompleteGuard::new();
    assert_eq!(must_complete(&mut guard, Poll::<u8>::Pending), Poll::Pending);
    assert_eq!(guard.on_drop(), DropAction::Abort);
    // Dropped after completion: nothing to do.
    assert_eq!(must_complete(&mut guard, Poll::Ready(7u8)), Poll::Ready(7));
    assert_eq!(guard.on_drop(), DropAction::Nothing);
    assert_eq!(must_complete(&mut guard, Poll::<u8>::Pending), Poll::Pending);
    assert_eq!(guard.on_drop(), DropAction::Nothing);
}

#[test]
fn must_complete_guard_disarm() {
    let mut guard = MustCompleteGuard::new();
    assert_eq!(guard.on_drop(), DropAction::Abort);
    guard.disarm();
    assert_eq!(guard.on_drop(), DropAction::Nothing);
}

#[test]
fn first_error_wins() {
    let mut rt = Rt::new();
    let (scope, root) = enter(&mut rt);
    let a = scope.spawn(&mut rt).unwrap();
    let b = scope.spawn(&mut rt).unwrap();
    assert!(rt.finish(a, Err("first")));
    assert_eq!(rt.first_error(scope.region), Some(&"first"));
    assert!(rt.finish(b, Err("second")));
    assert_eq!(rt.first_error(scope.region), Some(&"first"));
    assert!(rt.finish(root, Err("third")));
    assert_eq!(run(&mut rt, scope), Poll::Ready(Err("first")));
    // The error was moved out.
    assert_eq!(rt.first_error(scope.region), None);
    assert_eq!(run(&mut rt, scope), Poll::Ready(Ok(())));
}

#[test]
fn no_silent_loss() {
    let mut rt = Rt::new();
    let (scope, root) = enter(&mut rt);
    let bg = scope.spawn_bg(&mut rt).unwrap();
    assert!(rt.finish(root, Ok(())));
    assert!(rt.finish(bg, Err("late")));
    assert!(matches!(run(&mut rt, scope), Poll::Ready(Err("late"))));
}

#[test]
fn termination_waits_for_every_task() {
    let mut rt = Rt::new();
    let (scope, root) = enter(&mut rt);
    let Started { service, guard, watcher } = start(&mut rt, scope);
    let inner = service.new_service(&mut rt).unwrap();
    let deep = inner.service.spawn(&mut rt).unwrap();
    assert!(rt.finish(root, Ok(())));
    // The scope is cancelled, and with it both services.
    assert!(rt.is_cancelled(service.ctx(&rt)));
    assert!(rt.is_cancelled(inner.service.ctx(&rt)));
    assert!(rt.finish(guard, Ok(())));
    assert!(rt.finish(inner.guard, Ok(())));
    // The inner service still has a task: nothing above it terminates.
    assert!(!rt.finish(inner.watcher, Ok(())));
    assert!(!rt.finish(watcher, Ok(())));
    assert_eq!(run(&mut rt, scope), Poll::Pending);
    assert!(rt.finish(deep, Ok(())));
    assert!(inner.service.is_terminated(&rt));
    assert!(!service.is_terminated(&rt));
    assert!(rt.finish(inner.watcher, Ok(())));
    assert!(service.is_terminated(&rt));
    assert!(rt.finish(watcher, Ok(())));
    assert_eq!(run(&mut rt, scope), Poll::Ready(Ok(())));
}

#[test]
fn watcher_role_follows_the_host() {
    let mut rt = Rt::new();
    let (scope, _root) = enter(&mut rt);
    let outer = start(&mut rt, scope);
    let inner = outer.service.new_service(&mut rt).unwrap();
    assert_eq!(rt.task(outer.watcher).role, Role::Background);
    assert_eq!(rt.task(outer.watcher).awaits, Awaits::Termination(outer.service.region));
    assert_eq!(rt.task(inner.watcher).role, Role::Main);
    assert_eq!(rt.task(inner.watcher).awaits, Awaits::Termination(inner.service.region));
    assert_eq!(rt.task(outer.guard).awaits, Awaits::Cancellation);
    assert_eq!(rt.task(outer.guard).role, Role::Main);
    assert_eq!(outer.guard, JoinHandle { region: outer.service.region, index: 0 });
    assert_eq!(inner.watcher.region, outer.service.region);
    assert!(rt.is_service(outer.service.region));
    assert!(!rt.is_service(scope.region));
}

#[test]
fn service_is_not_cancelled_for_want_of_tasks() {
    let mut rt = Rt::new();
    let (scope, _root) = enter(&mut rt);
    let Started { service, guard, watcher: _ } = start(&mut rt, scope);
    let ctx = service.ctx(&rt);
    let t = service.spawn(&mut rt).unwrap();
    assert!(rt.finish(t, Ok(())));
    assert!(!rt.is_cancelled(ctx));
    assert!(!service.is_terminated(&rt));
    // The guard task cannot be finished before the cancellation.
    assert!(!rt.finish(guard, Ok(())));
    // A task that fails cancels the service, not the scope around it.
    let t = service.spawn(&mut rt).unwrap();
    assert!(rt.finish(t, Err("down")));
    assert!(rt.is_cancelled(ctx));
    assert!(!rt.is_cancelled(scope.ctx(&rt)));
    assert!(rt.finish(guard, Ok(())));
    assert!(service.is_terminated(&rt));
    assert_eq!(rt.first_error(service.region), Some(&"down"));
    assert_eq!(rt.first_error(scope.region), None);
}

#[test]
fn spawn_degrades_to_background() {
    let mut rt = Rt::new();
    let (scope, root) = enter(&mut rt);
    let bg = scope.spawn_bg(&mut rt).unwrap();
    assert!(rt.finish(root, Ok(())));
    let late = scope.spawn(&mut rt).unwrap();
    assert_eq!(late, JoinHandle { region: scope.region, index: 2 });
    assert_eq!(rt.task(late).role, Role::Background);
    assert_eq!(rt.task(late).awaits, Awaits::Work);
    assert_eq!(rt.task(late).state, TaskState::Running);
    assert!(rt.finish(bg, Ok(())));
    assert!(!rt.is_terminated(scope.region));
    assert!(rt.finish(late, Ok(())));
    assert!(rt.is_terminated(scope.region));
    assert_eq!(scope.spawn(&mut rt), Err(ErrTerminated));
    assert_eq!(scope.spawn_bg(&mut rt), Err(ErrTerminated));
    assert!(matches!(scope.new_service(&mut rt), Err(ErrTerminated)));
    assert_eq!(rt.task_count(scope.region), 3);
}

#[test]
fn finish_is_refused_twice() {
    let mut rt = Rt::new();
    let (scope, root) = enter(&mut rt);
    assert!(rt.may_finish(root));
    assert!(rt.finish(root, Ok(())));
    assert!(!rt.may_finish(root));
    assert!(!rt.finish(root, Err("again")));
    assert_eq!(rt.first_error(scope.region), None);
    assert!(!rt.finish(JoinHandle { region: 7, index: 0 }, Ok(())));
    assert!(!rt.finish(JoinHandle { region: scope.region, index: 9 }, Ok(())));
    assert!(rt.has_task(root));
    assert!(!rt.has_task(JoinHandle { region: scope.region, index: 9 }));
    assert!(rt.has_region(scope.region));
    assert!(!rt.has_region(1));
}

#[test]
fn join_reports_the_task() {
    let mut rt = Rt::new();
    let (scope, root) = enter(&mut rt);
    let ok = scope.spawn(&mut rt).unwrap();
    let bad = scope.spawn(&mut rt).unwrap();
    let caller = scope.ctx(&rt);
    assert_eq!(ok.join(&rt, caller), Poll::Pending);
    assert!(rt.finish(ok, Ok(())));
    assert_eq!(ok.join(&rt, caller), Poll::Ready(Ok(Ok(()))));
    assert_eq!(ok.join_err(&rt, caller), Poll::Ready(Ok(Ok(()))));
    assert!(rt.finish(bad, Err("bad")));
    // The region is cancelled by the error, and the caller with it.
    assert_eq!(bad.join(&rt, caller), Poll::Ready(Err(ErrCancelled)));
    assert_eq!(bad.join_err(&rt, caller), Poll::Ready(Err(ErrCancelled)));
    assert_eq!(root.join(&rt, caller), Poll::Ready(Err(ErrCancelled)));
    // A caller outside the region waits for the region to terminate.
    let outside = rt.root();
    assert_eq!(bad.join(&rt, outside), Poll::Pending);
    assert_eq!(bad.join_err(&rt, outside), Poll::Pending);
    assert_eq!(root.join(&rt, outside), Poll::Pending);
    assert!(rt.finish(root, Ok(())));
    assert_eq!(bad.join(&rt, outside), Poll::Ready(Ok(Err(ErrTaskCancelled))));
    assert_eq!(bad.join_err(&rt, outside), Poll::Ready(Ok(Err(Some(&"bad")))));
    assert_eq!(root.join(&rt, outside), Poll::Ready(Ok(Ok(()))));
    // Once the outcome is taken the slot is empty.
    assert_eq!(run(&mut rt, scope), Poll::Ready(Err("bad")));
    assert_eq!(bad.join_err(&rt, outside), Poll::Ready(Ok(Err(None))));
}

#[test]
fn cancelling_the_parent_cancels_the_scope() {
    let mut rt = Rt::new();
    let root = rt.root();
    let parent = rt.sub(root, Deadline::Infinite);
    let (scope, task) = new_scope(&mut rt, parent);
    let ctx = scope.ctx(&rt);
    assert_eq!(ctx, Ctx { id: 2 });
    assert!(!rt.is_cancelled(ctx));
    rt.cancel(parent);
    assert!(rt.is_cancelled(ctx));
    assert!(!rt.is_cancelled(root));
    // Cancelled is not terminated.
    assert!(!rt.is_terminated(scope.region));
    assert!(rt.finish(task, Ok(())));
    assert!(rt.is_terminated(scope.region));
    // A scope entered from a cancelled context starts cancelled.
    let (late, _) = new_scope(&mut rt, parent);
    assert!(rt.is_cancelled(late.ctx(&rt)));
}

#[test]
fn termination_latches() {
    let mut rt = Rt::new();
    let (scope, root) = enter(&mut rt);
    assert!(rt.finish(root, Ok(())));
    assert!(rt.is_terminated(scope.region));
    let (other, other_root) = enter(&mut rt);
    let _ = other.spawn(&mut rt);
    rt.advance(5);
    assert!(rt.finish(other_root, Err("x")));
    assert!(rt.is_terminated(scope.region));
    assert!(!rt.is_terminated(other.region));
    assert_eq!(run(&mut rt, scope), Poll::Ready(Ok(())));
    assert!(rt.is_terminated(scope.region));
}

#[test]
fn service_terminated_gives_way_to_cancellation() {
    let mut rt = Rt::new();
    let (scope, _root) = enter(&mut rt);
    let Started { service, .. } = start(&mut rt, scope);
    let root = rt.root();
    let caller = rt.sub(root, Deadline::Infinite);
    assert_eq!(service.terminated(&rt, caller), Poll::Pending);
    rt.cancel(caller);
    assert_eq!(service.terminated(&rt, caller), Poll::Ready(Err(ErrCancelled)));
    let _: Service = service;
}

#[test]
fn once_latches() {
    let mut s = Once::new();
    assert!(!s.try_recv());
    assert_eq!(s.recv(), Poll::Pending);
    assert!(s.set());
    assert!(s.try_recv());
    assert_eq!(s.recv(), Poll::Ready(()));
    assert!(!s.set());
    assert!(s.try_recv());
    assert_eq!(s.recv(), Poll::Ready(()));
}

#[test]
fn guard_goes_with_its_last_holder() {
    let mut g = Holders::new(1);
    assert_eq!(g.count(), 1);
    assert!(!g.is_gone());
    g.acquire();
    assert_eq!(g.count(), 2);
    assert!(!g.release());
    assert!(!g.is_gone());
    assert!(g.release());
    assert!(g.is_gone());
    assert_eq!(g.count(), 0);
    assert!(Holders::new(0).is_gone());
}
