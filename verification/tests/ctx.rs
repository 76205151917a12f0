use near_network_core::ctx::{Ctx, CtxTree, Deadline, ErrCancelled};
use near_network_core::scope::inner::Inner;
use near_network_core::signal::Poll;

#[test]
fn root_is_not_cancelled() {
    let t = CtxTree::new();
    let root = t.root();
    assert_eq!(root, Ctx { id: 0 });
    assert!(t.contains(root));
    assert!(!t.contains(Ctx { id: 1 }));
    assert!(!t.is_cancelled(root));
    assert_eq!(t.deadline(root), Deadline::Infinite);
    assert_eq!(t.now(), 0);
    assert_eq!(t.cancelled(root), Poll::Pending);
}

#[test]
fn cancel_reaches_down_and_not_up() {
    let mut t = CtxTree::new();
    let root = t.root();
    let a = t.sub(root, Deadline::Infinite);
    let b = t.sub(a, Deadline::Infinite);
    let c = t.sub(root, Deadline::Infinite);
    assert_eq!((a, b, c), (Ctx { id: 1 }, Ctx { id: 2 }, Ctx { id: 3 }));
    assert!(t.cancel(a));
    assert!(t.is_cancelled(a));
    assert!(t.is_cancelled(b));
    assert!(!t.is_cancelled(c));
    assert!(!t.is_cancelled(root));
    assert_eq!(t.cancelled(b), Poll::Ready(()));
    // A child of a cancelled context starts cancelled.
    let d = t.sub(b, Deadline::Infinite);
    assert!(t.is_cancelled(d));
}

#[test]
fn cancel_is_idempotent_and_monotonic() {
    let mut t = CtxTree::new();
    let root = t.root();
    let a = t.sub(root, Deadline::Finite(10));
    assert!(t.cancel(a));
    assert!(!t.cancel(a));
    assert!(t.is_cancelled(a));
    let _ = t.sub(a, Deadline::Infinite);
    t.advance(3);
    assert!(!t.cancel(a));
    assert!(t.is_cancelled(a));
    // Cancelling below does not cancel above.
    let b = t.sub(root, Deadline::Infinite);
    let c = t.sub(b, Deadline::Infinite);
    assert!(t.cancel(c));
    assert!(!t.is_cancelled(b));
    // Already cancelled through the parent: the call is not the first.
    assert!(t.cancel(b));
    assert!(!t.cancel(c));
}

#[test]
fn deadline_cancels_when_the_clock_reaches_it() {
    let mut t = CtxTree::new();
    let root = t.root();
    let a = t.sub(root, Deadline::Finite(100));
    let b = t.sub(a, Deadline::Infinite);
    let c = t.sub(a, Deadline::Finite(50));
    let d = t.sub(a, Deadline::Finite(500));
    assert_eq!(t.deadline(a), Deadline::Finite(100));
    assert_eq!(t.deadline(b), Deadline::Finite(100));
    assert_eq!(t.deadline(c), Deadline::Finite(50));
    assert_eq!(t.deadline(d), Deadline::Finite(100));
    t.advance(49);
    assert!(!t.is_cancelled(c));
    t.advance(50);
    assert!(t.is_cancelled(c));
    assert!(!t.is_cancelled(a));
    // The clock does not go back.
    t.advance(7);
    assert_eq!(t.now(), 50);
    assert!(t.is_cancelled(c));
    t.advance(100);
    assert!(t.is_cancelled(a));
    assert!(t.is_cancelled(b));
    assert!(t.is_cancelled(d));
    assert!(!t.is_cancelled(root));
    // A child with a deadline in the past starts cancelled.
    let e = t.sub(root, Deadline::Finite(100));
    assert!(t.is_cancelled(e));
    let f = t.sub(root, Deadline::Finite(101));
    assert!(!t.is_cancelled(f));
}

#[test]
fn earliest_deadline() {
    let inf = Deadline::Infinite;
    let a = Deadline::Finite(3);
    let b = Deadline::Finite(4);
    assert_eq!(a.earliest(b), a);
    assert_eq!(b.earliest(a), a);
    assert_eq!(a.earliest(inf), a);
    assert_eq!(inf.earliest(a), a);
    assert_eq!(inf.earliest(inf), inf);
    assert!(a.has_elapsed(3));
    assert!(!a.has_elapsed(2));
    assert!(!inf.has_elapsed(u64::MAX));
}

#[test]
fn wait_prefers_the_result() {
    let mut t = CtxTree::new();
    let root = t.root();
    let a = t.sub(root, Deadline::Infinite);
    assert_eq!(t.wait(a, Poll::<u8>::Pending), Poll::Pending);
    assert_eq!(t.wait(a, Poll::Ready(1u8)), Poll::Ready(Ok(1)));
    t.cancel(a);
    assert_eq!(t.wait(a, Poll::<u8>::Pending), Poll::Ready(Err(ErrCancelled)));
    assert_eq!(t.wait(a, Poll::Ready(2u8)), Poll::Ready(Ok(2)));
}

#[test]
fn inner_keeps_the_first_error() {
    let mut t = CtxTree::new();
    let root = t.root();
    let mut inner: Inner<u32> = Inner::new(&mut t, root);
    let ctx = inner.ctx();
    assert_eq!(ctx, Ctx { id: 1 });
    assert!(!t.is_cancelled(ctx));
    assert_eq!(inner.first_error(), None);
    assert!(inner.register(&mut t, 7));
    assert!(t.is_cancelled(ctx));
    assert!(!t.is_cancelled(root));
    assert!(!inner.register(&mut t, 8));
    assert_eq!(inner.first_error(), Some(&7));
    // Nothing is handed out before the termination.
    assert!(!inner.is_terminated());
    assert_eq!(inner.terminated(), Poll::Pending);
    assert_eq!(inner.terminated_take(), Poll::Pending);
    inner.fire();
    assert!(inner.is_terminated());
    assert_eq!(inner.terminated(), Poll::Ready(Err(&7)));
    assert_eq!(inner.terminated_take(), Poll::Ready(Err(7)));
    assert_eq!(inner.terminated(), Poll::Ready(Ok(())));
    assert_eq!(inner.terminated_take(), Poll::Ready(Ok(())));
}

#[test]
fn inner_without_error_ends_in_success() {
    let mut t = CtxTree::new();
    let root = t.root();
    let mut inner: Inner<u32> = Inner::new(&mut t, root);
    inner.fire();
    inner.fire();
    assert_eq!(inner.terminated(), Poll::Ready(Ok(())));
    assert_eq!(inner.terminated_take(), Poll::Ready(Ok(())));
    assert!(!t.is_cancelled(inner.ctx()));
}
