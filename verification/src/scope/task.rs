//! Tasks of a region and the count of those that still hold a guard.

use vstd::prelude::*;

verus! {

/// Which guard of its region a task holds while it runs.
#[derive(Clone, Copy, Debug, PartialEq, Eq, Structural)]
pub enum Role {
    /// Holds the cancel guard: the region is cancelled when the last such
    /// task has finished.
    Main,
    /// Holds the termination guard only: delays the region's termination,
    /// not its cancellation.
    Background,
}

/// What the completion of a task stands for.
#[derive(Clone, Copy, Debug, PartialEq, Eq, Structural)]
pub enum Awaits {
    /// A computation of the user.
    Work,
    /// The guard task of a service: completes once the service's context
    /// is cancelled.
    Cancellation,
    /// The watcher of a service, run in the region that hosts the service:
    /// completes once the region with this number has terminated.
    Termination(usize),
}

#[derive(Clone, Copy, Debug, PartialEq, Eq, Structural)]
pub enum TaskState {
    Running,
    /// Finished with a success value.
    Succeeded,
    /// Finished with an error, which was reported to the region.
    Failed,
}

/// The awaited task was cancelled: it ended with an error, which its
/// region has taken.
#[derive(Clone, Copy, Debug, PartialEq, Eq, Structural)]
pub struct ErrTaskCancelled;

/// The region has terminated: nothing can be spawned in it any more.
#[derive(Clone, Copy, Debug, PartialEq, Eq, Structural)]
pub struct ErrTerminated;

#[derive(Clone, Copy, Debug, PartialEq, Eq, Structural)]
pub struct Task {
    pub role: Role,
    pub awaits: Awaits,
    pub state: TaskState,
}

/// Handle of a task: the region it runs in and its place there.
#[derive(Clone, Copy, Debug, PartialEq, Eq, Structural)]
pub struct JoinHandle {
    pub region: usize,
    pub index: usize,
}

/// Whether `t` is running and holds the guard that goes with `role`.
pub open spec fn holds(t: Task, role: Role) -> bool {
    t.state is Running && t.role == role
}

/// How many of `tasks` are running in `role`.
pub open spec fn live(tasks: Seq<Task>, role: Role) -> nat
    decreases tasks.len(),
{
    if tasks.len() == 0 {
        0
    } else {
        live(tasks.drop_last(), role) + if holds(tasks.last(), role) {
            1nat
        } else {
            0nat
        }
    }
}

/// A new task counts in its own role, if it is running.
pub proof fn lemma_live_push(tasks: Seq<Task>, t: Task, role: Role)
    ensures
        live(tasks.push(t), role) == live(tasks, role) + if holds(t, role) {
            1nat
        } else {
            0nat
        },
{
    assert(tasks.push(t).drop_last() =~= tasks);
}

/// Replacing a task takes it out of the count and puts its successor in.
pub proof fn lemma_live_update(tasks: Seq<Task>, i: int, t: Task, role: Role)
    requires
        0 <= i < tasks.len(),
    ensures
        live(tasks.update(i, t), role) + (if holds(tasks[i], role) {
            1nat
        } else {
            0nat
        }) == live(tasks, role) + (if holds(t, role) {
            1nat
        } else {
            0nat
        }),
    decreases tasks.len(),
{
    if i == tasks.len() - 1 {
        assert(tasks.update(i, t).drop_last() =~= tasks.drop_last());
    } else {
        assert(tasks.update(i, t).drop_last() =~= tasks.drop_last().update(i, t));
        lemma_live_update(tasks.drop_last(), i, t, role);
    }
}

/// A running task is counted in one role only.
pub proof fn lemma_live_total(tasks: Seq<Task>)
    ensures
        live(tasks, Role::Main) + live(tasks, Role::Background) <= tasks.len(),
    decreases tasks.len(),
{
    if tasks.len() > 0 {
        lemma_live_total(tasks.drop_last());
    }
}

/// No task is counted exactly if none is running in that role.
pub proof fn lemma_live_zero(tasks: Seq<Task>, role: Role)
    ensures
        live(tasks, role) == 0 <==> forall|i: int|
            0 <= i < tasks.len() ==> !holds(#[trigger] tasks[i], role),
    decreases tasks.len(),
{
    if tasks.len() > 0 {
        let front = tasks.drop_last();
        lemma_live_zero(front, role);
        if live(tasks, role) == 0 {
            assert forall|i: int| 0 <= i < tasks.len() implies !holds(
                #[trigger] tasks[i],
                role,
            ) by {
                if i < front.len() {
                    assert(front[i] == tasks[i]);
                }
            }
        } else if !holds(tasks.last(), role) {
            let i = choose|i: int| 0 <= i < front.len() && holds(#[trigger] front[i], role);
            assert(tasks[i] == front[i]);
        }
    }
}

} // verus!
