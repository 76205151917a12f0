//! Structured concurrency for a dynamic tree of asynchronous tasks, and
//! the conversions of the messages that nodes sign with an account key.
//!
//! A region bounds every task spawned inside it: the region cannot
//! complete before each of its tasks has finished, the first error
//! reported by a task cancels all the others, and cancellation flows
//! down a tree of contexts. The crate holds the decisions of that
//! runtime as a state machine over plain values, which an executor
//! drives: every suspension point is a function that is polled, and every
//! completion of a task is an event that the executor reports.
//!
//! - `signal`: the one-shot latch.
//! - `ctx`: the tree of cancellation contexts, with deadlines.
//! - `must_complete`: the guard of a computation that must not be
//!   abandoned.
//! - `scope`: regions, their tasks and guards, scopes and services, and
//!   the laws that hold of every history of a runtime.
//! - `network_protocol`: the signed payloads and their wire form.

pub mod ctx;
pub mod must_complete;
pub mod network_protocol;
pub mod scope;
pub mod signal;
