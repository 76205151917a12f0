//! Regions: scopes, services and their tasks.

pub mod guard;
pub mod handle;
pub mod inner;
pub mod laws;
pub mod model;
pub mod runtime;
pub mod steps;
pub mod task;
