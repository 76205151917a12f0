//! Messages that nodes sign with an account key, and their wire form.

pub mod proto;
pub mod proto_conv;
pub mod types;
