//! Conversions between the decoded wire messages and the values that the
//! rest of the node works with.

pub mod account_key;
pub mod crypto;
pub mod net;
pub mod time;
pub mod util;
