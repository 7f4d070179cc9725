//! What the library takes from other crates: the types it declares and the
//! functions it calls, each with the contract that callers rely on.

pub mod buffers;
pub mod digests;
pub mod lowercase;
pub mod messages;
pub mod random;
pub mod tables;
