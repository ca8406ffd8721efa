//! The client of the earlier text protocol.

pub mod sync;
