//! Verified core of a private, encrypted store-and-forward relay: operator
//! configuration, connection admission, the encrypted spool's file framing,
//! and the start-up decisions of the relay.

pub mod text;
pub mod config;
pub mod services;
pub mod cli;
pub mod admission;
pub mod spool;
pub mod laws;
