//! The publishing side: one machine, its terminals and its connection to the relay.

pub mod api;
pub mod backoff;
pub mod cli;
pub mod crypto;
pub mod daemon;
pub mod ipc;
pub mod pairing;
pub mod promises;
pub mod protocol;
pub mod publish;
pub mod pty;
pub mod report;
pub mod session;
pub mod state;
pub mod stream;
