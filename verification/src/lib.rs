//! The logic of Hypeterm: the publisher that mirrors local terminals, and the relay
//! that stores their output and carries it to subscribers.
//!
//! Everything here is a computation on plain values. Sockets, pseudo-terminals, the
//! database and the clock belong to the program around this library.

pub mod ed25519;
pub mod encoding;
pub mod ids;
pub mod json;
pub mod paths;
pub mod publisher;
pub mod relay;
pub mod text;
