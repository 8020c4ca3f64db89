//! What users of a published terminal can count on.

pub mod access;
pub mod daemon;
pub mod parts;
pub mod relay;
pub mod stream;
pub mod telling;
pub mod terminal;
pub mod wire;
