//! What callers of the relay can count on: when they are granted what they ask for, and
//! what exactly they are granted then.

pub mod auth;
pub mod bodies;
pub mod devices;
pub mod entry;
pub mod handlers;
pub mod metrics;
pub mod operations;
pub mod parts;
pub mod records;
pub mod serving;
pub mod terminals;
pub mod tokens;
pub mod upkeep;
pub mod ws;
