//! The relay: accounts, devices, terminals and their stored output.

pub mod admin;
pub mod auth;
pub mod bootstrap;
pub mod command;
pub mod context;
pub mod counts;
pub mod crypto;
pub mod devices;
pub mod error;
pub mod extract;
pub mod idempotency;
pub mod maintenance;
pub mod metrics;
pub mod ops;
pub mod promises;
pub mod repo;
pub mod step;
pub mod storage;
pub mod terminals;
pub mod tokens;
pub mod ws;
