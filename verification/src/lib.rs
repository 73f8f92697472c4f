//! A pool of accounts: which credentials it holds, when each is probed again,
//! and which of them is active.

pub mod auth;
pub mod commands;
pub mod config;
pub mod db;
pub mod json;
pub mod laws;
pub mod locks;
pub mod probe;
pub mod refresh;
pub mod report;
pub mod schedule;
pub mod store;
pub mod text;
