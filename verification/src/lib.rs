//! Core of a clipboard-history service: capture, deduplicating store,
//! query and command handling, and retention, with machine-checked contracts.

pub mod artifacts;
pub mod clipboard;
pub mod clock;
pub mod config;
pub mod db;
pub mod error;
pub mod hashing;
pub mod ipc;
pub mod json;
pub mod laws;
pub mod lemmas;
pub mod listing;
pub mod model;
pub mod query;
pub mod retention;
pub mod service;
pub mod store;
pub mod text;
pub mod thumbnail;
