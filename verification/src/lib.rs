//! A small blogging backend: account registration and login with
//! token-based sessions, and post management with a two-tier
//! visibility model, all against an in-memory store.

pub mod account;
pub mod blog;
pub mod config;
pub mod crypto;
pub mod errors;
pub mod listing;
pub mod models;
pub mod strings;
pub mod store;
pub mod tags;
pub mod token;
