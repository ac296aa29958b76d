//! A registry of rustaceans and the crates they own, together with the user
//! accounts that administer it.
//!
//! The registry is a small relational state: five tables whose integrity rules
//! (generated keys, unique names, references between tables) are kept by every
//! operation and proved to be kept.

pub mod commands;
pub mod database;
pub mod errors;
pub mod models;
pub mod password;
pub mod repositories;
pub mod rocket_routes;
pub mod schema;
pub mod snapshot;
