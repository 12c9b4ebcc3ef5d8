//! The probe: its state, its rules and its lifecycle.
pub mod account;
pub mod base;
pub mod commands;
pub mod connections;
pub mod evaluation;
pub mod feeds;
pub mod fills;
pub mod flatten;
pub mod frames;
pub mod health;
pub mod laws;
pub mod lifecycle;
pub mod market_feed;
pub mod markouts;
pub mod orders;
pub mod placement;
pub mod private_feed;
pub mod recording;
pub mod state;
pub mod utils;
