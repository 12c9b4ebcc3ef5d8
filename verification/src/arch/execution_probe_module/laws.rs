//! What the operations are for, as laws over their inputs and results.
pub mod accounts;
pub mod answers;
pub mod connecting;
pub mod exposure;
pub mod filling;
pub mod flattening;
pub mod gains;
pub mod grid;
pub mod market;
pub mod placing;
pub mod queue;
pub mod reading;
pub mod sending;
pub mod setup;
pub mod timing;
