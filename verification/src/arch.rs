//! The parts of the collector.
pub mod action_gateway;
pub mod execution_probe_module;
pub mod records;
pub mod schema;
pub mod signing;
pub mod storage;
pub mod vocabulary;
