//! The parts put together.

pub mod batches;
pub mod commands;
pub mod controller;
pub mod events;
pub mod handling;
pub mod metrics;
pub mod resources;
pub mod scaling;
pub mod system;
