//! Watching over the batch system: health of its components, and metrics.

pub mod batch_system_monitor;
pub mod health_check;
pub mod metrics;
