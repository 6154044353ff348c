//! A batched packet-processing core: packet framing and sealing, batch
//! cryptography, buffer pooling, circuit breaking, quality of service,
//! dispatching and the control rules that tie them together.

pub mod acceleration;
pub mod adaptive_batcher;
pub mod balance;
pub mod bounds;
pub mod buffer;
pub mod circuit_breaker;
pub mod config;
pub mod crypto;
pub mod dash;
pub mod error;
pub mod heartbeat;
pub mod histogram;
pub mod history;
pub mod integration;
pub mod io;
pub mod load_aware_dispatcher;
pub mod measure;
pub mod metrics_tracing;
pub mod optimized;
pub mod packets;
pub mod qos_manager;
pub mod ratio;
pub mod store;
pub mod text;
pub mod types;
