//! The components that carry the load: buffers, cryptography, dispatching.

pub mod buffer_pool;
pub mod crypto_processor;
pub mod factory;
pub mod size_class;
pub mod work_stealing_dispatcher;
