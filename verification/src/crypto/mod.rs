//! Cryptographic building blocks and the pools that run them.

pub mod crypto_pool;
pub mod crypto_pool_phantom;
pub mod primitives;
pub mod session_keys;
