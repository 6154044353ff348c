//! Batch cryptography: the strategy follows the batch, the results do not.

pub mod blake3_batch_accel;
pub mod chacha20_batch_accel;
pub mod parallel;
