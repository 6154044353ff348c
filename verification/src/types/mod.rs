//! Types that every part of the batch system shares.

pub mod error;
pub mod packet_types;
pub mod priority;
