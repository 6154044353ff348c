//! Packets: their byte format, and what is done with them.

pub mod dispatcher;
pub mod packet_builder;
pub mod packet_parser;
pub mod packet_service;
pub mod pipeline;
pub mod wire_format;
