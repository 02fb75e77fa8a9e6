//! Greenhouse telemetry core: a binary payload decoder, per-node and
//! per-greenhouse rolling-window averaging, and a batched durable storage
//! writer. Sensor readings are IEEE binary32 values; this crate handles them
//! as bit patterns and performs the arithmetic through a software
//! implementation of IEEE semantics, so that every decision around the
//! numbers is verified.

pub mod config;
pub mod aggregator;
pub mod decoder;
pub mod float_bits;
pub mod greenhouse_aggregator;
pub mod storage;
