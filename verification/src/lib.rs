//! A per-channel telemetry sink: a bounded producer/consumer record queue,
//! a binary wire codec with compression for a background transport thread,
//! and a delta-image codec that keeps raster updates small.
//!
//! The library holds the verified core: the wire record model, the binary
//! encoding of records, the delta-image encoder and decoder, the plot/series
//! registry, and the sink's enqueue policy. Socket handling and thread
//! lifecycle live outside the library, around it.

pub mod records;
pub mod delta;
pub mod outside;
pub mod codec;
pub mod transport;
pub mod sink;
