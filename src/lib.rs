//! In-memory store for a voxel world: bit-packed blocks, fixed-size chunks,
//! chunk-space addressing and radius-based streaming of chunks around a center.

pub mod block;
pub mod chunk;
pub mod coord;
mod key;
pub mod streaming;
pub mod ui;
pub mod world;
