//! Core logic of a video-conversion utility: quality tiers, probe-metadata
//! interpretation, aspect-ratio-preserving dimension resolution, encoder
//! argument construction, and progress-line interpretation with ETA
//! computation. All I/O (probing, spawning the encoder, reading its
//! diagnostic stream) lives with the host around this library; the library
//! works on plain values.

pub mod launch;
pub mod probe;
pub mod progress;
pub mod resolve;
pub mod tier;
