//! Streaming reader for uncompressed PCM audio in RIFF/WAVE containers.
//!
//! The crate scans the chunk structure of a container, decodes its format
//! descriptor and turns raw bytes of the sample region into typed samples.
//! Every list and buffer has a capacity fixed at compile time.

pub mod error;
pub mod tag;
pub mod chunk;
pub mod fmt;
pub mod sample;
pub mod locate;
pub mod wav;
pub mod scan_laws;
pub mod audio;
pub mod buffer_laws;
pub mod container_laws;
