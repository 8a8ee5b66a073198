//! Multiplexing of decoded video and audio access units into fragmented-MP4
//! (ISO-BMFF) media segments, and parsing of the header region of a raw FLAC
//! stream.
//!
//! The sample tables, timestamp arithmetic, audio classification and FLAC
//! header parsing are verified; the low-level ISO-BMFF box serialization is
//! delegated to the `mse_fmp4` box-model crate through a small trusted layer.

pub mod adts;
pub mod boxes;
pub mod flac;
pub mod fmp4;
pub mod sample;
