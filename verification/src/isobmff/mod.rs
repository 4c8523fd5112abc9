//! ISOBMFF / MP4 / fMP4 box reading and writing.

pub mod boxes;
pub mod demuxer;
pub mod error;
pub mod fmp4;
pub mod fragment;
pub mod moov;
pub mod muxer;
pub mod recorder;
pub mod sample_entry;
pub mod types;
