//! Annex-B H.264/H.265 byte streams: start codes, NAL classification and
//! parameter-set caching.

pub mod demuxer;
pub mod error;
pub mod param_sets;
