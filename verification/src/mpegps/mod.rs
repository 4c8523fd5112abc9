//! MPEG-2 Program Stream pack headers, PES headers, start-code scanning and
//! the cutting of ADTS frames from audio payloads.

pub mod audio;
pub mod demuxer;
pub mod error;
pub mod pack;
pub mod pes;
pub mod scan;
