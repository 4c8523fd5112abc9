//! MPEG-TS transport stream packet, PES and PSI parsing, and clock recovery.

pub mod clock;
pub mod demuxer;
pub mod error;
pub mod packet;
pub mod pes;
pub mod section;
pub mod transmux;
