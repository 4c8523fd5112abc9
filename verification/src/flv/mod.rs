//! FLV container format: file and tag headers, audio and video tag headers,
//! AMF0 primitives, and a compact header parser with its own error type.

pub mod amf;
pub mod audio;
pub mod error;
pub mod header;
pub mod legacy;
pub mod muxer;
pub mod recorder;
pub mod transmux;
pub mod video;
