//! Verified media container parsing and writing: Annex-B, FLV, ISOBMFF,
//! MPEG-PS, MPEG-TS, HLS playlists and segment decryption transforms.

pub mod annexb;
pub mod bytes;
pub mod crypto;
pub mod flv;
pub mod hls;
pub mod isobmff;
pub mod media;
pub mod mpegps;
pub mod mpegts;
