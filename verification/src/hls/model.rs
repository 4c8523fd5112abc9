//! Data models for the parts of HLS playlists that hold no durations.

use vstd::prelude::*;

verus! {

/// The characters of an optional string.
pub open spec fn opt_str(o: Option<String>) -> Option<Seq<char>> {
    match o {
        Some(s) => Some(s@),
        None => None,
    }
}

/// How a media playlist may change.
#[derive(Debug, Clone, Copy, PartialEq, Eq)]
pub enum PlaylistType {
    Vod,
    Event,
}

/// The kind of an alternative rendition.
#[derive(Debug, Clone, Copy, PartialEq, Eq)]
pub enum RenditionType {
    Audio,
    Video,
    Subtitles,
    ClosedCaptions,
}

/// An alternative rendition (`#EXT-X-MEDIA`).
#[derive(Debug, Clone, PartialEq, Eq)]
pub struct MediaRendition {
    pub kind: RenditionType,
    pub uri: Option<String>,
    pub group_id: String,
    pub language: Option<String>,
    pub assoc_language: Option<String>,
    pub name: String,
    pub default: bool,
    pub auto_select: bool,
    pub forced: bool,
    pub in_stream_id: Option<String>,
    pub characteristics: Vec<String>,
    pub channels: Option<String>,
}

/// An encryption key (`#EXT-X-KEY`, `#EXT-X-SESSION-KEY`).
#[derive(Debug, Clone, PartialEq, Eq)]
pub struct Key {
    pub method: String,
    pub uri: Option<String>,
    pub iv: Option<String>,
    pub key_format: String,
    pub key_format_versions: String,
}

/// Session data (`#EXT-X-SESSION-DATA`).
#[derive(Debug, Clone, PartialEq, Eq)]
pub struct SessionData {
    pub data_id: String,
    pub value: Option<String>,
    pub uri: Option<String>,
    pub language: Option<String>,
}

/// A variable definition (`#EXT-X-DEFINE`).
#[derive(Debug, Clone, PartialEq, Eq)]
pub struct Variable {
    pub name: String,
    pub value: Option<String>,
    pub import: Option<String>,
    pub quote: Option<char>,
}

/// A byte range: `length` bytes, from `offset` when given.
#[derive(Debug, Clone, Copy, PartialEq, Eq)]
pub struct ByteRange {
    pub length: u64,
    pub offset: Option<u64>,
}

/// A media initialization section (`#EXT-X-MAP`).
#[derive(Debug, Clone, PartialEq, Eq)]
pub struct SegmentMap {
    pub uri: String,
    pub byte_range: Option<ByteRange>,
}

/// What a preload hint announces: a partial segment, or a media
/// initialization section (`TYPE=MAP`).
#[derive(Debug, Clone, Copy, PartialEq, Eq)]
pub enum PreloadHintType {
    Part,
    InitMap,
}

/// A preload hint (`#EXT-X-PRELOAD-HINT`).
#[derive(Debug, Clone, PartialEq, Eq)]
pub struct PreloadHint {
    pub kind: PreloadHintType,
    pub uri: String,
    pub byte_range: Option<ByteRange>,
}

/// Skipped segments of a delta update (`#EXT-X-SKIP`).
#[derive(Debug, Clone, PartialEq, Eq)]
pub struct Skip {
    pub skipped_segments: u32,
    pub recently_removed_dateranges: Vec<String>,
}

/// A rendition report (`#EXT-X-RENDITION-REPORT`).
#[derive(Debug, Clone, PartialEq, Eq)]
pub struct RenditionReport {
    pub uri: String,
    pub last_msn: u64,
    pub last_part: Option<u64>,
}

} // verus!
