//! FLV file and tag header parsing.

use vstd::prelude::*;

use crate::bytes::{be24, be32};
use crate::flv::error::FlvError;
use crate::media::{MediaTime, TimeBase, TrackKind};

verus! {

/// FLV content type.
#[derive(Debug, Clone, Copy, PartialEq, Eq)]
pub enum TagType {
    Audio,
    Video,
    Script,
}

/// The tag type a tag-type number names.
pub open spec fn tag_type_spec(value: u8) -> Option<TagType> {
    if value == 8 {
        Some(TagType::Audio)
    } else if value == 9 {
        Some(TagType::Video)
    } else if value == 18 {
        Some(TagType::Script)
    } else {
        None
    }
}

impl TagType {
    /// The tag type numbered `value`: 8 audio, 9 video, 18 script data.
    pub fn from_u8(value: u8) -> (t: Option<Self>)
        ensures
            t == tag_type_spec(value),
    {
        match value {
            8 => Some(TagType::Audio),
            9 => Some(TagType::Video),
            18 => Some(TagType::Script),
            _ => None,
        }
    }

    /// Map a tag type to the track kind it carries, when known.
    pub fn track_kind(self) -> (k: Option<TrackKind>)
        ensures
            k == match self {
                TagType::Audio => Some(TrackKind::Audio),
                TagType::Video => Some(TrackKind::Video),
                TagType::Script => None::<TrackKind>,
            },
    {
        match self {
            TagType::Audio => Some(TrackKind::Audio),
            TagType::Video => Some(TrackKind::Video),
            TagType::Script => None,
        }
    }
}

/// Parsed FLV file header.
#[derive(Debug, Clone, Copy, PartialEq, Eq)]
pub struct FlvHeader {
    pub version: u8,
    pub has_audio: bool,
    pub has_video: bool,
    pub header_size: u32,
}

/// Parsed 11-byte FLV tag header.
#[derive(Debug, Clone, Copy, PartialEq, Eq)]
pub struct FlvTagHeader {
    pub tag_type: TagType,
    /// The filter bit indicates an encrypted tag and is rejected by this parser.
    pub filter: bool,
    /// Size of the tag body (after the 11-byte header).
    pub data_size: u32,
    /// Tag timestamp in milliseconds.
    pub timestamp_ms: u32,
    /// Stream ID (should be 0 for valid FLV files).
    pub stream_id: u32,
}

impl FlvTagHeader {
    /// Convert the tag timestamp into a `MediaTime` with the default 1 kHz timebase.
    pub fn media_time(&self) -> (t: MediaTime)
        ensures
            t.pts == Some(self.timestamp_ms as i64),
            t.dts == Some(self.timestamp_ms as i64),
            t.duration is None,
            t.timebase.num == 1 && t.timebase.den == 1000,
    {
        MediaTime::from_ticks(
            Some(self.timestamp_ms as i64),
            Some(self.timestamp_ms as i64),
            None,
            TimeBase::millis(),
        )
    }
}

/// The bytes start with the signature "FLV".
pub open spec fn flv_signature(d: Seq<u8>) -> bool {
    d[0] == 0x46 && d[1] == 0x4C && d[2] == 0x56
}

/// What parsing a 9-byte FLV file header gives.
pub open spec fn file_header_spec(d: Seq<u8>) -> Result<FlvHeader, FlvError> {
    if d.len() < 9 {
        Err(FlvError::NeedMoreData)
    } else if !flv_signature(d) {
        Err(FlvError::InvalidSignature)
    } else if be32(d, 5) < 9 {
        Err(FlvError::MalformedHeader)
    } else {
        Ok(
            FlvHeader {
                version: d[3],
                has_audio: (d[4] & 0x04) != 0,
                has_video: (d[4] & 0x01) != 0,
                header_size: be32(d, 5) as u32,
            },
        )
    }
}

/// Reads the big-endian `u32` at `i`.
pub(crate) fn get_u32(d: &[u8], i: usize) -> (v: u32)
    requires
        i + 4 <= d@.len(),
    ensures
        v == be32(d@, i as int),
{
    (d[i] as u32) * 0x1000000 + (d[i + 1] as u32) * 0x10000 + (d[i + 2] as u32) * 0x100 + (d[i
        + 3] as u32)
}

/// Reads the big-endian 24-bit value at `i`.
pub(crate) fn get_u24(d: &[u8], i: usize) -> (v: u32)
    requires
        i + 3 <= d@.len(),
    ensures
        v == be24(d@, i as int),
{
    (d[i] as u32) * 0x10000 + (d[i + 1] as u32) * 0x100 + (d[i + 2] as u32)
}

/// Parse a 9-byte FLV file header.
pub fn parse_file_header(input: &[u8]) -> (r: Result<FlvHeader, FlvError>)
    ensures
        r == file_header_spec(input@),
{
    if input.len() < 9 {
        return Err(FlvError::NeedMoreData);
    }
    if !(input[0] == 0x46 && input[1] == 0x4C && input[2] == 0x56) {
        return Err(FlvError::InvalidSignature);
    }
    let version = input[3];
    let flags = input[4];
    let header_size = get_u32(input, 5);
    if header_size < 9 {
        return Err(FlvError::MalformedHeader);
    }
    Ok(
        FlvHeader {
            version,
            has_audio: (flags & 0x04) != 0,
            has_video: (flags & 0x01) != 0,
            header_size,
        },
    )
}

/// The timestamp of a tag: the extended byte above the lower 24 bits.
pub open spec fn tag_timestamp(d: Seq<u8>) -> int {
    d[7] as int * 0x1000000 + be24(d, 4)
}

/// What parsing an 11-byte FLV tag header gives.
pub open spec fn tag_header_spec(d: Seq<u8>) -> Result<FlvTagHeader, FlvError> {
    if d.len() < 11 {
        Err(FlvError::NeedMoreData)
    } else {
        match tag_type_spec(d[0] % 32) {
            None => Err(FlvError::MalformedTag),
            Some(t) => Ok(
                FlvTagHeader {
                    tag_type: t,
                    filter: (d[0] / 32) % 2 == 1,
                    data_size: be24(d, 1) as u32,
                    timestamp_ms: tag_timestamp(d) as u32,
                    stream_id: be24(d, 8) as u32,
                },
            ),
        }
    }
}

/// Parse an 11-byte FLV tag header.
pub fn parse_tag_header(input: &[u8]) -> (r: Result<FlvTagHeader, FlvError>)
    ensures
        r == tag_header_spec(input@),
{
    if input.len() < 11 {
        return Err(FlvError::NeedMoreData);
    }
    let tag_byte = input[0];
    let filter = (tag_byte / 32) % 2 == 1;
    let tag_type = match TagType::from_u8(tag_byte % 32) {
        Some(t) => t,
        None => return Err(FlvError::MalformedTag),
    };
    let data_size = get_u24(input, 1);
    let ts_lower = get_u24(input, 4);
    let ts_extended = input[7];
    let timestamp_ms = (ts_extended as u32) * 0x1000000 + ts_lower;
    let stream_id = get_u24(input, 8);
    Ok(FlvTagHeader { tag_type, filter, data_size, timestamp_ms, stream_id })
}

/// Total size of a tag including the 11-byte header and the data body.
pub fn tag_total_size(data_size: u32) -> (n: u32)
    requires
        data_size + 11 <= u32::MAX,
    ensures
        n == data_size + 11,
{
    11 + data_size
}

} // verus!
