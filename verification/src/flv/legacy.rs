//! The compact FLV header parser: file header with the first previous-tag
//! size, and tag headers carrying a media time.

use vstd::prelude::*;

use crate::bytes::{be24, be32};
use crate::flv::header::{get_u24, get_u32, tag_timestamp};
use crate::media::{MediaTime, TimeBase, TrackKind};

verus! {

/// Error returned by the compact FLV parser.
#[derive(Debug, Clone, Copy, PartialEq, Eq)]
pub enum FlvError {
    InvalidSignature,
    MalformedHeader,
    EndOfStream,
}

/// FLV content type.
#[derive(Debug, Clone, Copy, PartialEq, Eq)]
pub enum TagType {
    Audio,
    Video,
    Script,
}

/// The tag type a tag-type number names.
pub open spec fn tag_type_spec(value: u8) -> Option<TagType> {
    if value == 8 {
        Some(TagType::Audio)
    } else if value == 9 {
        Some(TagType::Video)
    } else if value == 18 {
        Some(TagType::Script)
    } else {
        None
    }
}

impl TagType {
    /// The tag type numbered `value`: 8 audio, 9 video, 18 script data.
    pub fn from_u8(value: u8) -> (t: Option<Self>)
        ensures
            t == tag_type_spec(value),
    {
        match value {
            8 => Some(TagType::Audio),
            9 => Some(TagType::Video),
            18 => Some(TagType::Script),
            _ => None,
        }
    }

    /// Map a tag type to the track kind it carries, when known.
    pub fn track_kind(self) -> (k: Option<TrackKind>)
        ensures
            k == match self {
                TagType::Audio => Some(TrackKind::Audio),
                TagType::Video => Some(TrackKind::Video),
                TagType::Script => None::<TrackKind>,
            },
    {
        match self {
            TagType::Audio => Some(TrackKind::Audio),
            TagType::Video => Some(TrackKind::Video),
            TagType::Script => None,
        }
    }
}

/// Parsed FLV file header.
#[derive(Debug, Clone, Copy, PartialEq, Eq)]
pub struct FlvHeader {
    pub version: u8,
    pub has_audio: bool,
    pub has_video: bool,
    pub header_size: u32,
}

/// Parsed FLV tag header.
#[derive(Debug, Clone, Copy, PartialEq, Eq)]
pub struct FlvTagHeader {
    pub tag_type: TagType,
    pub filter: bool,
    pub data_size: u32,
    pub timestamp: MediaTime,
    pub stream_id: u32,
}

/// What parsing an FLV file header gives. The signature is checked as soon
/// as three bytes are there; a missing first previous-tag size is no error.
pub open spec fn header_spec(d: Seq<u8>) -> Result<FlvHeader, FlvError> {
    if d.len() < 3 {
        Err(FlvError::EndOfStream)
    } else if !(d[0] == 0x46 && d[1] == 0x4C && d[2] == 0x56) {
        Err(FlvError::InvalidSignature)
    } else if d.len() < 9 {
        Err(FlvError::EndOfStream)
    } else if be32(d, 5) < 9 {
        Err(FlvError::MalformedHeader)
    } else {
        Ok(
            FlvHeader {
                version: d[3],
                has_audio: (d[4] & 0x04) != 0,
                has_video: (d[4] & 0x01) != 0,
                header_size: be32(d, 5) as u32,
            },
        )
    }
}

/// Parse an FLV file header.
///
/// Consumes the 9-byte header and the first 4-byte PreviousTagSize0.
pub fn parse_header(input: &[u8]) -> (r: Result<FlvHeader, FlvError>)
    ensures
        r == header_spec(input@),
{
    if input.len() < 3 {
        return Err(FlvError::EndOfStream);
    }
    if !(input[0] == 0x46 && input[1] == 0x4C && input[2] == 0x56) {
        return Err(FlvError::InvalidSignature);
    }
    if input.len() < 9 {
        return Err(FlvError::EndOfStream);
    }
    let version = input[3];
    let flags = input[4];
    let header_size = get_u32(input, 5);
    if header_size < 9 {
        return Err(FlvError::MalformedHeader);
    }
    Ok(
        FlvHeader {
            version,
            has_audio: (flags & 0x04) != 0,
            has_video: (flags & 0x01) != 0,
            header_size,
        },
    )
}

/// What parsing an FLV tag header gives: the tag type is checked on the
/// first byte, before the remaining ten are required.
pub open spec fn tag_header_spec(d: Seq<u8>) -> Result<FlvTagHeader, FlvError> {
    if d.len() < 1 {
        Err(FlvError::EndOfStream)
    } else {
        match tag_type_spec(d[0] % 32) {
            None => Err(FlvError::MalformedHeader),
            Some(t) => if d.len() < 11 {
                Err(FlvError::EndOfStream)
            } else {
                Ok(
                    FlvTagHeader {
                        tag_type: t,
                        filter: (d[0] / 32) % 2 == 1,
                        data_size: be24(d, 1) as u32,
                        timestamp: MediaTime {
                            pts: Some(tag_timestamp(d) as i64),
                            dts: Some(tag_timestamp(d) as i64),
                            duration: None,
                            timebase: TimeBase { num: 1, den: 1000 },
                        },
                        stream_id: be24(d, 8) as u32,
                    },
                )
            },
        }
    }
}

/// Parse an FLV tag header.
pub fn parse_tag_header(input: &[u8]) -> (r: Result<FlvTagHeader, FlvError>)
    ensures
        r == tag_header_spec(input@),
{
    if input.len() < 1 {
        return Err(FlvError::EndOfStream);
    }
    let tag_byte = input[0];
    let tag_type = match TagType::from_u8(tag_byte % 32) {
        Some(t) => t,
        None => return Err(FlvError::MalformedHeader),
    };
    let filter = (tag_byte / 32) % 2 == 1;
    if input.len() < 11 {
        return Err(FlvError::EndOfStream);
    }
    let data_size = get_u24(input, 1);
    let ts_lower = get_u24(input, 4);
    let ts_extended = input[7];
    let timestamp_ms = (ts_extended as u32) * 0x1000000 + ts_lower;
    let stream_id = get_u24(input, 8);
    Ok(
        FlvTagHeader {
            tag_type,
            filter,
            data_size,
            timestamp: MediaTime::from_ticks(
                Some(timestamp_ms as i64),
                Some(timestamp_ms as i64),
                None,
                TimeBase::millis(),
            ),
            stream_id,
        },
    )
}

} // verus!
