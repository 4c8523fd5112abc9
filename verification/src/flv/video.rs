//! FLV video tag headers and keyframe detection.

use vstd::prelude::*;

use crate::bytes::{be24, be32};
use crate::flv::error::FlvError;
use crate::flv::header::{get_u24, get_u32};
use crate::isobmff::boxes::append;
use crate::media::CodecId;

verus! {

/// Video codec identifiers in the first byte of an FLV video tag
/// (7 is H.264, 12 is H.265).
#[derive(Debug, Clone, Copy, PartialEq, Eq)]
pub enum VideoCodecId {
    H264,
    H265,
    Other(u8),
}

/// The video codec numbered `v`.
pub open spec fn video_codec_spec(v: u8) -> VideoCodecId {
    if v == 7 {
        VideoCodecId::H264
    } else if v == 12 {
        VideoCodecId::H265
    } else {
        VideoCodecId::Other(v)
    }
}

impl VideoCodecId {
    /// The video codec numbered `v`.
    pub fn from_u8(v: u8) -> (c: Self)
        ensures
            c == video_codec_spec(v),
    {
        match v {
            7 => VideoCodecId::H264,
            12 => VideoCodecId::H265,
            _ => VideoCodecId::Other(v),
        }
    }

    /// The codec a video codec id carries, for H.264 and H.265.
    pub fn to_codec_id(self) -> (c: Option<CodecId>)
        ensures
            c == match self {
                VideoCodecId::H264 => Some(CodecId::H264),
                VideoCodecId::H265 => Some(CodecId::H265),
                VideoCodecId::Other(_) => None::<CodecId>,
            },
    {
        match self {
            VideoCodecId::H264 => Some(CodecId::H264),
            VideoCodecId::H265 => Some(CodecId::H265),
            VideoCodecId::Other(_) => None,
        }
    }
}

/// FLV video frame types (1 keyframe, 2 interframe, 3 disposable,
/// 4 generated, 5 info).
#[derive(Debug, Clone, Copy, PartialEq, Eq)]
pub enum FrameType {
    Keyframe,
    Interframe,
    Disposable,
    Generated,
    Info,
    Unknown(u8),
}

/// The frame type numbered `v`.
pub open spec fn frame_type_spec(v: u8) -> FrameType {
    if v == 1 {
        FrameType::Keyframe
    } else if v == 2 {
        FrameType::Interframe
    } else if v == 3 {
        FrameType::Disposable
    } else if v == 4 {
        FrameType::Generated
    } else if v == 5 {
        FrameType::Info
    } else {
        FrameType::Unknown(v)
    }
}

/// The number written for a frame type.
pub open spec fn frame_type_number(f: FrameType) -> u8 {
    match f {
        FrameType::Keyframe => 1,
        FrameType::Interframe => 2,
        FrameType::Disposable => 3,
        FrameType::Generated => 4,
        FrameType::Info => 5,
        FrameType::Unknown(v) => v,
    }
}

/// The number written for a video codec id (its low four bits for others).
pub open spec fn codec_number(c: VideoCodecId) -> u8 {
    match c {
        VideoCodecId::H264 => 7,
        VideoCodecId::H265 => 12,
        VideoCodecId::Other(v) => v % 16,
    }
}

impl FrameType {
    /// The frame type numbered `v`.
    pub fn from_u8(v: u8) -> (f: Self)
        ensures
            f == frame_type_spec(v),
    {
        match v {
            1 => FrameType::Keyframe,
            2 => FrameType::Interframe,
            3 => FrameType::Disposable,
            4 => FrameType::Generated,
            5 => FrameType::Info,
            _ => FrameType::Unknown(v),
        }
    }
}

/// Parsed FLV video tag header.
#[derive(Debug, Clone, Copy, PartialEq, Eq)]
pub struct VideoTagHeader {
    pub frame_type: FrameType,
    pub codec_id: VideoCodecId,
    /// AVC/HEVC packet type: 0 = sequence header, 1 = NALUs, 2 = end of sequence.
    pub packet_type: u8,
    /// Composition time offset in milliseconds (PTS - DTS).
    pub cts_ms: i32,
    pub header_size: usize,
}

/// The 24-bit two's-complement value `u`, sign-extended.
pub open spec fn sign_extend24(u: int) -> int {
    if u >= 0x80_0000 {
        u - 0x100_0000
    } else {
        u
    }
}

/// What parsing a video tag header at the start of `d` gives.
pub open spec fn video_header_spec(d: Seq<u8>) -> Result<VideoTagHeader, FlvError> {
    if d.len() == 0 {
        Err(FlvError::NeedMoreData)
    } else {
        let frame_type = frame_type_spec(d[0] / 16);
        let codec_id = video_codec_spec(d[0] % 16);
        match codec_id {
            VideoCodecId::Other(_) => Ok(
                VideoTagHeader { frame_type, codec_id, packet_type: 0, cts_ms: 0, header_size: 1 },
            ),
            _ => if d.len() < 5 {
                Err(FlvError::NeedMoreData)
            } else {
                Ok(
                    VideoTagHeader {
                        frame_type,
                        codec_id,
                        packet_type: d[1],
                        cts_ms: sign_extend24(be24(d, 2)) as i32,
                        header_size: 5,
                    },
                )
            },
        }
    }
}

/// The five header bytes written for an AVC/HEVC video tag; the composition
/// time goes in as the low 24 bits of its two's complement.
pub open spec fn avc_hevc_header_spec(
    frame_type: FrameType,
    codec_id: VideoCodecId,
    packet_type: u8,
    cts_ms: i32,
) -> Seq<u8> {
    let u = (cts_ms as u32) as int;
    seq![
        ((frame_type_number(frame_type) as int * 16) % 256 + codec_number(codec_id) as int) as u8,
        packet_type,
        ((u / 0x10000) % 0x100) as u8,
        ((u / 0x100) % 0x100) as u8,
        (u % 0x100) as u8,
    ]
}

impl VideoTagHeader {
    /// Parse a video tag header from the start of `data`.
    pub fn parse(data: &[u8]) -> (r: Result<Self, FlvError>)
        ensures
            r == video_header_spec(data@),
    {
        if data.len() == 0 {
            return Err(FlvError::NeedMoreData);
        }
        let b0 = data[0];
        let frame_type = FrameType::from_u8(b0 / 16);
        let codec_id = VideoCodecId::from_u8(b0 % 16);
        match codec_id {
            VideoCodecId::Other(_) => Ok(
                VideoTagHeader { frame_type, codec_id, packet_type: 0, cts_ms: 0, header_size: 1 },
            ),
            _ => {
                if data.len() < 5 {
                    return Err(FlvError::NeedMoreData);
                }
                let packet_type = data[1];
                let u = get_u24(data, 2);
                let cts_ms: i32 = if u >= 0x80_0000 {
                    (u as i32) - 0x100_0000
                } else {
                    u as i32
                };
                Ok(VideoTagHeader { frame_type, codec_id, packet_type, cts_ms, header_size: 5 })
            },
        }
    }

    /// Build a 5-byte AVC/HEVC video tag header.
    pub fn build_avc_hevc(
        frame_type: FrameType,
        codec_id: VideoCodecId,
        packet_type: u8,
        cts_ms: i32,
    ) -> (out: Vec<u8>)
        ensures
            out@ == avc_hevc_header_spec(frame_type, codec_id, packet_type, cts_ms),
    {
        let ft: u8 = match frame_type {
            FrameType::Keyframe => 1,
            FrameType::Interframe => 2,
            FrameType::Disposable => 3,
            FrameType::Generated => 4,
            FrameType::Info => 5,
            FrameType::Unknown(v) => v,
        };
        let cid: u8 = match codec_id {
            VideoCodecId::H264 => 7,
            VideoCodecId::H265 => 12,
            VideoCodecId::Other(v) => v % 16,
        };
        let b0: u8 = ((ft as u32 * 16) % 256) as u8 + cid;
        #[verifier::truncate]
        let u: u32 = cts_ms as u32;
        let mut out: Vec<u8> = Vec::new();
        out.push(b0);
        out.push(packet_type);
        out.push(((u / 0x10000) % 0x100) as u8);
        out.push(((u / 0x100) % 0x100) as u8);
        out.push((u % 0x100) as u8);
        assert(out@ =~= avc_hevc_header_spec(frame_type, codec_id, packet_type, cts_ms));
        out
    }
}

/// An H.264 NAL is an IDR slice (type 5); an H.265 NAL is an IRAP slice
/// (types 16..=23).
pub open spec fn nal_is_key(nal: Seq<u8>, codec: VideoCodecId) -> bool {
    match codec {
        VideoCodecId::H264 => nal.len() > 0 && nal[0] % 32 == 5,
        VideoCodecId::H265 => nal.len() >= 2 && 16 <= (nal[0] / 2) % 64 <= 23,
        _ => false,
    }
}

/// Walking the 4-byte length-prefixed NAL units of `d` from `i`: `None` when a
/// length prefix or a NAL body is cut short, else whether a key NAL occurs.
pub open spec fn avcc_scan(d: Seq<u8>, i: int, codec: VideoCodecId) -> Option<bool>
    decreases d.len() - i,
{
    if i >= d.len() {
        Some(false)
    } else if d.len() - i < 4 {
        None
    } else {
        let n = be32(d, i);
        if n > d.len() - i - 4 {
            None
        } else {
            match avcc_scan(d, i + 4 + n, codec) {
                None => None,
                Some(k) => Some(k || nal_is_key(d.subrange(i + 4, i + 4 + n), codec)),
            }
        }
    }
}

/// `found` joined to what the scan of the rest gives.
pub open spec fn join_scan(found: bool, rest: Option<bool>) -> Option<bool> {
    match rest {
        None => None,
        Some(k) => Some(found || k),
    }
}

/// Whether an AVCC/HVCC payload holds a key NAL: only a payload that splits
/// cleanly into length-prefixed NAL units counts.
pub open spec fn payload_key_spec(payload: Seq<u8>, codec: VideoCodecId) -> bool {
    match codec {
        VideoCodecId::H264 | VideoCodecId::H265 => avcc_scan(payload, 0, codec) == Some(true),
        _ => false,
    }
}

/// Determine whether an H.264/H.265 AVCC/HVCC payload contains a keyframe.
fn payload_is_keyframe(payload: &[u8], codec_id: VideoCodecId) -> (b: bool)
    ensures
        b == payload_key_spec(payload@, codec_id),
{
    match codec_id {
        VideoCodecId::Other(_) => return false,
        _ => {},
    }
    let mut found = false;
    let mut i: usize = 0;
    while i < payload.len()
        invariant
            i <= payload@.len(),
            !(codec_id is Other),
            avcc_scan(payload@, 0, codec_id) == join_scan(found, avcc_scan(payload@, i as int, codec_id)),
        decreases payload@.len() - i,
    {
        if payload.len() - i < 4 {
            return false;
        }
        let n = get_u32(payload, i);
        if n as usize > payload.len() - i - 4 {
            return false;
        }
        let start = i + 4;
        let end = start + n as usize;
        let key = match codec_id {
            VideoCodecId::H264 => n > 0 && payload[start] % 32 == 5,
            _ => n >= 2 && 16 <= (payload[start] / 2) % 64 && (payload[start] / 2) % 64 <= 23,
        };
        assert(key == nal_is_key(payload@.subrange(start as int, end as int), codec_id));
        found = found || key;
        i = end;
    }
    found
}

/// True if the payload should be treated as a keyframe given the tag header:
/// the frame type must say keyframe; for H.265 a key NAL must be present as
/// well, while for H.264 (whose keyframe type already signals an IDR frame)
/// and other codecs the header is trusted.
pub fn is_keyframe(payload: &[u8], header: &VideoTagHeader) -> (b: bool)
    ensures
        b == match header.frame_type {
            FrameType::Keyframe => match header.codec_id {
                VideoCodecId::H265 => payload_key_spec(payload@, header.codec_id),
                _ => true,
            },
            _ => false,
        },
{
    match header.frame_type {
        FrameType::Keyframe => match header.codec_id {
            VideoCodecId::H265 => payload_is_keyframe(payload, header.codec_id),
            _ => true,
        },
        _ => false,
    }
}

/// Build a video tag body (header + payload) for AVC/HEVC.
pub fn build_video_frame(
    codec: CodecId,
    keyframe: bool,
    packet_type: u8,
    cts_ms: i32,
    payload: &[u8],
) -> (r: Result<Vec<u8>, FlvError>)
    ensures
        match codec {
            CodecId::H264 | CodecId::H265 => r matches Ok(v) && v@ == avc_hevc_header_spec(
                if keyframe {
                    FrameType::Keyframe
                } else {
                    FrameType::Interframe
                },
                if codec == CodecId::H264 {
                    VideoCodecId::H264
                } else {
                    VideoCodecId::H265
                },
                packet_type,
                cts_ms,
            ) + payload@,
            _ => r == Err::<Vec<u8>, FlvError>(FlvError::UnsupportedCodec),
        },
{
    let codec_id = match codec {
        CodecId::H264 => VideoCodecId::H264,
        CodecId::H265 => VideoCodecId::H265,
        _ => return Err(FlvError::UnsupportedCodec),
    };
    let frame_type = if keyframe {
        FrameType::Keyframe
    } else {
        FrameType::Interframe
    };
    let mut out = VideoTagHeader::build_avc_hevc(frame_type, codec_id, packet_type, cts_ms);
    append(&mut out, payload);
    Ok(out)
}

/// An AVC or HEVC video tag header reads back as the frame type, codec,
/// packet type and composition time it was built with, whatever follows it,
/// when the frame type's number fits four bits and reads back as the same
/// type, and the composition time fits 24 signed bits.
pub proof fn lemma_video_header_round_trip(
    frame_type: FrameType,
    codec_id: VideoCodecId,
    packet_type: u8,
    cts_ms: i32,
    payload: Seq<u8>,
)
    requires
        codec_id == VideoCodecId::H264 || codec_id == VideoCodecId::H265,
        frame_type_number(frame_type) < 16,
        frame_type_spec(frame_type_number(frame_type)) == frame_type,
        -0x80_0000 <= cts_ms < 0x80_0000,
    ensures
        video_header_spec(avc_hevc_header_spec(frame_type, codec_id, packet_type, cts_ms) + payload)
            == Ok::<VideoTagHeader, FlvError>(
            VideoTagHeader { frame_type, codec_id, packet_type, cts_ms, header_size: 5 },
        ),
{
    let d = avc_hevc_header_spec(frame_type, codec_id, packet_type, cts_ms) + payload;
    let ft = frame_type_number(frame_type) as int;
    let cid = codec_number(codec_id) as int;
    assert((ft * 16) % 256 == ft * 16);
    assert(d[0] as int == ft * 16 + cid);
    assert(d[0] / 16 == ft && d[0] % 16 == cid);
    let w: u32 = cts_ms as u32;
    let u = w as int;
    let v = u % 0x100_0000;
    assert(((w / 0x10000) % 0x100) * 0x10000 + ((w / 0x100) % 0x100) * 0x100 + (w % 0x100) == w
        % 0x100_0000) by (bit_vector);
    assert(be24(d, 2) == v);
    assert(0 <= cts_ms ==> (w % 0x100_0000) as i64 == cts_ms as i64) by (bit_vector)
        requires
            w == cts_ms as u32,
            cts_ms < 0x80_0000,
    ;
    assert(cts_ms < 0 ==> (w % 0x100_0000) as i64 == cts_ms as i64 + 0x100_0000) by (bit_vector)
        requires
            w == cts_ms as u32,
            -0x80_0000 <= cts_ms,
    ;
    assert(sign_extend24(v) == cts_ms);
}

} // verus!
