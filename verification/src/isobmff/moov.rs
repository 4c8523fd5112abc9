//! `moov` / `mvex` parsing into track state.

use vstd::prelude::*;

use crate::bytes::be32;
use crate::isobmff::boxes::read_fullbox_header;
use crate::isobmff::error::Mp4Error;
use crate::media::TrackKind;

verus! {

/// Default per-track fragment values from `trex`.
#[derive(Debug, Clone, Copy, Default, PartialEq, Eq)]
pub struct TrexDefaults {
    pub sample_description_index: u32,
    pub default_sample_duration: u64,
    pub default_sample_size: u64,
    pub default_sample_flags: u32,
}

/// The all-zero defaults used when a track has no `trex`.
pub open spec fn trex_zero() -> TrexDefaults {
    TrexDefaults {
        sample_description_index: 0,
        default_sample_duration: 0,
        default_sample_size: 0,
        default_sample_flags: 0,
    }
}

/// Demuxer state extracted from the movie header for one track.
#[derive(Debug, Clone, Copy, PartialEq, Eq)]
pub struct TrackData {
    /// Track identifier from `tkhd`.
    pub track_id: u32,
    /// Media kind from the `hdlr` handler type.
    pub kind: TrackKind,
    /// Media timescale from `mdhd`.
    pub timescale: u32,
    /// Sample entry type, e.g. `avc1` or `mp4a`.
    pub track_type: u32,
    /// Fragment defaults from `trex`.
    pub trex: TrexDefaults,
}


/// What parsing a version-dependent `u32` field of a full box gives: the field
/// lies at `off1` of the body for version 1 (body at least `min1` long) and at
/// `off0` otherwise (body at least `min0` long).
pub open spec fn versioned_u32_spec(data: Seq<u8>, min1: int, off1: int, min0: int, off0: int) -> Result<
    u32,
    Mp4Error,
> {
    if data.len() < 4 {
        Err(Mp4Error::NeedMoreData)
    } else if data[0] == 1 {
        if data.len() - 4 < min1 {
            Err(Mp4Error::NeedMoreData)
        } else {
            Ok(be32(data, 4 + off1) as u32)
        }
    } else {
        if data.len() - 4 < min0 {
            Err(Mp4Error::NeedMoreData)
        } else {
            Ok(be32(data, 4 + off0) as u32)
        }
    }
}

fn read_versioned_u32(data: &[u8], min1: usize, off1: usize, min0: usize, off0: usize) -> (r: Result<
    u32,
    Mp4Error,
>)
    requires
        off1 + 4 <= min1,
        off0 + 4 <= min0,
    ensures
        r == versioned_u32_spec(data@, min1 as int, off1 as int, min0 as int, off0 as int),
{
    let (version, _flags, body) = read_fullbox_header(data)?;
    let (min, off) = if version == 1 {
        (min1, off1)
    } else {
        (min0, off0)
    };
    if body.len() < min {
        return Err(Mp4Error::NeedMoreData);
    }
    Ok((body[off] as u32) * 0x1000000 + (body[off + 1] as u32) * 0x10000 + (body[off + 2] as u32)
        * 0x100 + (body[off + 3] as u32))
}

/// Parse an `mvhd` body and return the movie timescale.
pub fn parse_mvhd(data: &[u8]) -> (r: Result<u32, Mp4Error>)
    ensures
        r == versioned_u32_spec(data@, 28, 16, 16, 8),
{
    read_versioned_u32(data, 28, 16, 16, 8)
}

/// Parse a `tkhd` body and return the track id.
pub fn parse_tkhd(data: &[u8]) -> (r: Result<u32, Mp4Error>)
    ensures
        r == versioned_u32_spec(data@, 24, 16, 12, 8),
{
    read_versioned_u32(data, 24, 16, 12, 8)
}

/// Parse an `mdhd` body and return the media timescale.
pub fn parse_mdhd(data: &[u8]) -> (r: Result<u32, Mp4Error>)
    ensures
        r == versioned_u32_spec(data@, 28, 16, 16, 8),
{
    read_versioned_u32(data, 28, 16, 16, 8)
}

/// Parse an `hdlr` body and return the handler type bytes.
pub fn parse_hdlr(data: &[u8]) -> (r: Result<[u8; 4], Mp4Error>)
    ensures
        match r {
            Ok(h) => data@.len() >= 12 && h@ == data@.subrange(8, 12),
            Err(e) => data@.len() < 12 && e == Mp4Error::NeedMoreData,
        },
{
    let (_, _, body) = read_fullbox_header(data)?;
    if body.len() < 8 {
        return Err(Mp4Error::NeedMoreData);
    }
    let h = [body[4], body[5], body[6], body[7]];
    assert(h@ =~= data@.subrange(8, 12));
    Ok(h)
}

/// What parsing a `trex` body gives: the track id and its fragment defaults.
pub open spec fn trex_spec(data: Seq<u8>) -> Result<(u32, TrexDefaults), Mp4Error> {
    if data.len() < 24 {
        Err(Mp4Error::NeedMoreData)
    } else {
        Ok(
            (
                be32(data, 4) as u32,
                TrexDefaults {
                    sample_description_index: be32(data, 8) as u32,
                    default_sample_duration: be32(data, 12) as u64,
                    default_sample_size: be32(data, 16) as u64,
                    default_sample_flags: be32(data, 20) as u32,
                },
            ),
        )
    }
}

fn get32(b: &[u8], i: usize) -> (v: u32)
    requires
        i + 4 <= b.len(),
    ensures
        v == be32(b@, i as int),
{
    (b[i] as u32) * 0x1000000 + (b[i + 1] as u32) * 0x10000 + (b[i + 2] as u32) * 0x100 + (b[i
        + 3] as u32)
}

/// Parse a `trex` body.
pub fn parse_trex(data: &[u8]) -> (r: Result<(u32, TrexDefaults), Mp4Error>)
    ensures
        r == trex_spec(data@),
{
    if data.len() < 24 {
        return Err(Mp4Error::NeedMoreData);
    }
    let track_id = get32(data, 4);
    let sample_description_index = get32(data, 8);
    let default_sample_duration = get32(data, 12) as u64;
    let default_sample_size = get32(data, 16) as u64;
    let default_sample_flags = get32(data, 20);
    Ok(
        (
            track_id,
            TrexDefaults {
                sample_description_index,
                default_sample_duration,
                default_sample_size,
                default_sample_flags,
            },
        ),
    )
}

} // verus!
