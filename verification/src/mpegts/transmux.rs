//! Helpers of the MPEG-TS to fragmented MP4 transmuxer.

use vstd::prelude::*;

use crate::isobmff::error::Mp4Error;
use crate::isobmff::fmp4::{track_config_of, track_config_spec, TrackConfig};
use crate::media::TrackInfo;
use crate::mpegts::error::TsError;

verus! {

/// True when `data` starts with a 4-byte or 3-byte Annex-B start code.
pub fn looks_like_annexb(data: &[u8]) -> (b: bool)
    ensures
        b == (data@.len() >= 4 && ((data@[0] == 0 && data@[1] == 0 && data@[2] == 0 && data@[3]
            == 1) || (data@[0] == 0 && data@[1] == 0 && data@[2] == 1))),
{
    data.len() >= 4 && ((data[0] == 0 && data[1] == 0 && data[2] == 0 && data[3] == 1) || (data[0]
        == 0 && data[1] == 0 && data[2] == 1))
}

/// The numeric code reported for an MP4 error.
pub open spec fn mp4_error_code_spec(e: Mp4Error) -> u32 {
    match e {
        Mp4Error::NeedMoreData => 3500,
        Mp4Error::InvalidInput { code, .. } => code,
        Mp4Error::LimitExceeded { .. } => 3599,
        Mp4Error::Unsupported { code, .. } => code,
    }
}

/// The numeric code reported for an MP4 error.
pub fn mp4_error_code(e: &Mp4Error) -> (c: u32)
    ensures
        c == mp4_error_code_spec(*e),
{
    match e {
        Mp4Error::NeedMoreData => 3500,
        Mp4Error::InvalidInput { code, .. } => *code,
        Mp4Error::LimitExceeded { .. } => 3599,
        Mp4Error::Unsupported { code, .. } => *code,
    }
}

/// Error returned by the MPEG-TS to fragmented MP4 transmuxer.
#[derive(Debug, Clone, PartialEq, Eq)]
pub enum TsTransmuxError {
    /// Underlying TS demux failed.
    Ts(TsError),
    /// Muxer rejected a packet or track config.
    Mux(u32),
    /// Unsupported codec for MSE fMP4.
    UnsupportedCodec,
    /// Bitstream conversion failed (Annex-B / ADTS).
    Bitstream,
}

/// The muxer configuration of an MPEG-TS track: TS times are 90 kHz ticks,
/// so video runs at 90 kHz with 3000-tick frames.
pub fn track_info_to_config(info: &TrackInfo) -> (r: Result<TrackConfig, TsTransmuxError>)
    ensures
        match track_config_spec(info@, 90_000, 3000) {
            Some(c) => r matches Ok(x) && x@ == c,
            None => r == Err::<TrackConfig, TsTransmuxError>(TsTransmuxError::UnsupportedCodec),
        },
{
    match track_config_of(info, 90_000, 3000) {
        Some(c) => Ok(c),
        None => Err(TsTransmuxError::UnsupportedCodec),
    }
}

} // verus!
