//! Helpers of the FLV to fragmented MP4 transmuxer.

use vstd::prelude::*;

use crate::flv::error::FlvError;
use crate::isobmff::error::Mp4Error;
use crate::isobmff::fmp4::{track_config_of, track_config_spec, TrackConfig};
use crate::media::TrackInfo;
use crate::mpegts::transmux::mp4_error_code_spec;

verus! {

/// The numeric code reported for an MP4 error.
pub fn mp4_error_code(e: &Mp4Error) -> (c: u32)
    ensures
        c == mp4_error_code_spec(*e),
{
    match e {
        Mp4Error::NeedMoreData => 3500,
        Mp4Error::InvalidInput { code, .. } => *code,
        Mp4Error::LimitExceeded { .. } => 3599,
        Mp4Error::Unsupported { code, .. } => *code,
    }
}

/// Error returned by the FLV to fragmented MP4 transmuxer.
#[derive(Debug, Clone, PartialEq, Eq)]
pub enum TransmuxError {
    /// Underlying FLV demux failed.
    Flv(FlvError),
    /// Muxer rejected a packet or track config.
    Mux(u32),
    /// Unsupported codec for MSE fMP4.
    UnsupportedCodec,
}

/// The muxer configuration of an FLV track: FLV times are milliseconds, so
/// video runs at 1000 Hz with 33 ms frames.
pub fn track_info_to_config(info: &TrackInfo) -> (r: Result<TrackConfig, TransmuxError>)
    ensures
        match track_config_spec(info@, 1000, 33) {
            Some(c) => r matches Ok(x) && x@ == c,
            None => r == Err::<TrackConfig, TransmuxError>(TransmuxError::UnsupportedCodec),
        },
{
    match track_config_of(info, 1000, 33) {
        Some(c) => Ok(c),
        None => Err(TransmuxError::UnsupportedCodec),
    }
}

} // verus!
