//! MPEG-2 Program Stream PES packet handling.

use vstd::prelude::*;

use crate::mpegps::error::{DEFAULT_MAX_PES_SIZE, MpegPsError};
use crate::mpegts::error::TsError;
use crate::mpegts::pes::{pes_header_spec, PesHeader};

verus! {

/// The program-stream error a transport-stream PES error stands for.
pub open spec fn pes_error_spec(err: TsError) -> MpegPsError {
    match err {
        TsError::NeedMoreData | TsError::PacketTooShort => MpegPsError::NeedMoreData,
        TsError::LostSync | TsError::InvalidInput { .. } | TsError::Unsupported { .. } => {
            MpegPsError::InvalidInput
        },
        TsError::LimitExceeded { .. } => MpegPsError::PacketTooLarge {
            size: 0,
            max: DEFAULT_MAX_PES_SIZE,
        },
    }
}

/// Parse a PES header from `data` starting with the `0x000001` prefix.
pub fn parse_pes_header(data: &[u8]) -> (r: Result<PesHeader, MpegPsError>)
    ensures
        match pes_header_spec(data@) {
            Ok(h) => r == Ok::<PesHeader, MpegPsError>(h),
            Err(e) => r == Err::<PesHeader, MpegPsError>(pes_error_spec(e)),
        },
{
    match crate::mpegts::pes::parse_pes_header(data) {
        Ok(h) => Ok(h),
        Err(e) => Err(map_pes_error(e)),
    }
}

/// True if `stream_id` indicates a video stream.
pub fn is_video_stream(stream_id: u8) -> (b: bool)
    ensures
        b == (0xE0 <= stream_id <= 0xEF),
{
    crate::mpegts::pes::is_video_stream(stream_id)
}

/// True if `stream_id` indicates an audio stream (including private stream 1).
pub fn is_audio_stream(stream_id: u8) -> (b: bool)
    ensures
        b == ((0xC0 <= stream_id <= 0xDF) || stream_id == 0xBD),
{
    crate::mpegts::pes::is_audio_stream(stream_id)
}

/// Map a transport-stream PES error to the program-stream error.
pub fn map_pes_error(err: TsError) -> (e: MpegPsError)
    ensures
        e == pes_error_spec(err),
{
    match err {
        TsError::NeedMoreData | TsError::PacketTooShort => MpegPsError::NeedMoreData,
        TsError::LostSync | TsError::InvalidInput { .. } | TsError::Unsupported { .. } => {
            MpegPsError::InvalidInput
        },
        TsError::LimitExceeded { .. } => MpegPsError::PacketTooLarge {
            size: 0,
            max: DEFAULT_MAX_PES_SIZE,
        },
    }
}

} // verus!
