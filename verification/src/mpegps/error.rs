//! Errors returned by the MPEG-PS demuxer.

use vstd::prelude::*;

verus! {

/// Default maximum accepted PES packet size in bytes.
pub const DEFAULT_MAX_PES_SIZE: usize = 4 * 1024 * 1024;

/// Error returned by the MPEG-PS parser.
#[derive(Debug, Clone, Copy, PartialEq, Eq)]
pub enum MpegPsError {
    /// The input buffer would exceed the configured limit.
    BufferExceeded { max: usize },
    /// A PES packet exceeded the configured maximum size.
    PacketTooLarge { size: usize, max: usize },
    /// The stream is malformed (e.g. a PES start code or length is invalid).
    InvalidInput,
    /// The requested video codec is not supported by this demuxer.
    UnsupportedVideoCodec,
    /// The PES start code was not recognized.
    UnrecognizedStreamId,
    /// More data is needed to complete the current packet.
    NeedMoreData,
}

} // verus!
