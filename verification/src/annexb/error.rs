//! Errors returned by the Annex-B demuxer.

use vstd::prelude::*;

verus! {

/// Error returned by the Annex-B demuxer.
#[derive(Debug, Clone, Copy, PartialEq, Eq)]
pub enum AnnexbError {
    /// The input buffer would exceed the configured limit.
    BufferExceeded { max: usize },
    /// A NAL unit exceeded the configured maximum size.
    NalTooLarge { size: usize, max: usize },
    /// The stream is malformed (e.g. a NAL header is missing or a start code
    /// appears inside what should be a NAL header).
    InvalidInput,
    /// The requested codec is not supported by this demuxer.
    UnsupportedCodec,
}

} // verus!
