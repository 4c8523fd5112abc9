//! FLV error types.

use vstd::prelude::*;

verus! {

/// Error returned by the FLV parser, demuxer, or muxer.
#[derive(Debug, Clone, Copy, PartialEq, Eq)]
pub enum FlvError {
    /// More input bytes are needed to complete the current FLV primitive.
    NeedMoreData,
    /// The FLV signature is not "FLV".
    InvalidSignature,
    /// The FLV file header is malformed.
    MalformedHeader,
    /// A tag header or tag body is malformed.
    MalformedTag,
    /// The codec indicated in a tag is not supported.
    UnsupportedCodec,
    /// A configured resource limit was exceeded.
    LimitExceeded,
    /// A tag timestamp or composition time is out of range.
    InvalidTimestamp,
    /// Script data / AMF is malformed or exceeded depth/size limits.
    InvalidAmf,
}

} // verus!
