//! ISOBMFF / MP4 / fMP4 error type.

use vstd::prelude::*;

verus! {

/// Error returned by the ISOBMFF readers and writers.
#[derive(Debug, Clone, PartialEq, Eq)]
pub enum Mp4Error {
    /// More data is needed to parse the next box or field.
    NeedMoreData,
    /// The input is structurally invalid.
    InvalidInput { code: u32, context: Option<&'static str> },
    /// A bounded limit was exceeded.
    LimitExceeded { limit: &'static str },
    /// A feature or codec is not supported.
    Unsupported { code: u32, context: Option<&'static str> },
}

impl Mp4Error {
    /// An `InvalidInput` error with the given code and context.
    pub fn invalid_input(code: u32, context: Option<&'static str>) -> (e: Self)
        ensures
            e == (Mp4Error::InvalidInput { code, context }),
    {
        Mp4Error::InvalidInput { code, context }
    }

    /// A `LimitExceeded` error naming `limit`.
    pub fn limit_exceeded(limit: &'static str) -> (e: Self)
        ensures
            e == (Mp4Error::LimitExceeded { limit }),
    {
        Mp4Error::LimitExceeded { limit }
    }

    /// An `Unsupported` error with the given code and context.
    pub fn unsupported(code: u32, context: Option<&'static str>) -> (e: Self)
        ensures
            e == (Mp4Error::Unsupported { code, context }),
    {
        Mp4Error::Unsupported { code, context }
    }
}

} // verus!
