//! MPEG-TS parser errors.

use vstd::prelude::*;

verus! {

/// Error returned by the MPEG-TS parser.
#[derive(Debug, Clone, PartialEq, Eq)]
pub enum TsError {
    /// Need more data; call `push` and retry.
    NeedMoreData,
    /// Packet is too short to contain a 188-byte TS packet.
    PacketTooShort,
    /// Sync byte not found or lost.
    LostSync,
    /// Input data violates the transport stream contract.
    InvalidInput { code: u32, context: Option<&'static str> },
    /// A section or PES exceeded a configured size limit.
    LimitExceeded { limit: &'static str },
    /// A capability is not implemented or not enabled.
    Unsupported { code: u32, context: Option<&'static str> },
}

impl TsError {
    /// The lost-sync error.
    pub fn lost_sync() -> (e: Self)
        ensures
            e == TsError::LostSync,
    {
        TsError::LostSync
    }

    /// An `InvalidInput` error with the given code and context.
    pub fn invalid_input(code: u32, context: Option<&'static str>) -> (e: Self)
        ensures
            e == (TsError::InvalidInput { code, context }),
    {
        TsError::InvalidInput { code, context }
    }

    /// An `Unsupported` error with the given code and context.
    pub fn unsupported(code: u32, context: Option<&'static str>) -> (e: Self)
        ensures
            e == (TsError::Unsupported { code, context }),
    {
        TsError::Unsupported { code, context }
    }
}

} // verus!
