//! MPEG-2 Program Stream pack header parsing.

use vstd::prelude::*;

use crate::mpegps::error::MpegPsError;

verus! {

/// Minimum fixed pack header size in bytes (start code + 10 fixed bytes).
pub const PACK_FIXED_SIZE: usize = 14;

/// A parsed MPEG-2 PS pack header.
#[derive(Debug, Clone, Copy, PartialEq, Eq)]
pub struct PackHeader {
    /// Byte offset in the input where the first byte after this pack header is.
    pub end_offset: usize,
}

/// What parsing a pack header at the start of `data` gives.
pub open spec fn pack_header_spec(data: Seq<u8>) -> Result<PackHeader, MpegPsError> {
    if data.len() < 14 {
        Err(MpegPsError::NeedMoreData)
    } else if data[0] != 0 || data[1] != 0 || data[2] != 1 || data[3] != 0xBA {
        Err(MpegPsError::InvalidInput)
    } else {
        let end = 14 + data[13] as int % 8;
        if data.len() < end {
            Err(MpegPsError::NeedMoreData)
        } else {
            Ok(PackHeader { end_offset: end as usize })
        }
    }
}

/// Parse a pack header that begins at `data[0]` with the `0x000001BA` start code.
///
/// The fixed pack header is 14 bytes; the last byte's lower three bits hold the
/// `pack_stuffing_length`. Any stuffing bytes are skipped.
pub fn parse_pack_header(data: &[u8]) -> (r: Result<PackHeader, MpegPsError>)
    ensures
        r == pack_header_spec(data@),
{
    if data.len() < PACK_FIXED_SIZE {
        return Err(MpegPsError::NeedMoreData);
    }
    if data[0] != 0x00 || data[1] != 0x00 || data[2] != 0x01 || data[3] != 0xBA {
        return Err(MpegPsError::InvalidInput);
    }
    let stuffing_len = (data[13] % 8) as usize;
    let end_offset = PACK_FIXED_SIZE + stuffing_len;
    if data.len() < end_offset {
        return Err(MpegPsError::NeedMoreData);
    }
    Ok(PackHeader { end_offset })
}

/// True if `code` is a pack start code identifier.
pub fn is_pack_start_code(code: u8) -> (b: bool)
    ensures
        b == (code == 0xBA),
{
    code == 0xBA
}

/// True if `code` is a system-level start code that should be skipped rather
/// than treated as a PES packet.
pub fn is_system_start_code(code: u8) -> (b: bool)
    ensures
        b == (code == 0xBB || code == 0xBC || code == 0xBE || code == 0xBF),
{
    code == 0xBB || code == 0xBC || code == 0xBE || code == 0xBF
}

} // verus!
