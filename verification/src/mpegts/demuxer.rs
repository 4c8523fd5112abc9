//! Decisions of the transport stream demuxer on elementary stream content.

use vstd::prelude::*;

verus! {

/// True for H.265 VCL NAL unit types (0..=9 and the IRAP range 16..=23).
pub fn is_h265_vcl(nal_type: u8) -> (b: bool)
    ensures
        b == (nal_type <= 9 || (16 <= nal_type <= 23)),
{
    (nal_type <= 9) || (16 <= nal_type && nal_type <= 23)
}

} // verus!
