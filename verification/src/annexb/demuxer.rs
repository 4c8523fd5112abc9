//! Annex-B start-code scanning and NAL unit classification.

use vstd::prelude::*;

use crate::isobmff::boxes::slice_range;
use crate::media::CodecId;

verus! {

/// Where the scan from `i` finds the next start code, as `(position, code length)`.
///
/// A four-byte code `00 00 00 01` wins over the three-byte `00 00 01` at the
/// same position; an emulation-prevention sequence `00 00 03 xx` with
/// `xx <= 3` is skipped as a whole, so no start code is read inside it.
pub open spec fn annexb_scan(d: Seq<u8>, i: int) -> Option<(int, int)>
    decreases d.len() - i,
{
    if i < 0 || i + 2 >= d.len() {
        None
    } else if d[i] == 0 && d[i + 1] == 0 {
        if i + 3 < d.len() && d[i + 2] == 0 && d[i + 3] == 1 {
            Some((i, 4))
        } else if d[i + 2] == 1 {
            Some((i, 3))
        } else if d[i + 2] == 3 && i + 3 < d.len() && d[i + 3] <= 3 {
            annexb_scan(d, i + 4)
        } else {
            annexb_scan(d, i + 1)
        }
    } else {
        annexb_scan(d, i + 1)
    }
}

/// A start code of `len` bytes begins at `p`.
pub open spec fn start_code_of_len(d: Seq<u8>, p: int, len: int) -> bool {
    &&& 0 <= p
    &&& p + len <= d.len()
    &&& d[p] == 0
    &&& d[p + 1] == 0
    &&& (len == 3 && d[p + 2] == 1 || len == 4 && d[p + 2] == 0 && d[p + 3] == 1)
}

/// What the scan finds is a start code at or after where it began.
pub proof fn lemma_scan_finds_start_code(d: Seq<u8>, i: int)
    ensures
        annexb_scan(d, i) matches Some((p, l)) ==> i <= p && start_code_of_len(d, p, l),
    decreases d.len() - i,
{
    if i < 0 || i + 2 >= d.len() {
    } else if d[i] == 0 && d[i + 1] == 0 {
        if i + 3 < d.len() && d[i + 2] == 0 && d[i + 3] == 1 {
        } else if d[i + 2] == 1 {
        } else if d[i + 2] == 3 && i + 3 < d.len() && d[i + 3] <= 3 {
            lemma_scan_finds_start_code(d, i + 4);
        } else {
            lemma_scan_finds_start_code(d, i + 1);
        }
    } else {
        lemma_scan_finds_start_code(d, i + 1);
    }
}

/// Find the next Annex-B start code, skipping emulation prevention bytes.
///
/// Returns `(position, code_len)` where `code_len` is 3 or 4.
pub fn find_start_code(data: &[u8], start: usize) -> (r: Option<(usize, usize)>)
    ensures
        match annexb_scan(data@, start as int) {
            Some((p, l)) => r == Some((p as usize, l as usize)),
            None => r is None,
        },
        r matches Some((p, l)) ==> start <= p && start_code_of_len(data@, p as int, l as int),
{
    proof {
        lemma_scan_finds_start_code(data@, start as int);
    }
    if data.len() < 3 || start > data.len() - 3 {
        return None;
    }
    let mut i = start;
    while i < data.len() && data.len() - i > 2
        invariant
            start <= i,
            annexb_scan(data@, start as int) == annexb_scan(data@, i as int),
        decreases data.len() - i,
    {
        if data[i] == 0x00 && data[i + 1] == 0x00 {
            if data.len() - i > 3 && data[i + 2] == 0x00 && data[i + 3] == 0x01 {
                return Some((i, 4));
            }
            if data[i + 2] == 0x01 {
                return Some((i, 3));
            }
            if data[i + 2] == 0x03 && data.len() - i > 3 && data[i + 3] <= 0x03 {
                i += 4;
                continue;
            }
        }
        i += 1;
    }
    None
}

/// Strip the NAL header byte to obtain the RBSP payload.
pub fn nal_payload(nal: &[u8]) -> (r: &[u8])
    requires
        nal@.len() >= 1,
    ensures
        r@ == nal@.subrange(1, nal@.len() as int),
{
    slice_range(nal, 1, nal.len())
}

/// The H.265 NAL unit type in the first header byte.
pub open spec fn h265_nal_type(b: u8) -> int {
    (b as int / 2) % 64
}

/// True for H.264 SEI (NAL type 6) and H.265 SEI (NAL types 39/40).
pub fn is_sei(codec: CodecId, nal: &[u8]) -> (b: bool)
    ensures
        b == match codec {
            CodecId::H264 => nal@.len() >= 1 && nal@[0] % 32 == 6,
            CodecId::H265 => nal@.len() >= 2 && (h265_nal_type(nal@[0]) == 39 || h265_nal_type(
                nal@[0],
            ) == 40),
            _ => false,
        },
{
    match codec {
        CodecId::H264 => {
            if nal.len() == 0 {
                return false;
            }
            nal[0] % 32 == 6
        },
        CodecId::H265 => {
            if nal.len() < 2 {
                return false;
            }
            let nal_type = (nal[0] / 2) % 64;
            nal_type == 39 || nal_type == 40
        },
        _ => false,
    }
}

/// True for H.264 IDR slices (NAL type 5) and H.265 IRAP slices (types 16..=23).
pub fn is_keyframe(codec: CodecId, nal: &[u8]) -> (b: bool)
    ensures
        b == match codec {
            CodecId::H264 => nal@.len() >= 1 && nal@[0] % 32 == 5,
            CodecId::H265 => nal@.len() >= 2 && 16 <= h265_nal_type(nal@[0]) <= 23,
            _ => false,
        },
{
    match codec {
        CodecId::H264 => {
            if nal.len() == 0 {
                return false;
            }
            nal[0] % 32 == 5
        },
        CodecId::H265 => {
            if nal.len() < 2 {
                return false;
            }
            let nal_type = (nal[0] / 2) % 64;
            16 <= nal_type && nal_type <= 23
        },
        _ => false,
    }
}

} // verus!
