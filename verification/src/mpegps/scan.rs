//! Start-code scanning helpers for MPEG-PS and PES payloads.

use vstd::prelude::*;

verus! {

/// A `00 00 01` start code begins at `i`.
pub open spec fn start_code_at(d: Seq<u8>, i: int) -> bool {
    &&& 0 <= i
    &&& i + 2 < d.len()
    &&& d[i] == 0
    &&& d[i + 1] == 0
    &&& d[i + 2] == 1
}

/// A program-stream boundary begins at `i`: a 4-byte (`00 00 00 01`) or
/// 3-byte (`00 00 01`) start code followed by a stream id of at least 0xB9.
pub open spec fn ps_boundary_at(d: Seq<u8>, i: int) -> bool {
    &&& 0 <= i
    &&& i + 3 < d.len()
    &&& d[i] == 0
    &&& d[i + 1] == 0
    &&& {
        ||| (d[i + 2] == 0 && i + 4 < d.len() && d[i + 3] == 1 && d[i + 4] >= 0xB9)
        ||| (d[i + 2] == 1 && d[i + 3] >= 0xB9)
    }
}

/// The first position at or after `i` where a start code begins.
pub open spec fn first_start_code(d: Seq<u8>, i: int) -> Option<int>
    decreases d.len() - i,
{
    if i < 0 || i + 2 >= d.len() {
        None
    } else if start_code_at(d, i) {
        Some(i)
    } else {
        first_start_code(d, i + 1)
    }
}

/// The first position at or after `i` where a program-stream boundary begins.
pub open spec fn first_ps_boundary(d: Seq<u8>, i: int) -> Option<int>
    decreases d.len() - i,
{
    if i < 0 || i + 3 >= d.len() {
        None
    } else if ps_boundary_at(d, i) {
        Some(i)
    } else {
        first_ps_boundary(d, i + 1)
    }
}

/// Find the next `0x000001` start code in `data` starting from `start`.
///
/// The result is the first position at or after `start` where one begins.
pub fn find_start_code(data: &[u8], start: usize) -> (r: Option<usize>)
    ensures
        match r {
            Some(p) => start <= p && start_code_at(data@, p as int) && forall|j: int|
                start <= j < p ==> !start_code_at(data@, j),
            None => forall|j: int| start <= j ==> !start_code_at(data@, j),
        },
        match first_start_code(data@, start as int) {
            Some(p) => r == Some(p as usize) && start <= p < data@.len(),
            None => r is None,
        },
{
    let mut i = start;
    while i < data.len() && data.len() - i > 2
        invariant
            start <= i,
            forall|j: int| start <= j < i ==> !start_code_at(data@, j),
            first_start_code(data@, start as int) == first_start_code(data@, i as int),
        decreases data.len() - i,
    {
        if data[i] == 0x00 && data[i + 1] == 0x00 && data[i + 2] == 0x01 {
            return Some(i);
        }
        i += 1;
    }
    None
}

/// Find the next PS boundary (a 3-byte or 4-byte start code followed by a
/// stream id >= 0xB9). NAL start codes inside PES payloads are followed by
/// bytes < 0x80, so they will not be mistaken for PS boundaries.
///
/// The result is the first position at or after `start` where one begins.
pub fn find_ps_boundary(data: &[u8], start: usize) -> (r: Option<usize>)
    ensures
        match r {
            Some(p) => start <= p && ps_boundary_at(data@, p as int) && forall|j: int|
                start <= j < p ==> !ps_boundary_at(data@, j),
            None => forall|j: int| start <= j ==> !ps_boundary_at(data@, j),
        },
        match first_ps_boundary(data@, start as int) {
            Some(p) => r == Some(p as usize) && start <= p < data@.len(),
            None => r is None,
        },
{
    let mut i = start;
    while i < data.len() && data.len() - i > 3
        invariant
            start <= i,
            forall|j: int| start <= j < i ==> !ps_boundary_at(data@, j),
            first_ps_boundary(data@, start as int) == first_ps_boundary(data@, i as int),
        decreases data.len() - i,
    {
        if data[i] == 0x00 && data[i + 1] == 0x00 {
            if data[i + 2] == 0x00 && data.len() - i > 4 && data[i + 3] == 0x01 && data[i + 4]
                >= 0xB9 {
                return Some(i);
            }
            if data[i + 2] == 0x01 && data[i + 3] >= 0xB9 {
                return Some(i);
            }
        }
        i += 1;
    }
    None
}

} // verus!
