//! Tables and helpers of the progressive MP4 writer.

use vstd::prelude::*;

use crate::bytes::{be32, bytes16, bytes32, bytes64, lemma_be32_bytes32};
use crate::isobmff::boxes::{
    append, box_bytes, iter_boxes, next_box_spec, write_box, write_u32, write_u64,
};
use crate::isobmff::error::Mp4Error;
use crate::isobmff::fmp4::{
    config_len, dref_box, handler, hdlr_box, lemma_box_len, mdhd_box, media_header, mvhd_box,
    patch4, patch_u32_be, stsd_box, tkhd_box, tkhd_size, write_hdlr, write_mdhd, write_mvhd,
    write_stsd, write_tkhd, zeros, TrackConfig,
};
use crate::isobmff::muxer::{
    ftyp_body, fullbox, push_fullbox, push_isom, push_mp41, write_dinf, write_smhd, write_vmhd,
};
use crate::isobmff::types::{
    CTTS, DREF, FTYP, HDLR, MDAT, MDHD, MDIA, MINF, MOOV, SMHD, STBL, STCO, STSC, STSS, STSZ, STTS,
    TKHD, TRAK, URL, VMHD,
};
use crate::media::{MediaPacket, TrackKind};

verus! {

/// The `ftyp` box of a progressive file.
pub fn write_ftyp() -> (r: Vec<u8>)
    ensures
        r@ == box_bytes(FTYP, ftyp_body()),
{
    let mut body = Vec::with_capacity(24);
    push_isom(&mut body);
    write_u32(&mut body, 0x200);
    push_isom(&mut body);
    push_mp41(&mut body);
    assert(body@ =~= ftyp_body());
    write_box(FTYP, body.as_slice())
}

/// The 32-bit pattern of a signed 32-bit value.
pub open spec fn bits32(o: i32) -> int {
    if o < 0 {
        o + 0x1_0000_0000
    } else {
        o as int
    }
}

/// Each pair written as two big-endian `u32`s.
pub open spec fn pairs_bytes(runs: Seq<(u32, u32)>) -> Seq<u8>
    decreases runs.len(),
{
    if runs.len() == 0 {
        Seq::empty()
    } else {
        pairs_bytes(runs.drop_last()) + bytes32(runs.last().0 as int) + bytes32(runs.last().1 as int)
    }
}

/// Each pair written as a big-endian `u32` count and the 32-bit pattern of the offset.
pub open spec fn signed_pairs_bytes(runs: Seq<(u32, i32)>) -> Seq<u8>
    decreases runs.len(),
{
    if runs.len() == 0 {
        Seq::empty()
    } else {
        signed_pairs_bytes(runs.drop_last()) + bytes32(runs.last().0 as int) + bytes32(
            bits32(runs.last().1),
        )
    }
}

/// Each value written as a big-endian `u32`.
pub open spec fn u32s_bytes(vals: Seq<u32>) -> Seq<u8>
    decreases vals.len(),
{
    if vals.len() == 0 {
        Seq::empty()
    } else {
        u32s_bytes(vals.drop_last()) + bytes32(vals.last() as int)
    }
}

proof fn lemma_pairs_len(runs: Seq<(u32, u32)>)
    ensures
        pairs_bytes(runs).len() == 8 * runs.len(),
    decreases runs.len(),
{
    if runs.len() > 0 {
        lemma_pairs_len(runs.drop_last());
    }
}

proof fn lemma_signed_pairs_len(runs: Seq<(u32, i32)>)
    ensures
        signed_pairs_bytes(runs).len() == 8 * runs.len(),
    decreases runs.len(),
{
    if runs.len() > 0 {
        lemma_signed_pairs_len(runs.drop_last());
    }
}

proof fn lemma_u32s_len(vals: Seq<u32>)
    ensures
        u32s_bytes(vals).len() == 4 * vals.len(),
    decreases vals.len(),
{
    if vals.len() > 0 {
        lemma_u32s_len(vals.drop_last());
    }
}

/// An `stts` table with one entry per (count, delta) run.
pub fn write_stts(runs: &[(u32, u32)]) -> (r: Result<Vec<u8>, Mp4Error>)
    requires
        runs@.len() * 8 + 32 <= usize::MAX,
    ensures
        match r {
            Ok(b) => runs@.len() <= u32::MAX && b@ == box_bytes(
                STTS,
                fullbox(0, 0) + bytes32(runs@.len() as int) + pairs_bytes(runs@),
            ),
            Err(e) => runs@.len() > u32::MAX && e == Mp4Error::LimitExceeded {
                limit: "stts entry count",
            },
        },
{
    if runs.len() > 0xffff_ffff {
        return Err(Mp4Error::limit_exceeded("stts entry count"));
    }
    let mut body = Vec::new();
    push_fullbox(&mut body, 0, 0);
    write_u32(&mut body, runs.len() as u32);
    let ghost head = body@;
    let mut i: usize = 0;
    while i < runs.len()
        invariant
            i <= runs@.len(),
            body@ == head + pairs_bytes(runs@.subrange(0, i as int)),
        decreases runs@.len() - i,
    {
        let (count, delta) = runs[i];
        write_u32(&mut body, count);
        write_u32(&mut body, delta);
        assert(runs@.subrange(0, i + 1).drop_last() =~= runs@.subrange(0, i as int));
        i = i + 1;
    }
    assert(runs@.subrange(0, runs@.len() as int) =~= runs@);
    proof {
        lemma_pairs_len(runs@);
    }
    Ok(write_box(STTS, body.as_slice()))
}

/// The 32-bit pattern of `o`.
fn to_bits32(o: i32) -> (v: u32)
    ensures
        v == bits32(o),
{
    if o < 0 {
        ((o as i64) + 0x1_0000_0000) as u32
    } else {
        o as u32
    }
}

/// A version-1 `ctts` table with one entry per (count, offset) run.
pub fn write_ctts(runs: &[(u32, i32)]) -> (r: Result<Vec<u8>, Mp4Error>)
    requires
        runs@.len() * 8 + 32 <= usize::MAX,
    ensures
        match r {
            Ok(b) => runs@.len() <= u32::MAX && b@ == box_bytes(
                CTTS,
                fullbox(1, 0) + bytes32(runs@.len() as int) + signed_pairs_bytes(runs@),
            ),
            Err(e) => runs@.len() > u32::MAX && e == Mp4Error::LimitExceeded {
                limit: "ctts entry count",
            },
        },
{
    if runs.len() > 0xffff_ffff {
        return Err(Mp4Error::limit_exceeded("ctts entry count"));
    }
    let mut body = Vec::new();
    push_fullbox(&mut body, 1, 0);
    write_u32(&mut body, runs.len() as u32);
    let ghost head = body@;
    let mut i: usize = 0;
    while i < runs.len()
        invariant
            i <= runs@.len(),
            body@ == head + signed_pairs_bytes(runs@.subrange(0, i as int)),
        decreases runs@.len() - i,
    {
        let (count, offset) = runs[i];
        write_u32(&mut body, count);
        write_u32(&mut body, to_bits32(offset));
        assert(runs@.subrange(0, i + 1).drop_last() =~= runs@.subrange(0, i as int));
        i = i + 1;
    }
    assert(runs@.subrange(0, runs@.len() as int) =~= runs@);
    proof {
        lemma_signed_pairs_len(runs@);
    }
    Ok(write_box(CTTS, body.as_slice()))
}

/// An `stsc` table with a single entry.
pub fn write_stsc(first_chunk: u32, samples_per_chunk: u32, sample_description_index: u32) -> (r:
    Vec<u8>)
    ensures
        r@ == box_bytes(
            STSC,
            fullbox(0, 0) + bytes32(1) + bytes32(first_chunk as int) + bytes32(
                samples_per_chunk as int,
            ) + bytes32(sample_description_index as int),
        ),
{
    let mut body = Vec::with_capacity(12);
    push_fullbox(&mut body, 0, 0);
    write_u32(&mut body, 1);
    write_u32(&mut body, first_chunk);
    write_u32(&mut body, samples_per_chunk);
    write_u32(&mut body, sample_description_index);
    write_box(STSC, body.as_slice())
}

/// Writes a box whose body is a fullbox header, a `u32` entry count and the entries.
fn write_u32_table(box_type: u32, vals: &[u32], limit: &'static str) -> (r: Result<
    Vec<u8>,
    Mp4Error,
>)
    requires
        vals@.len() * 4 + 32 <= usize::MAX,
    ensures
        match r {
            Ok(b) => vals@.len() <= u32::MAX && b@ == box_bytes(
                box_type,
                fullbox(0, 0) + bytes32(vals@.len() as int) + u32s_bytes(vals@),
            ),
            Err(e) => vals@.len() > u32::MAX && e == Mp4Error::LimitExceeded { limit },
        },
{
    if vals.len() > 0xffff_ffff {
        return Err(Mp4Error::limit_exceeded(limit));
    }
    let mut body = Vec::new();
    push_fullbox(&mut body, 0, 0);
    write_u32(&mut body, vals.len() as u32);
    let ghost head = body@;
    let mut i: usize = 0;
    while i < vals.len()
        invariant
            i <= vals@.len(),
            body@ == head + u32s_bytes(vals@.subrange(0, i as int)),
        decreases vals@.len() - i,
    {
        write_u32(&mut body, vals[i]);
        assert(vals@.subrange(0, i + 1).drop_last() =~= vals@.subrange(0, i as int));
        i = i + 1;
    }
    assert(vals@.subrange(0, vals@.len() as int) =~= vals@);
    proof {
        lemma_u32s_len(vals@);
    }
    Ok(write_box(box_type, body.as_slice()))
}

/// An `stsz` table with per-sample sizes (sample size field 0).
pub fn write_stsz(sizes: &[u32]) -> (r: Result<Vec<u8>, Mp4Error>)
    requires
        sizes@.len() * 4 + 32 <= usize::MAX,
    ensures
        match r {
            Ok(b) => sizes@.len() <= u32::MAX && b@ == box_bytes(
                STSZ,
                fullbox(0, 0) + bytes32(0) + bytes32(sizes@.len() as int) + u32s_bytes(sizes@),
            ),
            Err(e) => sizes@.len() > u32::MAX && e == Mp4Error::LimitExceeded {
                limit: "stsz entry count",
            },
        },
{
    if sizes.len() > 0xffff_ffff {
        return Err(Mp4Error::limit_exceeded("stsz entry count"));
    }
    let mut body = Vec::new();
    push_fullbox(&mut body, 0, 0);
    write_u32(&mut body, 0);
    write_u32(&mut body, sizes.len() as u32);
    let ghost head = body@;
    let mut i: usize = 0;
    while i < sizes.len()
        invariant
            i <= sizes@.len(),
            body@ == head + u32s_bytes(sizes@.subrange(0, i as int)),
        decreases sizes@.len() - i,
    {
        write_u32(&mut body, sizes[i]);
        assert(sizes@.subrange(0, i + 1).drop_last() =~= sizes@.subrange(0, i as int));
        i = i + 1;
    }
    assert(sizes@.subrange(0, sizes@.len() as int) =~= sizes@);
    proof {
        lemma_u32s_len(sizes@);
    }
    Ok(write_box(STSZ, body.as_slice()))
}

/// An `stco` table with one zero offset, patched once the `mdat` position is known.
pub fn write_stco_placeholder() -> (r: Vec<u8>)
    ensures
        r@ == box_bytes(STCO, fullbox(0, 0) + bytes32(1) + bytes32(0)),
{
    let mut body = Vec::with_capacity(12);
    push_fullbox(&mut body, 0, 0);
    write_u32(&mut body, 1);
    write_u32(&mut body, 0);
    write_box(STCO, body.as_slice())
}

/// An `stss` table listing the sync samples.
pub fn write_stss(syncs: &[u32]) -> (r: Result<Vec<u8>, Mp4Error>)
    requires
        syncs@.len() * 4 + 32 <= usize::MAX,
    ensures
        match r {
            Ok(b) => syncs@.len() <= u32::MAX && b@ == box_bytes(
                STSS,
                fullbox(0, 0) + bytes32(syncs@.len() as int) + u32s_bytes(syncs@),
            ),
            Err(e) => syncs@.len() > u32::MAX && e == Mp4Error::LimitExceeded {
                limit: "stss entry count",
            },
        },
{
    write_u32_table(STSS, syncs, "stss entry count")
}


/// `v` clamped into `u32`.
pub open spec fn clamp_u32(v: u64) -> u32 {
    if v > u32::MAX {
        u32::MAX
    } else {
        v as u32
    }
}

/// `v` clamped into `i32`.
pub open spec fn clamp_i32(v: i64) -> i32 {
    if v > i32::MAX {
        i32::MAX
    } else if v < i32::MIN {
        i32::MIN
    } else {
        v as i32
    }
}

/// `c + 1`, staying at `u32::MAX`.
pub open spec fn sat_inc(c: u32) -> u32 {
    if c == u32::MAX {
        c
    } else {
        (c + 1) as u32
    }
}

/// Run-length encoding of the values clamped into `u32`: equal neighbours share
/// one (count, value) run whose count saturates at `u32::MAX`.
pub open spec fn rle_u64(s: Seq<u64>) -> Seq<(u32, u32)>
    decreases s.len(),
{
    if s.len() == 0 {
        Seq::empty()
    } else {
        let r = rle_u64(s.drop_last());
        let v = clamp_u32(s.last());
        if r.len() > 0 && r.last().1 == v {
            r.update(r.len() - 1, (sat_inc(r.last().0), v))
        } else {
            r.push((1u32, v))
        }
    }
}

/// Run-length encoding of the values clamped into `i32`.
pub open spec fn rle_i64(s: Seq<i64>) -> Seq<(u32, i32)>
    decreases s.len(),
{
    if s.len() == 0 {
        Seq::empty()
    } else {
        let r = rle_i64(s.drop_last());
        let v = clamp_i32(s.last());
        if r.len() > 0 && r.last().1 == v {
            r.update(r.len() - 1, (sat_inc(r.last().0), v))
        } else {
            r.push((1u32, v))
        }
    }
}

/// Encode sample durations (or any `u64` values) as (count, value) runs.
pub fn run_length_encode_u64(values: &[u64]) -> (runs: Vec<(u32, u32)>)
    ensures
        runs@ == rle_u64(values@),
{
    let mut runs: Vec<(u32, u32)> = Vec::new();
    let mut i: usize = 0;
    while i < values.len()
        invariant
            i <= values@.len(),
            runs@ == rle_u64(values@.subrange(0, i as int)),
        decreases values@.len() - i,
    {
        let v0 = values[i];
        let v: u32 = if v0 > 0xffff_ffff {
            0xffff_ffff
        } else {
            v0 as u32
        };
        assert(values@.subrange(0, i + 1).drop_last() =~= values@.subrange(0, i as int));
        let n = runs.len();
        if n > 0 && runs[n - 1].1 == v {
            let (count, _) = runs[n - 1];
            let c = count.saturating_add(1);
            runs.set(n - 1, (c, v));
        } else {
            runs.push((1, v));
        }
        i = i + 1;
    }
    assert(values@.subrange(0, values@.len() as int) =~= values@);
    runs
}

/// Encode composition offsets (or any `i64` values) as (count, value) runs.
pub fn run_length_encode_i64(values: &[i64]) -> (runs: Vec<(u32, i32)>)
    ensures
        runs@ == rle_i64(values@),
{
    let mut runs: Vec<(u32, i32)> = Vec::new();
    let mut i: usize = 0;
    while i < values.len()
        invariant
            i <= values@.len(),
            runs@ == rle_i64(values@.subrange(0, i as int)),
        decreases values@.len() - i,
    {
        let v0 = values[i];
        let v: i32 = if v0 > 0x7fff_ffff {
            0x7fff_ffff
        } else if v0 < -0x8000_0000 {
            -0x8000_0000
        } else {
            v0 as i32
        };
        assert(values@.subrange(0, i + 1).drop_last() =~= values@.subrange(0, i as int));
        let n = runs.len();
        if n > 0 && runs[n - 1].1 == v {
            let (count, _) = runs[n - 1];
            let c = count.saturating_add(1);
            runs.set(n - 1, (c, v));
        } else {
            runs.push((1, v));
        }
        i = i + 1;
    }
    assert(values@.subrange(0, values@.len() as int) =~= values@);
    runs
}

/// The values the runs stand for, in order.
pub open spec fn expand_u32(runs: Seq<(u32, u32)>) -> Seq<u32>
    decreases runs.len(),
{
    if runs.len() == 0 {
        Seq::empty()
    } else {
        expand_u32(runs.drop_last()) + Seq::new(runs.last().0 as nat, |k: int| runs.last().1)
    }
}

/// Run-length encoding loses nothing: when there are at most `u32::MAX` values,
/// expanding the runs gives back the clamped values, and neighbouring runs differ.
pub proof fn lemma_rle_u64_expands(s: Seq<u64>)
    requires
        s.len() <= u32::MAX,
    ensures
        expand_u32(rle_u64(s)) == s.map_values(|v: u64| clamp_u32(v)),
        forall|j: int|
            0 <= j < rle_u64(s).len() - 1 ==> #[trigger] rle_u64(s)[j].1 != rle_u64(s)[j + 1].1,
        forall|j: int| 0 <= j < rle_u64(s).len() ==> #[trigger] rle_u64(s)[j].0 >= 1,
    decreases s.len(),
{
    if s.len() > 0 {
        let p = s.drop_last();
        lemma_rle_u64_expands(p);
        lemma_rle_count_bound(p);
        let r = rle_u64(p);
        let v = clamp_u32(s.last());
        assert(s.map_values(|x: u64| clamp_u32(x)) =~= p.map_values(|x: u64| clamp_u32(x)).push(v));
        if r.len() > 0 && r.last().1 == v {
            let r2 = r.update(r.len() - 1, (sat_inc(r.last().0), v));
            assert(r2.drop_last() =~= r.drop_last());
            assert(r.last().0 < u32::MAX);
            assert(Seq::new(r2.last().0 as nat, |k: int| r2.last().1) =~= Seq::new(
                r.last().0 as nat,
                |k: int| r.last().1,
            ).push(v));
            assert(expand_u32(r2) =~= expand_u32(r).push(v));
        } else {
            let r2 = r.push((1u32, v));
            assert(r2.drop_last() =~= r);
            assert(expand_u32(r2) =~= expand_u32(r).push(v));
        }
    }
}

/// The counts of the runs add up to at most the number of values.
pub open spec fn total_count(runs: Seq<(u32, u32)>) -> int
    decreases runs.len(),
{
    if runs.len() == 0 {
        0
    } else {
        total_count(runs.drop_last()) + runs.last().0
    }
}

proof fn lemma_rle_count_bound(s: Seq<u64>)
    requires
        s.len() <= u32::MAX,
    ensures
        total_count(rle_u64(s)) == s.len(),
        rle_u64(s).len() > 0 ==> rle_u64(s).last().0 <= s.len(),
        forall|j: int| 0 <= j < rle_u64(s).len() ==> #[trigger] rle_u64(s)[j].0 >= 1,
    decreases s.len(),
{
    if s.len() > 0 {
        let p = s.drop_last();
        lemma_rle_count_bound(p);
        let r = rle_u64(p);
        let v = clamp_u32(s.last());
        if r.len() > 0 && r.last().1 == v {
            lemma_total_ge_last(r);
            let r2 = r.update(r.len() - 1, (sat_inc(r.last().0), v));
            assert(r2.drop_last() =~= r.drop_last());
        } else {
            let r2 = r.push((1u32, v));
            assert(r2.drop_last() =~= r);
        }
    }
}

proof fn lemma_total_ge_last(r: Seq<(u32, u32)>)
    requires
        r.len() > 0,
    ensures
        total_count(r) >= r.last().0,
    decreases r.len(),
{
    lemma_total_nonneg(r.drop_last());
}

proof fn lemma_total_nonneg(r: Seq<(u32, u32)>)
    ensures
        total_count(r) >= 0,
    decreases r.len(),
{
    if r.len() > 0 {
        lemma_total_nonneg(r.drop_last());
    }
}

/// Body offset and body of the first child of type `target` met walking `data`
/// from byte `offset`; nothing if the walk ends or fails first.
pub open spec fn find_child(data: Seq<u8>, offset: int, cur: u64, target: u32) -> Option<
    (u64, Seq<u8>),
>
    decreases data.len() - offset,
{
    match next_box_spec(data, offset, cur) {
        None => None,
        Some(Err(_)) => None,
        Some(Ok((h, body))) => if h.box_type == target {
            Some(((h.start_offset + h.header_size) as u64, body))
        } else if h.size == 0 {
            None
        } else {
            find_child(data, offset + h.size, (cur + h.size) as u64, target)
        },
    }
}

/// Stream offset of the body reached by following `path` of box types down from `data`.
pub open spec fn find_nested(data: Seq<u8>, offset: u64, path: Seq<u32>) -> Option<u64>
    decreases path.len(),
{
    if path.len() == 0 {
        None
    } else {
        match find_child(data, 0, offset, path[0]) {
            None => None,
            Some((body_offset, body)) => if path.len() == 1 {
                Some(body_offset)
            } else {
                find_nested(body, body_offset, path.drop_first())
            },
        }
    }
}

fn find_child_exec<'a>(data: &'a [u8], offset: u64, target: u32) -> (r: Option<(u64, &'a [u8])>)
    requires
        offset + data@.len() <= u64::MAX,
    ensures
        match r {
            None => find_child(data@, 0, offset, target) is None,
            Some((bo, body)) => find_child(data@, 0, offset, target) == Some((bo, body@)) && bo
                + body@.len() <= u64::MAX,
        },
{
    let mut it = match iter_boxes(data, offset, 4) {
        Ok(it) => it,
        Err(_) => return None,
    };
    loop
        invariant
            it.data() == data@,
            0 <= it.offset() <= data@.len(),
            it.stream_offset() == offset + it.offset(),
            offset + data@.len() <= u64::MAX,
            find_child(data@, it.offset(), it.stream_offset(), target) == find_child(
                data@,
                0,
                offset,
                target,
            ),
        decreases data@.len() - it.offset(),
    {
        match it.next() {
            None => return None,
            Some(Err(_)) => return None,
            Some(Ok((header, body))) => {
                if header.box_type == target {
                    return Some((header.body_offset(), body));
                }
            },
        }
    }
}

/// Find the body offset of a nested box by following a path of four-cc types.
///
/// `parent_offset` is the absolute stream offset of `parent_data`. The returned
/// offset is the absolute stream offset of the target box body.
pub fn find_nested_box_offset(parent_data: &[u8], parent_offset: u64, path: &[u32]) -> (r: Option<
    u64,
>)
    requires
        parent_offset + parent_data@.len() <= u64::MAX,
    ensures
        r == find_nested(parent_data@, parent_offset, path@),
{
    let mut data = parent_data;
    let mut offset = parent_offset;
    let mut i: usize = 0;
    while i < path.len()
        invariant
            i <= path@.len(),
            offset + data@.len() <= u64::MAX,
            i > 0 ==> path@.len() > i,
            (i == 0 ==> data@ == parent_data@ && offset == parent_offset),
            find_nested(parent_data@, parent_offset, path@) == (if i == 0 {
                find_nested(data@, offset, path@)
            } else {
                find_nested(data@, offset, path@.subrange(i as int, path@.len() as int))
            }),
        decreases path@.len() - i,
    {
        let ghost rest = path@.subrange(i as int, path@.len() as int);
        assert(i == 0 ==> rest =~= path@);
        let found = find_child_exec(data, offset, path[i]);
        let (body_offset, body) = match found {
            Some(v) => v,
            None => return None,
        };
        if i == path.len() - 1 {
            return Some(body_offset);
        }
        assert(rest.drop_first() =~= path@.subrange(i + 1, path@.len() as int));
        data = body;
        offset = body_offset;
        i = i + 1;
    }
    None
}


/// A sample held by [`Mp4Muxer`] until the file is finished.
#[derive(Debug)]
pub struct RecordedSample {
    pub dts: i64,
    pub pts: i64,
    pub duration: u64,
    pub payload: Vec<u8>,
    pub keyframe: bool,
}

/// `a - b`, clamped into `i64`.
pub open spec fn sat_sub_i64(a: i64, b: i64) -> i64 {
    if a - b > i64::MAX {
        i64::MAX
    } else if a - b < i64::MIN {
        i64::MIN
    } else {
        (a - b) as i64
    }
}

/// The sample durations.
pub open spec fn sample_durations(ss: Seq<RecordedSample>) -> Seq<u64> {
    ss.map_values(|s: RecordedSample| s.duration)
}

/// The composition offsets, `pts - dts` of each sample.
pub open spec fn sample_offsets(ss: Seq<RecordedSample>) -> Seq<i64> {
    ss.map_values(|s: RecordedSample| sat_sub_i64(s.pts, s.dts))
}

/// Whether some sample is presented at another time than it is decoded.
pub open spec fn reordered(ss: Seq<RecordedSample>) -> bool {
    exists|i: int| 0 <= i < ss.len() && (#[trigger] ss[i]).pts != ss[i].dts
}

/// Whether every sample payload is at most `u32::MAX` bytes.
pub open spec fn sizes_fit(ss: Seq<RecordedSample>) -> bool {
    forall|i: int| 0 <= i < ss.len() ==> (#[trigger] ss[i]).payload@.len() <= u32::MAX
}

/// The payload sizes.
pub open spec fn sample_sizes(ss: Seq<RecordedSample>) -> Seq<u32> {
    ss.map_values(|s: RecordedSample| s.payload@.len() as u32)
}

/// Whether every sample is a sync sample.
pub open spec fn all_sync(ss: Seq<RecordedSample>) -> bool {
    forall|i: int| 0 <= i < ss.len() ==> (#[trigger] ss[i]).keyframe
}

/// The 1-based numbers of the sync samples, in order.
pub open spec fn sync_numbers(ss: Seq<RecordedSample>) -> Seq<u32>
    decreases ss.len(),
{
    if ss.len() == 0 {
        Seq::empty()
    } else {
        let p = sync_numbers(ss.drop_last());
        if ss.last().keyframe {
            p.push(ss.len() as u32)
        } else {
            p
        }
    }
}

/// The payloads one after another.
pub open spec fn payload_bytes(ss: Seq<RecordedSample>) -> Seq<u8>
    decreases ss.len(),
{
    if ss.len() == 0 {
        Seq::empty()
    } else {
        payload_bytes(ss.drop_last()) + ss.last().payload@
    }
}

/// The `stts` box of the runs.
pub open spec fn stts_bytes(runs: Seq<(u32, u32)>) -> Seq<u8> {
    box_bytes(STTS, fullbox(0, 0) + bytes32(runs.len() as int) + pairs_bytes(runs))
}

/// The `ctts` box of the runs.
pub open spec fn ctts_bytes(runs: Seq<(u32, i32)>) -> Seq<u8> {
    box_bytes(CTTS, fullbox(1, 0) + bytes32(runs.len() as int) + signed_pairs_bytes(runs))
}

/// The `stsc` box putting all `n` samples in one chunk.
pub open spec fn one_chunk_stsc(n: int) -> Seq<u8> {
    box_bytes(STSC, fullbox(0, 0) + bytes32(1) + bytes32(1) + bytes32(n) + bytes32(1))
}

/// The `stsz` box of the sizes.
pub open spec fn stsz_bytes(sizes: Seq<u32>) -> Seq<u8> {
    box_bytes(STSZ, fullbox(0, 0) + bytes32(0) + bytes32(sizes.len() as int) + u32s_bytes(sizes))
}

/// The `stco` box with one zero offset.
pub open spec fn stco_placeholder() -> Seq<u8> {
    box_bytes(STCO, fullbox(0, 0) + bytes32(1) + bytes32(0))
}

/// The `stss` box of the sync sample numbers.
pub open spec fn stss_bytes(syncs: Seq<u32>) -> Seq<u8> {
    box_bytes(STSS, fullbox(0, 0) + bytes32(syncs.len() as int) + u32s_bytes(syncs))
}

/// The `stbl` box of a recorded track: sample description, durations,
/// composition offsets when some sample is reordered, one chunk holding every
/// sample, the sizes, a chunk offset to patch, and the sync samples unless all
/// are; or the first limit that the tables exceed.
#[verifier::opaque]
pub open spec fn recorded_stbl(c: TrackConfig, ss: Seq<RecordedSample>) -> Result<Seq<u8>, Mp4Error> {
    match stsd_box(c) {
        Err(e) => Err(e),
        Ok(stsd) => match tables_result(ss) {
            Err(e) => Err(e),
            Ok(t) => Ok(box_bytes(STBL, stsd + t)),
        },
    }
}

fn sat_sub_i64_exec(a: i64, b: i64) -> (r: i64)
    ensures
        r == sat_sub_i64(a, b),
{
    let d = a as i128 - b as i128;
    if d > 0x7fff_ffff_ffff_ffff {
        0x7fff_ffff_ffff_ffff
    } else if d < -0x8000_0000_0000_0000 {
        -0x8000_0000_0000_0000
    } else {
        d as i64
    }
}

proof fn lemma_rle_u64_len(s: Seq<u64>)
    ensures
        rle_u64(s).len() <= s.len(),
    decreases s.len(),
{
    if s.len() > 0 {
        lemma_rle_u64_len(s.drop_last());
    }
}

proof fn lemma_rle_i64_len(s: Seq<i64>)
    ensures
        rle_i64(s).len() <= s.len(),
    decreases s.len(),
{
    if s.len() > 0 {
        lemma_rle_i64_len(s.drop_last());
    }
}

proof fn lemma_sync_numbers_len(ss: Seq<RecordedSample>)
    ensures
        sync_numbers(ss).len() <= ss.len(),
    decreases ss.len(),
{
    if ss.len() > 0 {
        lemma_sync_numbers_len(ss.drop_last());
    }
}

/// The durations and composition offsets of the samples, and whether some
/// sample is reordered, all payload sizes fit 32 bits and all are sync samples.
fn scan_samples(samples: &Vec<RecordedSample>) -> (r: (Vec<u64>, Vec<i64>, bool, bool, bool))
    ensures
        r.0@ == sample_durations(samples@),
        r.1@ == sample_offsets(samples@),
        r.2 == reordered(samples@),
        r.3 == sizes_fit(samples@),
        r.4 == all_sync(samples@),
{
    let ghost ss = samples@;
    let n = samples.len();
    let mut durations: Vec<u64> = Vec::new();
    let mut offsets: Vec<i64> = Vec::new();
    let mut has_b = false;
    let mut fit = true;
    let mut key_all = true;
    let mut i: usize = 0;
    while i < n
        invariant
            n == ss.len(),
            ss == samples@,
            i <= n,
            durations@ == sample_durations(ss.subrange(0, i as int)),
            offsets@ == sample_offsets(ss.subrange(0, i as int)),
            has_b == exists|j: int| 0 <= j < i && (#[trigger] ss[j]).pts != ss[j].dts,
            fit == forall|j: int| 0 <= j < i ==> (#[trigger] ss[j]).payload@.len() <= u32::MAX,
            key_all == forall|j: int| 0 <= j < i ==> (#[trigger] ss[j]).keyframe,
        decreases n - i,
    {
        let s = &samples[i];
        durations.push(s.duration);
        offsets.push(sat_sub_i64_exec(s.pts, s.dts));
        if s.pts != s.dts {
            has_b = true;
        }
        if s.payload.len() > 0xffff_ffff {
            fit = false;
        }
        if !s.keyframe {
            key_all = false;
        }
        assert(durations@ =~= sample_durations(ss.subrange(0, i + 1)));
        assert(offsets@ =~= sample_offsets(ss.subrange(0, i + 1)));
        i += 1;
    }
    assert(ss.subrange(0, n as int) =~= ss);
    (durations, offsets, has_b, fit, key_all)
}

/// The payload sizes and the sync sample numbers.
fn sizes_and_syncs(samples: &Vec<RecordedSample>) -> (r: (Vec<u32>, Vec<u32>))
    requires
        samples@.len() <= u32::MAX,
        sizes_fit(samples@),
    ensures
        r.0@ == sample_sizes(samples@),
        r.1@ == sync_numbers(samples@),
{
    let ghost ss = samples@;
    let n = samples.len();
    let mut sizes: Vec<u32> = Vec::new();
    let mut syncs: Vec<u32> = Vec::new();
    let mut k: usize = 0;
    while k < n
        invariant
            n == ss.len(),
            ss == samples@,
            n <= u32::MAX,
            k <= n,
            sizes_fit(ss),
            sizes@ == sample_sizes(ss.subrange(0, k as int)),
            syncs@ == sync_numbers(ss.subrange(0, k as int)),
        decreases n - k,
    {
        let s = &samples[k];
        assert(ss[k as int].payload@.len() <= u32::MAX);
        sizes.push(s.payload.len() as u32);
        assert(ss.subrange(0, k + 1).drop_last() =~= ss.subrange(0, k as int));
        if s.keyframe {
            syncs.push((k + 1) as u32);
        }
        assert(sizes@ =~= sample_sizes(ss.subrange(0, k + 1)));
        k += 1;
    }
    assert(ss.subrange(0, n as int) =~= ss);
    (sizes, syncs)
}

/// The tables after the sample description, when no limit is exceeded.
pub open spec fn recorded_tables(ss: Seq<RecordedSample>) -> Seq<u8> {
    stts_bytes(rle_u64(sample_durations(ss))) + (if reordered(ss) {
        ctts_bytes(rle_i64(sample_offsets(ss)))
    } else {
        Seq::empty()
    }) + one_chunk_stsc(ss.len() as int) + stsz_bytes(sample_sizes(ss)) + stco_placeholder() + (
    if all_sync(ss) {
        Seq::empty()
    } else {
        stss_bytes(sync_numbers(ss))
    })
}

/// The sample tables after the sample description, or the first limit they exceed.
pub open spec fn tables_result(ss: Seq<RecordedSample>) -> Result<Seq<u8>, Mp4Error> {
    if rle_u64(sample_durations(ss)).len() > u32::MAX {
        Err(Mp4Error::LimitExceeded { limit: "stts entry count" })
    } else if reordered(ss) && rle_i64(sample_offsets(ss)).len() > u32::MAX {
        Err(Mp4Error::LimitExceeded { limit: "ctts entry count" })
    } else if ss.len() > u32::MAX {
        Err(Mp4Error::LimitExceeded { limit: "stsc samples per chunk" })
    } else if !sizes_fit(ss) {
        Err(Mp4Error::LimitExceeded { limit: "sample size exceeds u32" })
    } else {
        Ok(recorded_tables(ss))
    }
}

/// The sample tables of a recorded track; see [`tables_result`].
#[verifier::spinoff_prover]
#[verifier::rlimit(100)]
fn write_recorded_tables(samples: &Vec<RecordedSample>) -> (r: Result<Vec<u8>, Mp4Error>)
    requires
        40 * samples@.len() + 16384 <= usize::MAX,
    ensures
        match tables_result(samples@) {
            Ok(t) => r matches Ok(v) && v@ == t && t.len() <= 24 * samples@.len() + 256,
            Err(e) => r == Err::<Vec<u8>, Mp4Error>(e),
        },
{
    let ghost ss = samples@;
    let n = samples.len();
    let (durations, offsets, has_b, fit, key_all) = scan_samples(samples);
    let stts_runs = run_length_encode_u64(durations.as_slice());
    proof {
        lemma_rle_u64_len(sample_durations(ss));
        lemma_rle_i64_len(sample_offsets(ss));
        lemma_sync_numbers_len(ss);
        lemma_pairs_len(stts_runs@);
    }
    if stts_runs.len() > 0xffff_ffff {
        return Err(Mp4Error::limit_exceeded("stts entry count"));
    }
    let stts = write_stts(stts_runs.as_slice())?;
    let mut body = Vec::new();
    append(&mut body, stts.as_slice());
    let ghost ctts_part: Seq<u8> = Seq::empty();
    if has_b {
        let ctts_runs = run_length_encode_i64(offsets.as_slice());
        proof {
            lemma_signed_pairs_len(ctts_runs@);
        }
        let ctts = write_ctts(ctts_runs.as_slice())?;
        append(&mut body, ctts.as_slice());
        proof {
            ctts_part = ctts@;
            lemma_box_len(
                CTTS,
                fullbox(1, 0) + bytes32(ctts_runs@.len() as int) + signed_pairs_bytes(ctts_runs@),
            );
        }
    }
    if n > 0xffff_ffff {
        return Err(Mp4Error::limit_exceeded("stsc samples per chunk"));
    }
    if !fit {
        return Err(Mp4Error::limit_exceeded("sample size exceeds u32"));
    }
    let stsc = write_stsc(1, n as u32, 1);
    append(&mut body, stsc.as_slice());
    let (sizes, syncs) = sizes_and_syncs(samples);
    proof {
        lemma_u32s_len(sizes@);
        lemma_u32s_len(syncs@);
    }
    let stsz = write_stsz(sizes.as_slice())?;
    append(&mut body, stsz.as_slice());
    let stco = write_stco_placeholder();
    append(&mut body, stco.as_slice());
    let ghost stss_part: Seq<u8> = Seq::empty();
    if !key_all {
        let stss = write_stss(syncs.as_slice())?;
        append(&mut body, stss.as_slice());
        proof {
            stss_part = stss@;
            lemma_box_len(STSS, fullbox(0, 0) + bytes32(syncs@.len() as int) + u32s_bytes(syncs@));
        }
    }
    proof {
        lemma_box_len(
            STTS,
            fullbox(0, 0) + bytes32(stts_runs@.len() as int) + pairs_bytes(stts_runs@),
        );
        lemma_box_len(
            STSC,
            fullbox(0, 0) + bytes32(1) + bytes32(1) + bytes32(n as int) + bytes32(1),
        );
        lemma_box_len(
            STSZ,
            fullbox(0, 0) + bytes32(0) + bytes32(sizes@.len() as int) + u32s_bytes(sizes@),
        );
        lemma_box_len(STCO, fullbox(0, 0) + bytes32(1) + bytes32(0));
        assert(body@ =~= stts@ + ctts_part + stsc@ + stsz@ + stco@ + stss_part);
        assert(body@ =~= recorded_tables(ss));
    }
    Ok(body)
}

/// The `stbl` box of a recorded track; see [`recorded_stbl`].
#[verifier::spinoff_prover]
#[verifier::rlimit(60)]
fn write_recorded_stbl(cfg: &TrackConfig, samples: &Vec<RecordedSample>) -> (r: Result<
    Vec<u8>,
    Mp4Error,
>)
    requires
        config_len(*cfg) + 40 * samples@.len() + 16384 <= usize::MAX,
    ensures
        match recorded_stbl(*cfg, samples@) {
            Ok(b) => r matches Ok(v) && v@ == b && b.len() <= config_len(*cfg) + 24 * samples@.len()
                + 1024,
            Err(e) => r == Err::<Vec<u8>, Mp4Error>(e),
        },
{
    proof {
        reveal(recorded_stbl);
    }
    let stsd = write_stsd(cfg)?;
    let tables = write_recorded_tables(samples)?;
    let mut body = Vec::new();
    append(&mut body, stsd.as_slice());
    append(&mut body, tables.as_slice());
    proof {
        lemma_box_len(STBL, body@);
    }
    Ok(write_box(STBL, body.as_slice()))
}


/// The `trak` box of a recorded track: header, media header, handler, media
/// information with the recorded sample tables.
#[verifier::opaque]
pub open spec fn recorded_trak(c: TrackConfig, ss: Seq<RecordedSample>) -> Result<Seq<u8>, Mp4Error> {
    match recorded_stbl(c, ss) {
        Err(e) => Err(e),
        Ok(stbl) => Ok(
            box_bytes(
                TRAK,
                tkhd_box(c) + box_bytes(
                    MDIA,
                    mdhd_box(c) + hdlr_box(c) + box_bytes(
                        MINF,
                        media_header(c) + dref_box() + stbl,
                    ),
                ),
            ),
        ),
    }
}

/// The `minf` box of a recorded track.
#[verifier::spinoff_prover]
#[verifier::rlimit(60)]
fn write_recorded_minf(cfg: &TrackConfig, samples: &Vec<RecordedSample>) -> (r: Result<
    Vec<u8>,
    Mp4Error,
>)
    requires
        config_len(*cfg) + 40 * samples@.len() + 16384 <= usize::MAX,
    ensures
        match recorded_stbl(*cfg, samples@) {
            Ok(stbl) => r matches Ok(v) && v@ == box_bytes(
                MINF,
                media_header(*cfg) + dref_box() + stbl,
            ) && v@.len() <= config_len(*cfg) + 24 * samples@.len() + 1200,
            Err(e) => r == Err::<Vec<u8>, Mp4Error>(e),
        },
{
    let mut minf = Vec::new();
    if cfg.kind == TrackKind::Video {
        let vmhd = write_vmhd();
        append(&mut minf, vmhd.as_slice());
    } else {
        let smhd = write_smhd();
        append(&mut minf, smhd.as_slice());
    }
    let dref = write_dinf();
    append(&mut minf, dref.as_slice());
    let stbl = write_recorded_stbl(cfg, samples)?;
    append(&mut minf, stbl.as_slice());
    proof {
        lemma_box_len(VMHD, fullbox(0, 1) + bytes16(0) + seq![0u8, 0u8, 0u8, 0u8, 0u8, 0u8]);
        lemma_box_len(SMHD, fullbox(0, 0) + bytes16(0) + bytes16(0));
        lemma_box_len(URL, fullbox(0, 1));
        lemma_box_len(DREF, fullbox(0, 0) + bytes32(1) + box_bytes(URL, fullbox(0, 1)));
        assert(minf@ =~= media_header(*cfg) + dref_box() + stbl@);
        lemma_box_len(MINF, minf@);
    }
    Ok(write_box(MINF, minf.as_slice()))
}

/// The `mdia` box of a recorded track.
#[verifier::spinoff_prover]
#[verifier::rlimit(60)]
fn write_recorded_mdia(cfg: &TrackConfig, samples: &Vec<RecordedSample>) -> (r: Result<
    Vec<u8>,
    Mp4Error,
>)
    requires
        config_len(*cfg) + 40 * samples@.len() + 16384 <= usize::MAX,
    ensures
        match recorded_stbl(*cfg, samples@) {
            Ok(stbl) => r matches Ok(v) && v@ == box_bytes(
                MDIA,
                mdhd_box(*cfg) + hdlr_box(*cfg) + box_bytes(
                    MINF,
                    media_header(*cfg) + dref_box() + stbl,
                ),
            ) && v@.len() <= config_len(*cfg) + 24 * samples@.len() + 1600,
            Err(e) => r == Err::<Vec<u8>, Mp4Error>(e),
        },
{
    let minf_box = write_recorded_minf(cfg, samples)?;
    let mut mdia = Vec::new();
    let mdhd = write_mdhd(cfg);
    let hdlr = write_hdlr(cfg);
    append(&mut mdia, mdhd.as_slice());
    append(&mut mdia, hdlr.as_slice());
    append(&mut mdia, minf_box.as_slice());
    proof {
        let b = fullbox(0, 0) + bytes32(0) + bytes32(0) + bytes32(cfg.timescale as int) + bytes32(0)
            + bytes16(0x55c4) + bytes16(0);
        lemma_box_len(MDHD, b);
        let (t, n) = handler(*cfg);
        lemma_box_len(HDLR, fullbox(0, 0) + bytes32(0) + t + zeros(12) + n);
        lemma_box_len(MDIA, mdia@);
    }
    Ok(write_box(MDIA, mdia.as_slice()))
}

/// The `trak` box of a recorded track; see [`recorded_trak`].
#[verifier::spinoff_prover]
#[verifier::rlimit(60)]
fn write_recorded_trak(cfg: &TrackConfig, samples: &Vec<RecordedSample>) -> (r: Result<
    Vec<u8>,
    Mp4Error,
>)
    requires
        config_len(*cfg) + 40 * samples@.len() + 16384 <= usize::MAX,
    ensures
        match recorded_trak(*cfg, samples@) {
            Ok(b) => r matches Ok(v) && v@ == b && b.len() <= config_len(*cfg) + 24 * samples@.len()
                + 2048,
            Err(e) => r == Err::<Vec<u8>, Mp4Error>(e),
        },
{
    proof {
        reveal(recorded_trak);
    }
    let mdia_box = write_recorded_mdia(cfg, samples)?;
    let mut trak = Vec::new();
    let tkhd = write_tkhd(cfg);
    append(&mut trak, tkhd.as_slice());
    append(&mut trak, mdia_box.as_slice());
    proof {
        let b = fullbox(0, 3) + bytes32(0) + bytes32(0) + bytes32(cfg.track_id as int) + bytes32(0)
            + bytes32(0) + zeros(8) + bytes16(0) + bytes16(0) + bytes16(0) + bytes16(0) + zeros(36)
            + bytes32(tkhd_size(*cfg).0) + bytes32(tkhd_size(*cfg).1);
        lemma_box_len(TKHD, b);
        lemma_box_len(TRAK, trak@);
    }
    Ok(write_box(TRAK, trak.as_slice()))
}

/// The box path from the movie body down to the chunk offsets.
pub open spec fn stco_path() -> Seq<u32> {
    seq![TRAK, MDIA, MINF, STBL, STCO]
}

/// Where the chunk offset inside the movie body `body` is written: eight
/// bytes into the body of the `stco` box found along [`stco_path`].
pub open spec fn stco_patch(body: Seq<u8>) -> Result<int, Mp4Error> {
    match find_nested(body, 0, stco_path()) {
        None => Err(Mp4Error::InvalidInput { code: 3604, context: Some("stco box not found") }),
        Some(p) => if p > usize::MAX {
            Err(Mp4Error::LimitExceeded { limit: "stco patch offset exceeds usize" })
        } else if p + 8 > usize::MAX {
            Err(Mp4Error::LimitExceeded { limit: "stco patch position overflow" })
        } else if p + 12 > body.len() {
            Err(Mp4Error::InvalidInput { code: 3605, context: Some("stco patch out of bounds") })
        } else {
            Ok(p + 8)
        },
    }
}

fn stco_patch_position(body: &Vec<u8>) -> (r: Result<usize, Mp4Error>)
    requires
        body@.len() + 4096 <= usize::MAX,
    ensures
        match stco_patch(body@) {
            Ok(p) => r == Ok::<usize, Mp4Error>(p as usize),
            Err(e) => r == Err::<usize, Mp4Error>(e),
        },
{
    let mut path: Vec<u32> = Vec::new();
    path.push(TRAK);
    path.push(MDIA);
    path.push(MINF);
    path.push(STBL);
    path.push(STCO);
    assert(path@ =~= stco_path());
    let found = find_nested_box_offset(body.as_slice(), 0, path.as_slice());
    let p = match found {
        Some(p) => p,
        None => return Err(Mp4Error::invalid_input(3604, Some("stco box not found"))),
    };
    if p > usize::MAX as u64 {
        return Err(Mp4Error::limit_exceeded("stco patch offset exceeds usize"));
    }
    let pos = p as usize;
    if pos > usize::MAX - 8 {
        return Err(Mp4Error::limit_exceeded("stco patch position overflow"));
    }
    let end = pos + 8;
    if end > body.len() || body.len() - end < 4 {
        return Err(Mp4Error::invalid_input(3605, Some("stco patch out of bounds")));
    }
    Ok(end)
}

/// The size of the `mdat` header for `total` payload bytes: the 64-bit form
/// once the 32-bit size field cannot hold the box.
pub open spec fn mdat_header_len(total: int) -> int {
    if total + 8 > u32::MAX {
        16
    } else {
        8
    }
}

/// The `mdat` header for `total` payload bytes.
pub open spec fn mdat_header(total: int) -> Seq<u8> {
    if mdat_header_len(total) == 16 {
        seq![0u8, 0u8, 0u8, 1u8] + bytes32(MDAT as int) + bytes64(total + 16)
    } else {
        bytes32(total + 8) + bytes32(MDAT as int)
    }
}

/// The progressive file for track `c` and samples `ss`: `ftyp`, then `moov`
/// (movie header and the track) whose chunk offset is patched to point at the
/// first payload byte, then `mdat` holding the payloads in order; or the error
/// of the first check that fails.
pub open spec fn progressive_file(cfg: Option<TrackConfig>, ss: Seq<RecordedSample>) -> Result<
    Seq<u8>,
    Mp4Error,
> {
    match cfg {
        None => Err(Mp4Error::Unsupported { code: 3602, context: Some("no track configured") }),
        Some(c) => if ss.len() == 0 {
            Err(
                Mp4Error::InvalidInput {
                    code: 3603,
                    context: Some("cannot finalize an empty recording"),
                },
            )
        } else {
            match recorded_trak(c, ss) {
                Err(e) => Err(e),
                Ok(trak) => {
                    let body = mvhd_box(c.timescale, c.track_id + 1) + trak;
                    match stco_patch(body) {
                        Err(e) => Err(e),
                        Ok(pos) => assembled(body, pos, ss),
                    }
                },
            }
        },
    }
}

/// The file around movie body `body`, whose chunk offset is written at `pos`,
/// and the payloads of `ss`; or the size check that fails.
pub open spec fn assembled(body: Seq<u8>, pos: int, ss: Seq<RecordedSample>) -> Result<
    Seq<u8>,
    Mp4Error,
> {
    let total = payload_bytes(ss).len() as int;
    let header = mdat_header_len(total);
    let chunk = 24 + body.len() + 8 + header;
    if total + header > u64::MAX {
        Err(Mp4Error::LimitExceeded { limit: "mdat size overflow" })
    } else if chunk > u32::MAX {
        Err(Mp4Error::LimitExceeded { limit: "chunk offset exceeds u32" })
    } else if total + header > isize::MAX {
        Err(Mp4Error::LimitExceeded { limit: "mdat total size exceeds addressable memory" })
    } else {
        Ok(
            box_bytes(FTYP, ftyp_body()) + box_bytes(MOOV, patch4(body, pos, bytes32(chunk)))
                + mdat_header(total) + payload_bytes(ss),
        )
    }
}

/// The payload bytes of the samples, counted up to `u64::MAX`.
fn payload_total(samples: &Vec<RecordedSample>) -> (t: u64)
    ensures
        t == (if payload_bytes(samples@).len() > u64::MAX {
            u64::MAX as int
        } else {
            payload_bytes(samples@).len() as int
        }),
{
    let ghost ss = samples@;
    let mut t: u64 = 0;
    let mut i: usize = 0;
    while i < samples.len()
        invariant
            ss == samples@,
            i <= ss.len(),
            t == (if payload_bytes(ss.subrange(0, i as int)).len() > u64::MAX {
                u64::MAX as int
            } else {
                payload_bytes(ss.subrange(0, i as int)).len() as int
            }),
        decreases ss.len() - i,
    {
        assert(ss.subrange(0, i + 1).drop_last() =~= ss.subrange(0, i as int));
        t = t.saturating_add(samples[i].payload.len() as u64);
        i += 1;
    }
    assert(ss.subrange(0, ss.len() as int) =~= ss);
    t
}

/// Seekable, progressive MP4 muxer for a single track: samples are held in
/// memory until [`Mp4Muxer::finish`] writes the whole file.
#[derive(Debug)]
pub struct Mp4Muxer {
    config: Option<TrackConfig>,
    samples: Vec<RecordedSample>,
}

/// The sample recorded for a packet: decode time 0 when unknown, presentation
/// time the decode time when unknown, duration 0 when unknown or negative.
pub open spec fn recorded_sample(p: MediaPacket) -> RecordedSample {
    let dts: i64 = match p.time.dts {
        Some(t) => t,
        None => 0,
    };
    RecordedSample {
        dts,
        pts: match p.time.pts {
            Some(t) => t,
            None => dts,
        },
        duration: match p.time.duration {
            Some(d) => if d >= 0 {
                d as u64
            } else {
                0
            },
            None => 0,
        },
        payload: p.payload,
        keyframe: p.flags.is_keyframe,
    }
}

impl Mp4Muxer {
    /// The configured track.
    pub closed spec fn config(&self) -> Option<TrackConfig> {
        self.config
    }

    /// The samples recorded so far.
    pub closed spec fn samples(&self) -> Seq<RecordedSample> {
        self.samples@
    }

    /// A muxer with no track and no samples.
    pub fn new() -> (m: Self)
        ensures
            m.config() is None,
            m.samples() == Seq::<RecordedSample>::empty(),
    {
        Mp4Muxer { config: None, samples: Vec::new() }
    }

    /// Configure the single track.
    pub fn configure(&mut self, config: TrackConfig)
        ensures
            final(self).config() == Some(config),
            final(self).samples() == old(self).samples(),
    {
        self.config = Some(config);
    }

    /// Add a packet to the recording: refused without a track, or for
    /// another track.
    pub fn push_packet(&mut self, packet: MediaPacket) -> (r: Result<(), Mp4Error>)
        ensures
            final(self).config() == old(self).config(),
            match old(self).config() {
                None => r == Err::<(), Mp4Error>(
                    Mp4Error::Unsupported { code: 3600, context: Some("no track configured") },
                ) && final(self).samples() == old(self).samples(),
                Some(c) => if packet.track_id != c.track_id {
                    r == Err::<(), Mp4Error>(
                        Mp4Error::InvalidInput {
                            code: 3601,
                            context: Some("packet track id does not match configured track"),
                        },
                    ) && final(self).samples() == old(self).samples()
                } else {
                    r is Ok && final(self).samples() == old(self).samples().push(
                        recorded_sample(packet),
                    )
                },
            },
    {
        let track_id = match &self.config {
            Some(c) => c.track_id,
            None => return Err(Mp4Error::unsupported(3600, Some("no track configured"))),
        };
        if packet.track_id != track_id {
            return Err(
                Mp4Error::invalid_input(
                    3601,
                    Some("packet track id does not match configured track"),
                ),
            );
        }
        let dts: i64 = match packet.time.dts {
            Some(t) => t,
            None => 0,
        };
        let pts: i64 = match packet.time.pts {
            Some(t) => t,
            None => dts,
        };
        let duration: u64 = match packet.time.duration {
            Some(d) => if d >= 0 {
                d as u64
            } else {
                0
            },
            None => 0,
        };
        let keyframe = packet.flags.is_keyframe;
        self.samples.push(
            RecordedSample { dts, pts, duration, payload: packet.payload, keyframe },
        );
        Ok(())
    }

    /// Finalize the recording: the complete file of [`progressive_file`].
    pub fn finish(&self) -> (r: Result<Vec<u8>, Mp4Error>)
        requires
            self.config() matches Some(c) ==> c.track_id < u32::MAX && config_len(c) + 40
                * self.samples().len() + 16384 <= usize::MAX,
        ensures
            match progressive_file(self.config(), self.samples()) {
                Ok(b) => r matches Ok(v) && v@ == b,
                Err(e) => r == Err::<Vec<u8>, Mp4Error>(e),
            },
    {
        let cfg = match &self.config {
            Some(c) => c,
            None => return Err(Mp4Error::unsupported(3602, Some("no track configured"))),
        };
        if self.samples.len() == 0 {
            return Err(Mp4Error::invalid_input(3603, Some("cannot finalize an empty recording")));
        }
        let body = self.write_moov_body(cfg)?;
        let pos = stco_patch_position(&body)?;
        self.assemble(body, pos)
    }

    /// The file around movie body `body`; see [`assembled`].
    #[verifier::spinoff_prover]
    #[verifier::rlimit(40)]
    fn assemble(&self, body: Vec<u8>, pos: usize) -> (r: Result<Vec<u8>, Mp4Error>)
        requires
            body@.len() + 4096 <= usize::MAX,
            pos + 4 <= body@.len(),
        ensures
            match assembled(body@, pos as int, self.samples()) {
                Ok(b) => r matches Ok(v) && v@ == b,
                Err(e) => r == Err::<Vec<u8>, Mp4Error>(e),
            },
    {
        let mut body = body;
        let ftyp = write_ftyp();
        proof {
            lemma_box_len(FTYP, ftyp_body());
        }
        let total = payload_total(&self.samples);
        let header: u64 = if total.saturating_add(8) > 0xffff_ffff {
            16
        } else {
            8
        };
        let mdat_total = match total.checked_add(header) {
            Some(v) => v,
            None => return Err(Mp4Error::limit_exceeded("mdat size overflow")),
        };
        let chunk_offset = ftyp.len() + body.len() + 8 + header as usize;
        if chunk_offset > 0xffff_ffff {
            return Err(Mp4Error::limit_exceeded("chunk offset exceeds u32"));
        }
        patch_u32_be(&mut body, pos, chunk_offset as u64);
        let moov = write_box(MOOV, body.as_slice());
        if mdat_total > isize::MAX as u64 {
            return Err(Mp4Error::limit_exceeded("mdat total size exceeds addressable memory"));
        }
        let mut out = Vec::new();
        append(&mut out, ftyp.as_slice());
        append(&mut out, moov.as_slice());
        if header == 16 {
            out.push(0);
            out.push(0);
            out.push(0);
            out.push(1);
            write_u32(&mut out, MDAT);
            write_u64(&mut out, mdat_total);
        } else {
            write_u32(&mut out, mdat_total as u32);
            write_u32(&mut out, MDAT);
        }
        self.append_payloads(&mut out);
        Ok(out)
    }

    fn write_moov_body(&self, cfg: &TrackConfig) -> (r: Result<Vec<u8>, Mp4Error>)
        requires
            cfg.track_id < u32::MAX,
            config_len(*cfg) + 40 * self.samples().len() + 16384 <= usize::MAX,
        ensures
            match recorded_trak(*cfg, self.samples()) {
                Ok(t) => r matches Ok(v) && v@ == mvhd_box(cfg.timescale, cfg.track_id + 1) + t
                    && v@.len() <= config_len(*cfg) + 24 * self.samples().len() + 2200,
                Err(e) => r == Err::<Vec<u8>, Mp4Error>(e),
            },
    {
        let mut configs: Vec<TrackConfig> = Vec::new();
        configs.push(cfg.copy());
        let mvhd = write_mvhd(&configs);
        let trak = write_recorded_trak(cfg, &self.samples)?;
        let mut body = Vec::new();
        append(&mut body, mvhd.as_slice());
        append(&mut body, trak.as_slice());
        Ok(body)
    }

    fn append_payloads(&self, out: &mut Vec<u8>)
        ensures
            final(out)@ == old(out)@ + payload_bytes(self.samples()),
    {
        let ghost ss = self.samples@;
        let ghost head = out@;
        let mut i: usize = 0;
        assert(head + payload_bytes(ss.subrange(0, 0)) =~= head);
        while i < self.samples.len()
            invariant
                ss == self.samples@,
                i <= ss.len(),
                out@ == head + payload_bytes(ss.subrange(0, i as int)),
            decreases ss.len() - i,
        {
            append(out, self.samples[i].payload.as_slice());
            assert(ss.subrange(0, i + 1).drop_last() =~= ss.subrange(0, i as int));
            assert(out@ =~= head + payload_bytes(ss.subrange(0, i + 1)));
            i += 1;
        }
        assert(ss.subrange(0, ss.len() as int) =~= ss);
    }
}

impl Default for Mp4Muxer {
    /// A muxer with no track and no samples.
    fn default() -> (m: Self)
        ensures
            m.config() is None,
            m.samples() == Seq::<RecordedSample>::empty(),
    {
        Mp4Muxer::new()
    }
}


proof fn lemma_assembled_offset(body: Seq<u8>, pos: int, ss: Seq<RecordedSample>)
    requires
        assembled(body, pos, ss) is Ok,
        0 <= pos,
        pos + 4 <= body.len(),
    ensures
        ({
            let b = assembled(body, pos, ss)->Ok_0;
            let at = be32(b, 32 + pos);
            &&& 0 <= at
            &&& at + payload_bytes(ss).len() == b.len()
            &&& b.subrange(at, b.len() as int) == payload_bytes(ss)
        }),
{
    let b = assembled(body, pos, ss)->Ok_0;
    let total = payload_bytes(ss).len() as int;
    let header = mdat_header_len(total);
    let chunk = 24 + body.len() + 8 + header;
    let patched = patch4(body, pos, bytes32(chunk));
    lemma_be32_bytes32(chunk);
    lemma_box_len(FTYP, ftyp_body());
    let ftyp = box_bytes(FTYP, ftyp_body());
    let moov = box_bytes(MOOV, patched);
    assert(ftyp.len() == 24);
    assert(patched.len() == body.len());
    assert(moov == bytes32(patched.len() + 8int) + bytes32(MOOV as int) + patched);
    assert(mdat_header(total).len() == header);
    assert(b == ftyp + moov + mdat_header(total) + payload_bytes(ss));
    assert forall|k: int| 0 <= k < 4 implies #[trigger] b[32 + pos + k] == bytes32(chunk)[k] by {
        assert(b[32 + pos + k] == moov[8 + pos + k]);
        assert(moov[8 + pos + k] == patched[pos + k]);
    }
    assert(be32(b, 32 + pos) == be32(bytes32(chunk), 0));
    assert(b.subrange(chunk, b.len() as int) =~= payload_bytes(ss));
}

/// The chunk offset of a finished file finds its samples: the four bytes
/// written into the `stco` box hold the position at which the payloads of
/// all samples lie, in order.
pub proof fn lemma_chunk_offset_finds_payloads(c: TrackConfig, ss: Seq<RecordedSample>)
    requires
        progressive_file(Some(c), ss) is Ok,
    ensures
        ({
            let b = progressive_file(Some(c), ss)->Ok_0;
            let body = mvhd_box(c.timescale, c.track_id + 1) + recorded_trak(c, ss)->Ok_0;
            let at = be32(b, 32 + stco_patch(body)->Ok_0);
            &&& 0 <= at
            &&& at + payload_bytes(ss).len() == b.len()
            &&& b.subrange(at, b.len() as int) == payload_bytes(ss)
        }),
{
    let body = mvhd_box(c.timescale, c.track_id + 1) + recorded_trak(c, ss)->Ok_0;
    let pos = stco_patch(body)->Ok_0;
    assert(progressive_file(Some(c), ss) == assembled(body, pos, ss));
    lemma_assembled_offset(body, pos, ss);
}

} // verus!
