//! `moof` / `traf` / `trun` fragment parsing.

use vstd::prelude::*;

use crate::bytes::{be24, be32, be64, lemma_be32_range, lemma_be64_range};
use crate::isobmff::boxes::{
    iter_boxes, next_box_spec, read_fullbox_header, signed32, BoxHeader, Mp4Cursor,
    MAX_TABLE_ENTRIES,
};
use crate::isobmff::error::Mp4Error;
use crate::isobmff::moov::{trex_zero, TrackData, TrexDefaults};
use crate::isobmff::types::{TFDT, TFHD, TRAF, TRUN};
use crate::isobmff::boxes::copy_range;
use crate::media::{MediaPacket, MediaTime, PacketFlags, PacketView, TimeBase};

verus! {

pub const TFHD_BASE_DATA_OFFSET: u32 = 0x0000_0001;

pub const TFHD_SAMPLE_DESCRIPTION_INDEX: u32 = 0x0000_0002;

pub const TFHD_DEFAULT_SAMPLE_DURATION: u32 = 0x0000_0008;

pub const TFHD_DEFAULT_SAMPLE_SIZE: u32 = 0x0000_0010;

pub const TFHD_DEFAULT_SAMPLE_FLAGS: u32 = 0x0000_0020;

pub const TRUN_DATA_OFFSET_PRESENT: u32 = 0x0000_0001;

pub const TRUN_FIRST_SAMPLE_FLAGS_PRESENT: u32 = 0x0000_0004;

pub const TRUN_SAMPLE_DURATION_PRESENT: u32 = 0x0000_0100;

pub const TRUN_SAMPLE_SIZE_PRESENT: u32 = 0x0000_0200;

pub const TRUN_SAMPLE_FLAGS_PRESENT: u32 = 0x0000_0400;

pub const TRUN_SAMPLE_COMPOSITION_TIME_OFFSET_PRESENT: u32 = 0x0000_0800;

/// True when `bit` is set in `flags`.
pub open spec fn has(flags: u32, bit: u32) -> bool {
    flags & bit != 0
}

/// Byte count of an optional field: `n` when `present`, else 0.
pub open spec fn opt_len(present: bool, n: int) -> int {
    if present {
        n
    } else {
        0
    }
}

/// Parsed `tfhd` (track fragment header).
#[derive(Debug, Clone, Copy, Default, PartialEq, Eq)]
pub struct Tfhd {
    pub flags: u32,
    pub track_id: u32,
    pub base_data_offset: u64,
    pub sample_description_index: u32,
    pub default_sample_duration: u64,
    pub default_sample_size: u64,
    pub default_sample_flags: u32,
}

/// What parsing a `tfhd` box body gives.
pub open spec fn tfhd_spec(data: Seq<u8>) -> Result<Tfhd, Mp4Error> {
    if data.len() < 4 {
        Err(Mp4Error::NeedMoreData)
    } else {
        let f = be24(data, 1) as u32;
        let b = data.subrange(4, data.len() as int);
        let o1: int = 4;
        let o2 = o1 + opt_len(has(f, TFHD_BASE_DATA_OFFSET), 8);
        let o3 = o2 + opt_len(has(f, TFHD_SAMPLE_DESCRIPTION_INDEX), 4);
        let o4 = o3 + opt_len(has(f, TFHD_DEFAULT_SAMPLE_DURATION), 4);
        let o5 = o4 + opt_len(has(f, TFHD_DEFAULT_SAMPLE_SIZE), 4);
        let end = o5 + opt_len(has(f, TFHD_DEFAULT_SAMPLE_FLAGS), 4);
        if b.len() < end {
            Err(Mp4Error::NeedMoreData)
        } else {
            Ok(
                Tfhd {
                    flags: f,
                    track_id: be32(b, 0) as u32,
                    base_data_offset: if has(f, TFHD_BASE_DATA_OFFSET) {
                        be64(b, o1) as u64
                    } else {
                        0
                    },
                    sample_description_index: if has(f, TFHD_SAMPLE_DESCRIPTION_INDEX) {
                        be32(b, o2) as u32
                    } else {
                        0
                    },
                    default_sample_duration: if has(f, TFHD_DEFAULT_SAMPLE_DURATION) {
                        be32(b, o3) as u64
                    } else {
                        0
                    },
                    default_sample_size: if has(f, TFHD_DEFAULT_SAMPLE_SIZE) {
                        be32(b, o4) as u64
                    } else {
                        0
                    },
                    default_sample_flags: if has(f, TFHD_DEFAULT_SAMPLE_FLAGS) {
                        be32(b, o5) as u32
                    } else {
                        0
                    },
                },
            )
        }
    }
}

/// Parse a `tfhd` box body.
pub fn parse_tfhd(data: &[u8]) -> (r: Result<Tfhd, Mp4Error>)
    ensures
        r == tfhd_spec(data@),
{
    let (_version, flags, body) = read_fullbox_header(data)?;
    let ghost b = body@;
    let mut cursor = Mp4Cursor::new(body);
    let track_id = cursor.read_u32()?;
    let mut tfhd = Tfhd {
        flags,
        track_id,
        base_data_offset: 0,
        sample_description_index: 0,
        default_sample_duration: 0,
        default_sample_size: 0,
        default_sample_flags: 0,
    };
    if flags & TFHD_BASE_DATA_OFFSET != 0 {
        tfhd.base_data_offset = cursor.read_u64()?;
    }
    if flags & TFHD_SAMPLE_DESCRIPTION_INDEX != 0 {
        tfhd.sample_description_index = cursor.read_u32()?;
    }
    if flags & TFHD_DEFAULT_SAMPLE_DURATION != 0 {
        tfhd.default_sample_duration = cursor.read_u32()? as u64;
    }
    if flags & TFHD_DEFAULT_SAMPLE_SIZE != 0 {
        tfhd.default_sample_size = cursor.read_u32()? as u64;
    }
    if flags & TFHD_DEFAULT_SAMPLE_FLAGS != 0 {
        tfhd.default_sample_flags = cursor.read_u32()?;
    }
    Ok(tfhd)
}

/// Parsed `tfdt` (track fragment decode time).
#[derive(Debug, Clone, Copy, PartialEq, Eq)]
pub struct Tfdt {
    pub base_media_decode_time: u64,
}

/// What parsing a `tfdt` box body gives.
pub open spec fn tfdt_spec(data: Seq<u8>) -> Result<Tfdt, Mp4Error> {
    if data.len() < 4 {
        Err(Mp4Error::NeedMoreData)
    } else if data.len() - 4 < (if data[0] == 1 {
        8int
    } else {
        4int
    }) {
        Err(Mp4Error::NeedMoreData)
    } else if data[0] == 1 {
        Ok(Tfdt { base_media_decode_time: be64(data, 4) as u64 })
    } else {
        Ok(Tfdt { base_media_decode_time: be32(data, 4) as u64 })
    }
}

/// Parse a `tfdt` box body.
pub fn parse_tfdt(data: &[u8]) -> (r: Result<Tfdt, Mp4Error>)
    ensures
        r == tfdt_spec(data@),
{
    let (version, _flags, body) = read_fullbox_header(data)?;
    let need: usize = if version == 1 {
        8
    } else {
        4
    };
    if body.len() < need {
        return Err(Mp4Error::NeedMoreData);
    }
    let mut cursor = Mp4Cursor::new(body);
    assert(body@ == data@.subrange(4, data@.len() as int));
    assert(forall|k: int| 0 <= k < body@.len() ==> body@[k] == data@[k + 4]);
    let base = if version == 1 {
        match cursor.read_u64() {
            Ok(v) => v,
            Err(e) => return Err(e),
        }
    } else {
        match cursor.read_u32() {
            Ok(v) => v as u64,
            Err(e) => return Err(e),
        }
    };
    Ok(Tfdt { base_media_decode_time: base })
}

/// One `trun` entry with the fields that were present.
#[derive(Debug, Clone, Copy, Default, PartialEq, Eq)]
pub struct TrunEntry {
    pub duration: Option<u64>,
    pub size: Option<u64>,
    pub flags: Option<u32>,
    pub composition_offset: Option<i64>,
}

/// Parsed `trun` (track fragment run).
#[derive(Debug, Clone, PartialEq, Eq)]
pub struct Trun {
    pub sample_count: u32,
    pub data_offset: Option<i32>,
    pub first_sample_flags: Option<u32>,
    pub entries: Vec<TrunEntry>,
}

/// Abstract value of a `Trun`.
pub struct TrunSpec {
    pub sample_count: u32,
    pub data_offset: Option<i32>,
    pub first_sample_flags: Option<u32>,
    pub entries: Seq<TrunEntry>,
}

impl Trun {
    /// The run with its entries as a sequence.
    pub open spec fn view_spec(&self) -> TrunSpec {
        TrunSpec {
            sample_count: self.sample_count,
            data_offset: self.data_offset,
            first_sample_flags: self.first_sample_flags,
            entries: self.entries@,
        }
    }
}

/// Bytes taken by one `trun` entry under `flags`.
pub open spec fn trun_entry_len(flags: u32) -> int {
    opt_len(has(flags, TRUN_SAMPLE_DURATION_PRESENT), 4) + opt_len(
        has(flags, TRUN_SAMPLE_SIZE_PRESENT),
        4,
    ) + opt_len(has(flags, TRUN_SAMPLE_FLAGS_PRESENT), 4) + opt_len(
        has(flags, TRUN_SAMPLE_COMPOSITION_TIME_OFFSET_PRESENT),
        4,
    )
}

/// Bytes taken by the optional fields that precede the entries.
pub open spec fn trun_head_len(flags: u32) -> int {
    opt_len(has(flags, TRUN_DATA_OFFSET_PRESENT), 4) + opt_len(
        has(flags, TRUN_FIRST_SAMPLE_FLAGS_PRESENT),
        4,
    )
}

/// The entry stored at byte `o` of `s`.
pub open spec fn trun_entry_spec(s: Seq<u8>, o: int, flags: u32, version: u8) -> TrunEntry {
    let o1 = o + opt_len(has(flags, TRUN_SAMPLE_DURATION_PRESENT), 4);
    let o2 = o1 + opt_len(has(flags, TRUN_SAMPLE_SIZE_PRESENT), 4);
    let o3 = o2 + opt_len(has(flags, TRUN_SAMPLE_FLAGS_PRESENT), 4);
    TrunEntry {
        duration: if has(flags, TRUN_SAMPLE_DURATION_PRESENT) {
            Some(be32(s, o) as u64)
        } else {
            None
        },
        size: if has(flags, TRUN_SAMPLE_SIZE_PRESENT) {
            Some(be32(s, o1) as u64)
        } else {
            None
        },
        flags: if has(flags, TRUN_SAMPLE_FLAGS_PRESENT) {
            Some(be32(s, o2) as u32)
        } else {
            None
        },
        composition_offset: if has(flags, TRUN_SAMPLE_COMPOSITION_TIME_OFFSET_PRESENT) {
            Some(
                if version == 1 {
                    signed32(be32(s, o3)) as i64
                } else {
                    be32(s, o3) as i64
                },
            )
        } else {
            None
        },
    }
}

/// What parsing a `trun` box body gives.
pub open spec fn trun_spec(data: Seq<u8>) -> Result<TrunSpec, Mp4Error> {
    if data.len() < 4 {
        Err(Mp4Error::NeedMoreData)
    } else {
        let version = data[0];
        let f = be24(data, 1) as u32;
        let body = data.subrange(4, data.len() as int);
        if body.len() < 4 {
            Err(Mp4Error::NeedMoreData)
        } else {
            let count = be32(body, 0);
            if count > MAX_TABLE_ENTRIES {
                Err(Mp4Error::LimitExceeded { limit: "trun entries" })
            } else {
                let rest = body.subrange(4, body.len() as int);
                let head = trun_head_len(f);
                let esz = trun_entry_len(f);
                if rest.len() < head + count * esz {
                    Err(Mp4Error::NeedMoreData)
                } else {
                    Ok(
                        TrunSpec {
                            sample_count: count as u32,
                            data_offset: if has(f, TRUN_DATA_OFFSET_PRESENT) {
                                Some(signed32(be32(rest, 0)) as i32)
                            } else {
                                None
                            },
                            first_sample_flags: if has(f, TRUN_FIRST_SAMPLE_FLAGS_PRESENT) {
                                Some(
                                    be32(
                                        rest,
                                        opt_len(has(f, TRUN_DATA_OFFSET_PRESENT), 4),
                                    ) as u32,
                                )
                            } else {
                                None
                            },
                            entries: Seq::new(
                                count as nat,
                                |i: int| trun_entry_spec(rest, head + i * esz, f, version),
                            ),
                        },
                    )
                }
            }
        }
    }
}

/// Reads one optional `u32` field of a `trun` entry.
fn read_opt_u32(cursor: &mut Mp4Cursor, present: bool) -> (r: Result<Option<u32>, Mp4Error>)
    ensures
        final(cursor).data() == old(cursor).data(),
        match r {
            Ok(v) => if present {
                old(cursor).left() >= 4 && v == Some(be32(old(cursor).data(), old(cursor).at()) as u32)
                    && final(cursor).at() == old(cursor).at() + 4
            } else {
                v is None && final(cursor).at() == old(cursor).at()
            },
            Err(e) => present && old(cursor).left() < 4 && e == Mp4Error::NeedMoreData,
        },
{
    if present {
        let v = cursor.read_u32()?;
        Ok(Some(v))
    } else {
        Ok(None)
    }
}

proof fn lemma_step(i: int, esz: int, head: int)
    requires
        0 <= esz <= 16,
        0 <= i,
    ensures
        head + (i + 1) * esz == head + i * esz + esz,
        0 <= i * esz,
{
    assert((i + 1) * esz == i * esz + esz) by (nonlinear_arith);
    assert(0 <= i * esz) by (nonlinear_arith)
        requires
            0 <= esz,
            0 <= i,
    ;
}

proof fn lemma_mono(i: int, n: int, esz: int)
    requires
        0 <= esz,
        0 <= i <= n,
    ensures
        i * esz <= n * esz,
{
    assert(i * esz <= n * esz) by (nonlinear_arith)
        requires
            0 <= esz,
            0 <= i <= n,
    ;
}

/// Parse a `trun` box body.
pub fn parse_trun(data: &[u8]) -> (r: Result<Trun, Mp4Error>)
    ensures
        match r {
            Ok(t) => trun_spec(data@) == Ok::<TrunSpec, Mp4Error>(t.view_spec()),
            Err(e) => trun_spec(data@) == Err::<TrunSpec, Mp4Error>(e),
        },
{
    let (version, flags, body) = read_fullbox_header(data)?;
    if body.len() < 4 {
        return Err(Mp4Error::NeedMoreData);
    }
    let mut c0 = Mp4Cursor::new(body);
    let sample_count = match c0.read_u32() {
        Ok(v) => v,
        Err(e) => return Err(e),
    };
    if sample_count as usize > MAX_TABLE_ENTRIES {
        return Err(Mp4Error::LimitExceeded { limit: "trun entries" });
    }
    let rest = c0.rest();
    let ghost rs = rest@;
    let ghost esz = trun_entry_len(flags);
    let ghost head = trun_head_len(flags);
    let mut cursor = Mp4Cursor::new(rest);
    let data_offset = if flags & TRUN_DATA_OFFSET_PRESENT != 0 {
        Some(cursor.read_i32()?)
    } else {
        None
    };
    let first_sample_flags = read_opt_u32(&mut cursor, flags & TRUN_FIRST_SAMPLE_FLAGS_PRESENT != 0)?;
    assert(cursor.at() == head);
    let mut entries: Vec<TrunEntry> = Vec::new();
    let mut i: u32 = 0;
    while i < sample_count
        invariant
            cursor.data() == rs,
            0 <= i <= sample_count <= MAX_TABLE_ENTRIES,
            esz == trun_entry_len(flags),
            head == trun_head_len(flags),
            0 <= esz <= 16,
            rs.len() < head + sample_count * esz ==> trun_spec(data@) == Err::<TrunSpec, Mp4Error>(
                Mp4Error::NeedMoreData,
            ),
            cursor.at() == head + i * esz,
            entries@.len() == i,
            forall|k: int|
                0 <= k < i ==> #[trigger] entries@[k] == trun_entry_spec(
                    rs,
                    head + k * esz,
                    flags,
                    version,
                ),
        decreases sample_count - i,
    {
        let ghost start = cursor.at();
        let duration = read_opt_u32(&mut cursor, flags & TRUN_SAMPLE_DURATION_PRESENT != 0);
        let duration = match duration {
            Ok(v) => v,
            Err(e) => {
                proof {
                    lemma_step(i as int, esz, head);
                    lemma_mono(i as int + 1, sample_count as int, esz);
                }
                return Err(e);
            },
        };
        let size = read_opt_u32(&mut cursor, flags & TRUN_SAMPLE_SIZE_PRESENT != 0);
        let size = match size {
            Ok(v) => v,
            Err(e) => {
                proof {
                    lemma_step(i as int, esz, head);
                    lemma_mono(i as int + 1, sample_count as int, esz);
                }
                return Err(e);
            },
        };
        let sflags = read_opt_u32(&mut cursor, flags & TRUN_SAMPLE_FLAGS_PRESENT != 0);
        let sflags = match sflags {
            Ok(v) => v,
            Err(e) => {
                proof {
                    lemma_step(i as int, esz, head);
                    lemma_mono(i as int + 1, sample_count as int, esz);
                }
                return Err(e);
            },
        };
        let mut composition_offset = None;
        if flags & TRUN_SAMPLE_COMPOSITION_TIME_OFFSET_PRESENT != 0 {
            if version == 1 {
                match cursor.read_i32() {
                    Ok(v) => {
                        composition_offset = Some(v as i64);
                    },
                    Err(e) => {
                        proof {
                            lemma_step(i as int, esz, head);
                            lemma_mono(i as int + 1, sample_count as int, esz);
                        }
                        return Err(e);
                    },
                }
            } else {
                match cursor.read_u32() {
                    Ok(v) => {
                        composition_offset = Some(v as i64);
                    },
                    Err(e) => {
                        proof {
                            lemma_step(i as int, esz, head);
                            lemma_mono(i as int + 1, sample_count as int, esz);
                        }
                        return Err(e);
                    },
                }
            }
        }
        let e = TrunEntry {
            duration: match duration {
                Some(d) => Some(d as u64),
                None => None,
            },
            size: match size {
                Some(d) => Some(d as u64),
                None => None,
            },
            flags: sflags,
            composition_offset,
        };
        proof {
            lemma_step(i as int, esz, head);
        }
        assert(e == trun_entry_spec(rs, head + i * esz, flags, version));
        entries.push(e);
        i = i + 1;
    }
    let _left = cursor.remaining();
    proof {
        lemma_mono(sample_count as int, sample_count as int, esz);
    }
    let t = Trun { sample_count, data_offset, first_sample_flags, entries };
    assert(t.view_spec().entries =~= Seq::new(
        sample_count as nat,
        |k: int| trun_entry_spec(rs, head + k * esz, flags, version),
    ));
    Ok(t)
}

/// Return true if the sample_flags indicate a non-sync (non-key) frame.
pub fn is_non_sync_sample(flags: u32) -> (b: bool)
    ensures
        b == ((flags / 0x10000) % 2 == 1),
{
    (flags / 0x10000) % 2 == 1
}


/// Parsed `trun` entry after defaults and flags have been resolved.
#[derive(Debug, Clone, Copy, PartialEq, Eq)]
pub struct FragmentSample {
    pub duration: u64,
    pub size: u64,
    pub flags: u32,
    pub composition_offset: i64,
    pub data_offset: u64,
}

/// A fully parsed movie fragment for one track.
#[derive(Debug, Clone, PartialEq, Eq)]
pub struct TrackFragment {
    pub track_id: u32,
    pub base_decode_time: u64,
    pub default_sample_duration: u64,
    pub default_sample_size: u64,
    pub default_sample_flags: u32,
    pub first_sample_flags: Option<u32>,
    pub samples: Vec<FragmentSample>,
    pub data_offset_base: u64,
    pub moof_offset: u64,
}

/// Abstract value of a `TrackFragment`.
pub struct TrackFragmentSpec {
    pub track_id: u32,
    pub base_decode_time: u64,
    pub default_sample_duration: u64,
    pub default_sample_size: u64,
    pub default_sample_flags: u32,
    pub first_sample_flags: Option<u32>,
    pub samples: Seq<FragmentSample>,
    pub data_offset_base: u64,
    pub moof_offset: u64,
}

impl TrackFragment {
    /// The fragment with its samples as a sequence.
    pub open spec fn view_spec(&self) -> TrackFragmentSpec {
        TrackFragmentSpec {
            track_id: self.track_id,
            base_decode_time: self.base_decode_time,
            default_sample_duration: self.default_sample_duration,
            default_sample_size: self.default_sample_size,
            default_sample_flags: self.default_sample_flags,
            first_sample_flags: self.first_sample_flags,
            samples: self.samples@,
            data_offset_base: self.data_offset_base,
            moof_offset: self.moof_offset,
        }
    }
}

/// The `tfhd`, `tfdt` and `trun` boxes found in a `traf` (the last of each kind wins).
pub struct TrafParts {
    pub tfhd: Option<Tfhd>,
    pub tfdt: Option<Tfdt>,
    pub trun: Option<TrunSpec>,
}

/// Folds one child box of a `traf` into the parts found so far.
pub open spec fn traf_step(acc: TrafParts, box_type: u32, body: Seq<u8>) -> Result<TrafParts, Mp4Error> {
    if box_type == TFHD {
        match tfhd_spec(body) {
            Ok(v) => Ok(TrafParts { tfhd: Some(v), ..acc }),
            Err(e) => Err(e),
        }
    } else if box_type == TFDT {
        match tfdt_spec(body) {
            Ok(v) => Ok(TrafParts { tfdt: Some(v), ..acc }),
            Err(e) => Err(e),
        }
    } else if box_type == TRUN {
        match trun_spec(body) {
            Ok(v) => Ok(TrafParts { trun: Some(v), ..acc }),
            Err(e) => Err(e),
        }
    } else {
        Ok(acc)
    }
}

/// Walks the children of a `traf` body from byte `offset`, stopping at the first error.
pub open spec fn traf_walk(data: Seq<u8>, offset: int, cur: u64, acc: TrafParts) -> Result<
    TrafParts,
    Mp4Error,
>
    decreases data.len() - offset,
{
    match next_box_spec(data, offset, cur) {
        None => Ok(acc),
        Some(Err(e)) => Err(e),
        Some(Ok((h, body))) => if h.size == 0 {
            Err(Mp4Error::NeedMoreData)
        } else {
            match traf_step(acc, h.box_type, body) {
                Err(e) => Err(e),
                Ok(a2) => traf_walk(data, offset + h.size, (cur + h.size) as u64, a2),
            }
        },
    }
}

/// The `trex` defaults of the first track with id `id`, or all zeros.
pub open spec fn find_trex(tracks: Seq<TrackData>, id: u32) -> TrexDefaults
    decreases tracks.len(),
{
    if tracks.len() == 0 {
        trex_zero()
    } else if tracks[0].track_id == id {
        tracks[0].trex
    } else {
        find_trex(tracks.drop_first(), id)
    }
}

/// Sum, modulo 2^64, of the sizes of the first `i` samples.
pub open spec fn cum_size(entries: Seq<TrunEntry>, default_size: u64, i: int) -> u64
    decreases i,
{
    if i <= 0 {
        0
    } else {
        let e = entries[i - 1];
        let sz = match e.size {
            Some(v) => v,
            None => default_size,
        };
        cum_size(entries, default_size, i - 1).wrapping_add(sz)
    }
}

/// The resolved sample `i` of a run.
pub open spec fn sample_spec(
    trun: TrunSpec,
    dd: u64,
    ds: u64,
    df: u32,
    base: u64,
    i: int,
) -> FragmentSample {
    let e = trun.entries[i];
    let cum = cum_size(trun.entries, ds, i);
    FragmentSample {
        duration: match e.duration {
            Some(v) => v,
            None => dd,
        },
        size: match e.size {
            Some(v) => v,
            None => ds,
        },
        flags: if i == 0 && trun.first_sample_flags is Some {
            trun.first_sample_flags->0
        } else {
            match e.flags {
                Some(v) => v,
                None => df,
            }
        },
        composition_offset: match e.composition_offset {
            Some(v) => v,
            None => 0,
        },
        data_offset: match trun.data_offset {
            Some(d) => base.wrapping_add(d as u64).wrapping_add(cum),
            None => base.wrapping_add(cum),
        },
    }
}

/// The fragment a `traf` with the given parts describes.
pub open spec fn fragment_spec(p: TrafParts, moof_offset: u64, tracks: Seq<TrackData>) -> Option<
    TrackFragmentSpec,
> {
    match p.tfhd {
        None => None,
        Some(tfhd) => match p.trun {
            None => None,
            Some(trun) => {
                let trex = find_trex(tracks, tfhd.track_id);
                let f = tfhd.flags;
                let dd = if has(f, TFHD_DEFAULT_SAMPLE_DURATION) {
                    tfhd.default_sample_duration
                } else {
                    trex.default_sample_duration
                };
                let ds = if has(f, TFHD_DEFAULT_SAMPLE_SIZE) {
                    tfhd.default_sample_size
                } else {
                    trex.default_sample_size
                };
                let df = if has(f, TFHD_DEFAULT_SAMPLE_FLAGS) {
                    tfhd.default_sample_flags
                } else {
                    trex.default_sample_flags
                };
                let base = if has(f, TFHD_BASE_DATA_OFFSET) {
                    tfhd.base_data_offset
                } else {
                    moof_offset
                };
                Some(
                    TrackFragmentSpec {
                        track_id: tfhd.track_id,
                        base_decode_time: match p.tfdt {
                            Some(t) => t.base_media_decode_time,
                            None => 0,
                        },
                        default_sample_duration: dd,
                        default_sample_size: ds,
                        default_sample_flags: df,
                        first_sample_flags: trun.first_sample_flags,
                        samples: Seq::new(
                            trun.sample_count as nat,
                            |i: int| sample_spec(trun, dd, ds, df, base, i),
                        ),
                        data_offset_base: base,
                        moof_offset,
                    },
                )
            },
        },
    }
}

/// The run's first-sample flags belong to the first sample alone: every
/// later sample takes its own flags from the run, or the fragment's default
/// flags, and is the same as it would be had the run no first-sample flags;
/// the first sample takes them when the run has them.
pub proof fn lemma_first_sample_flags_first_only(p: TrafParts, moof_offset: u64, tracks: Seq<TrackData>)
    requires
        p.trun is Some,
        fragment_spec(p, moof_offset, tracks) is Some,
    ensures
        ({
            let t = p.trun->Some_0;
            let f = fragment_spec(p, moof_offset, tracks)->Some_0;
            let g = fragment_spec(
                TrafParts { trun: Some(TrunSpec { first_sample_flags: None, ..t }), ..p },
                moof_offset,
                tracks,
            )->Some_0;
            &&& f.samples.len() == g.samples.len()
            &&& forall|i: int|
                1 <= i < f.samples.len() ==> (#[trigger] f.samples[i]).flags == match t.entries[i].flags {
                    Some(v) => v,
                    None => f.default_sample_flags,
                }
            &&& forall|i: int| 1 <= i < f.samples.len() ==> #[trigger] f.samples[i] == g.samples[i]
            &&& (f.samples.len() > 0 && t.first_sample_flags is Some) ==> f.samples[0].flags
                == t.first_sample_flags->Some_0
        }),
{
}

proof fn lemma_wrapping_add_assoc(a: u64, b: u64, c: u64)
    ensures
        a.wrapping_add(b).wrapping_add(c) == a.wrapping_add(b.wrapping_add(c)),
{
}

/// The samples of a run lie back to back: the first starts at the
/// fragment's base data offset moved by the run's data offset, and each
/// next one where the one before it ends (modulo 2^64); each sample's size
/// and duration are its run entry's, or the fragment's defaults.
pub proof fn lemma_samples_back_to_back(p: TrafParts, moof_offset: u64, tracks: Seq<TrackData>)
    requires
        p.trun is Some,
        fragment_spec(p, moof_offset, tracks) is Some,
    ensures
        ({
            let t = p.trun->Some_0;
            let f = fragment_spec(p, moof_offset, tracks)->Some_0;
            &&& f.samples.len() > 0 ==> f.samples[0].data_offset == match t.data_offset {
                Some(d) => f.data_offset_base.wrapping_add(d as u64),
                None => f.data_offset_base,
            }
            &&& forall|i: int|
                0 <= i < f.samples.len() - 1 ==> (#[trigger] f.samples[i + 1]).data_offset
                    == f.samples[i].data_offset.wrapping_add(f.samples[i].size)
            &&& forall|i: int|
                0 <= i < f.samples.len() ==> (#[trigger] f.samples[i]).size == match t.entries[i].size {
                    Some(v) => v,
                    None => f.default_sample_size,
                } && f.samples[i].duration == match t.entries[i].duration {
                    Some(v) => v,
                    None => f.default_sample_duration,
                }
        }),
{
    let t = p.trun->Some_0;
    let f = fragment_spec(p, moof_offset, tracks)->Some_0;
    assert forall|i: int| 0 <= i < f.samples.len() - 1 implies (#[trigger] f.samples[i + 1]).data_offset
        == f.samples[i].data_offset.wrapping_add(f.samples[i].size) by {
        let ds = f.default_sample_size;
        let base = f.data_offset_base;
        let c = cum_size(t.entries, ds, i);
        let sz = f.samples[i].size;
        assert(cum_size(t.entries, ds, i + 1) == c.wrapping_add(sz));
        match t.data_offset {
            Some(d) => lemma_wrapping_add_assoc(base.wrapping_add(d as u64), c, sz),
            None => lemma_wrapping_add_assoc(base, c, sz),
        }
    }
}

/// The same, for a parsed `traf`: past the first sample, every sample's
/// flags are its run entry's, or the fragment's default flags.
pub proof fn lemma_traf_flags_after_first(
    data: Seq<u8>,
    traf_offset: u64,
    moof_offset: u64,
    tracks: Seq<TrackData>,
)
    requires
        traf_spec(data, traf_offset, moof_offset, tracks) matches Ok(Some(_)),
    ensures
        ({
            let p = traf_walk(data, 0, traf_offset, no_parts())->Ok_0;
            let t = p.trun->Some_0;
            let f = traf_spec(data, traf_offset, moof_offset, tracks)->Ok_0->Some_0;
            &&& p.trun is Some
            &&& forall|i: int|
                1 <= i < f.samples.len() ==> (#[trigger] f.samples[i]).flags == match t.entries[i].flags {
                    Some(v) => v,
                    None => f.default_sample_flags,
                }
            &&& (f.samples.len() > 0 && t.first_sample_flags is Some) ==> f.samples[0].flags
                == t.first_sample_flags->Some_0
        }),
{
    let p = traf_walk(data, 0, traf_offset, no_parts())->Ok_0;
    lemma_first_sample_flags_first_only(p, moof_offset, tracks);
}

/// The abstract value of an optional run.
pub open spec fn opt_trun_view(r: Option<Trun>) -> Option<TrunSpec> {
    match r {
        None => None,
        Some(t) => Some(t.view_spec()),
    }
}

/// The empty set of parts.
pub open spec fn no_parts() -> TrafParts {
    TrafParts { tfhd: None, tfdt: None, trun: None }
}

/// What parsing a `traf` body at stream offset `traf_offset` gives.
pub open spec fn traf_spec(
    data: Seq<u8>,
    traf_offset: u64,
    moof_offset: u64,
    tracks: Seq<TrackData>,
) -> Result<Option<TrackFragmentSpec>, Mp4Error> {
    match traf_walk(data, 0, traf_offset, no_parts()) {
        Err(e) => Err(e),
        Ok(p) => Ok(fragment_spec(p, moof_offset, tracks)),
    }
}

/// The abstract value of an optional fragment.
pub open spec fn opt_fragment_view(r: Option<TrackFragment>) -> Option<TrackFragmentSpec> {
    match r {
        None => None,
        Some(t) => Some(t.view_spec()),
    }
}

fn find_trex_exec(tracks: &[TrackData], id: u32) -> (r: TrexDefaults)
    ensures
        r == find_trex(tracks@, id),
{
    let mut i: usize = 0;
    assert(tracks@.subrange(0, tracks@.len() as int) =~= tracks@);
    while i < tracks.len()
        invariant
            i <= tracks@.len(),
            find_trex(tracks@.subrange(i as int, tracks@.len() as int), id) == find_trex(tracks@, id),
        decreases tracks@.len() - i,
    {
        let ghost rest = tracks@.subrange(i as int, tracks@.len() as int);
        assert(rest.drop_first() =~= tracks@.subrange(i + 1, tracks@.len() as int));
        if tracks[i].track_id == id {
            return tracks[i].trex;
        }
        i = i + 1;
    }
    TrexDefaults {
        sample_description_index: 0,
        default_sample_duration: 0,
        default_sample_size: 0,
        default_sample_flags: 0,
    }
}

/// Parse the children of a `traf` box into a `TrackFragment`.
pub fn parse_traf(
    traf_body: &[u8],
    traf_offset: u64,
    moof_offset: u64,
    tracks: &[TrackData],
) -> (r: Result<Option<TrackFragment>, Mp4Error>)
    requires
        traf_offset + traf_body@.len() <= u64::MAX,
    ensures
        match r {
            Ok(v) => traf_spec(traf_body@, traf_offset, moof_offset, tracks@) == Ok::<
                Option<TrackFragmentSpec>,
                Mp4Error,
            >(opt_fragment_view(v)),
            Err(e) => traf_spec(traf_body@, traf_offset, moof_offset, tracks@) == Err::<
                Option<TrackFragmentSpec>,
                Mp4Error,
            >(e),
        },
{
    let mut tfhd: Option<Tfhd> = None;
    let mut tfdt: Option<Tfdt> = None;
    let mut trun: Option<Trun> = None;
    let mut it = iter_boxes(traf_body, traf_offset, 8)?;
    loop
        invariant
            it.data() == traf_body@,
            0 <= it.offset() <= traf_body@.len(),
            traf_walk(
                traf_body@,
                it.offset(),
                it.stream_offset(),
                TrafParts {
                    tfhd,
                    tfdt,
                    trun: opt_trun_view(trun),
                },
            ) == traf_walk(traf_body@, 0, traf_offset, no_parts()),
        ensures
            next_box_spec(traf_body@, it.offset(), it.stream_offset()) is None,
            traf_walk(
                traf_body@,
                it.offset(),
                it.stream_offset(),
                TrafParts { tfhd, tfdt, trun: opt_trun_view(trun) },
            ) == traf_walk(traf_body@, 0, traf_offset, no_parts()),
        decreases traf_body@.len() - it.offset(),
    {
        let item = it.next();
        match item {
            None => break,
            Some(Err(e)) => return Err(e),
            Some(Ok((header, body))) => {
                if header.box_type == TFHD {
                    tfhd = Some(parse_tfhd(body)?);
                } else if header.box_type == TFDT {
                    tfdt = Some(parse_tfdt(body)?);
                } else if header.box_type == TRUN {
                    trun = Some(parse_trun(body)?);
                }
            },
        }
    }
    let ghost parts = TrafParts {
        tfhd,
        tfdt,
        trun: opt_trun_view(trun),
    };
    assert(traf_walk(traf_body@, 0, traf_offset, no_parts()) == Ok::<TrafParts, Mp4Error>(parts));
    let tfhd = match tfhd {
        Some(v) => v,
        None => return Ok(None),
    };
    let track_id = tfhd.track_id;
    let trex = find_trex_exec(tracks, track_id);
    let base_decode_time = match tfdt {
        Some(t) => t.base_media_decode_time,
        None => 0,
    };
    let flags = tfhd.flags;
    let mut default_sample_duration = trex.default_sample_duration;
    let mut default_sample_size = trex.default_sample_size;
    let mut default_sample_flags = trex.default_sample_flags;
    if flags & TFHD_DEFAULT_SAMPLE_DURATION != 0 {
        default_sample_duration = tfhd.default_sample_duration;
    }
    if flags & TFHD_DEFAULT_SAMPLE_SIZE != 0 {
        default_sample_size = tfhd.default_sample_size;
    }
    if flags & TFHD_DEFAULT_SAMPLE_FLAGS != 0 {
        default_sample_flags = tfhd.default_sample_flags;
    }
    let trun = match trun {
        Some(v) => v,
        None => return Ok(None),
    };
    let data_offset_base = if flags & TFHD_BASE_DATA_OFFSET != 0 {
        tfhd.base_data_offset
    } else {
        moof_offset
    };
    let ghost ts = trun.view_spec();
    assert(ts.entries.len() == ts.sample_count) by {
        assert(parts.trun == Some(ts));
        reveal_trun_len(traf_body@, traf_offset, ts);
    }
    let mut cumulative_size: u64 = 0;
    let mut samples: Vec<FragmentSample> = Vec::new();
    let mut i: u32 = 0;
    while i < trun.sample_count
        invariant
            ts == trun.view_spec(),
            ts.entries.len() == ts.sample_count,
            0 <= i <= ts.sample_count,
            cumulative_size == cum_size(ts.entries, default_sample_size, i as int),
            samples@.len() == i,
            forall|k: int|
                0 <= k < i ==> #[trigger] samples@[k] == sample_spec(
                    ts,
                    default_sample_duration,
                    default_sample_size,
                    default_sample_flags,
                    data_offset_base,
                    k,
                ),
        decreases ts.sample_count - i,
    {
        let e = trun.entries[i as usize];
        let duration = match e.duration {
            Some(v) => v,
            None => default_sample_duration,
        };
        let size = match e.size {
            Some(v) => v,
            None => default_sample_size,
        };
        let mut sample_flags = match e.flags {
            Some(v) => v,
            None => default_sample_flags,
        };
        let composition_offset = match e.composition_offset {
            Some(v) => v,
            None => 0,
        };
        if i == 0 {
            if let Some(f) = trun.first_sample_flags {
                sample_flags = f;
            }
        }
        let data_offset = match trun.data_offset {
            Some(d) => data_offset_base.wrapping_add(#[verifier::truncate] (d as u64)).wrapping_add(cumulative_size),
            None => data_offset_base.wrapping_add(cumulative_size),
        };
        let s = FragmentSample {
            duration,
            size,
            flags: sample_flags,
            composition_offset,
            data_offset,
        };
        assert(s == sample_spec(
            ts,
            default_sample_duration,
            default_sample_size,
            default_sample_flags,
            data_offset_base,
            i as int,
        ));
        samples.push(s);
        cumulative_size = cumulative_size.wrapping_add(size);
        i = i + 1;
    }
    let tf = TrackFragment {
        track_id,
        base_decode_time,
        default_sample_duration,
        default_sample_size,
        default_sample_flags,
        first_sample_flags: trun.first_sample_flags,
        samples,
        data_offset_base,
        moof_offset,
    };
    assert(tf.view_spec().samples =~= Seq::new(
        ts.sample_count as nat,
        |k: int|
            sample_spec(
                ts,
                default_sample_duration,
                default_sample_size,
                default_sample_flags,
                data_offset_base,
                k,
            ),
    ));
    Ok(Some(tf))
}

/// A run found while walking a `traf` has one entry per sample.
proof fn reveal_trun_len(data: Seq<u8>, cur: u64, ts: TrunSpec)
    requires
        traf_walk(data, 0, cur, no_parts()) matches Ok(p) && p.trun == Some(ts),
    ensures
        ts.entries.len() == ts.sample_count,
{
    lemma_walk_trun_len(data, 0, cur, no_parts());
}

/// Every run the walk keeps came from `trun_spec`, so its entry count matches.
proof fn lemma_walk_trun_len(data: Seq<u8>, offset: int, cur: u64, acc: TrafParts)
    requires
        acc.trun matches Some(t) ==> t.entries.len() == t.sample_count,
    ensures
        traf_walk(data, offset, cur, acc) matches Ok(p) ==> (p.trun matches Some(t)
            ==> t.entries.len() == t.sample_count),
    decreases data.len() - offset,
{
    match next_box_spec(data, offset, cur) {
        None => {},
        Some(Err(e)) => {},
        Some(Ok((h, body))) => {
            if h.size != 0 {
                match traf_step(acc, h.box_type, body) {
                    Err(e) => {},
                    Ok(a2) => {
                        lemma_walk_trun_len(data, offset + h.size, (cur + h.size) as u64, a2);
                    },
                }
            }
        },
    }
}


/// Walks the children of a `moof` body from byte `offset`, collecting one
/// fragment per `traf` that has both a `tfhd` and a `trun`.
pub open spec fn moof_walk(
    data: Seq<u8>,
    offset: int,
    cur: u64,
    moof_offset: u64,
    tracks: Seq<TrackData>,
) -> Result<Seq<TrackFragmentSpec>, Mp4Error>
    decreases data.len() - offset,
{
    match next_box_spec(data, offset, cur) {
        None => Ok(Seq::empty()),
        Some(Err(e)) => Err(e),
        Some(Ok((h, body))) => if h.size == 0 {
            Err(Mp4Error::NeedMoreData)
        } else {
            let here: Result<Option<TrackFragmentSpec>, Mp4Error> = if h.box_type == TRAF {
                traf_spec(body, (h.start_offset + h.header_size) as u64, moof_offset, tracks)
            } else {
                Ok(None)
            };
            match here {
                Err(e) => Err(e),
                Ok(first) => match moof_walk(
                    data,
                    offset + h.size,
                    (cur + h.size) as u64,
                    moof_offset,
                    tracks,
                ) {
                    Err(e) => Err(e),
                    Ok(rest) => Ok(
                        match first {
                            Some(f) => seq![f] + rest,
                            None => rest,
                        },
                    ),
                },
            }
        },
    }
}

/// Parse a `moof` box and produce `TrackFragment`s for each `traf`.
///
/// `moof_offset` is the absolute stream offset of the `moof` box start.
pub fn parse_moof(moof_body: &[u8], moof_offset: u64, tracks: &[TrackData]) -> (r: Result<
    Vec<TrackFragment>,
    Mp4Error,
>)
    requires
        moof_offset + moof_body@.len() <= u64::MAX,
    ensures
        match r {
            Ok(v) => moof_walk(moof_body@, 0, moof_offset, moof_offset, tracks@) == Ok::<
                Seq<TrackFragmentSpec>,
                Mp4Error,
            >(v@.map_values(|f: TrackFragment| f.view_spec())),
            Err(e) => moof_walk(moof_body@, 0, moof_offset, moof_offset, tracks@) == Err::<
                Seq<TrackFragmentSpec>,
                Mp4Error,
            >(e),
        },
{
    let mut fragments: Vec<TrackFragment> = Vec::new();
    let mut it = iter_boxes(moof_body, moof_offset, 8)?;
    loop
        invariant
            it.data() == moof_body@,
            0 <= it.offset() <= moof_body@.len(),
            moof_offset + moof_body@.len() <= u64::MAX,
            it.stream_offset() == moof_offset + it.offset(),
            moof_walk(moof_body@, 0, moof_offset, moof_offset, tracks@) == match moof_walk(
                moof_body@,
                it.offset(),
                it.stream_offset(),
                moof_offset,
                tracks@,
            ) {
                Err(e) => Err(e),
                Ok(rest) => Ok(fragments@.map_values(|f: TrackFragment| f.view_spec()) + rest),
            },
        ensures
            moof_walk(moof_body@, 0, moof_offset, moof_offset, tracks@) == Ok::<
                Seq<TrackFragmentSpec>,
                Mp4Error,
            >(fragments@.map_values(|f: TrackFragment| f.view_spec())),
        decreases moof_body@.len() - it.offset(),
    {
        let ghost before = fragments@.map_values(|f: TrackFragment| f.view_spec());
        let item = it.next();
        match item {
            None => {
                assert(before + Seq::<TrackFragmentSpec>::empty() =~= before);
                break;
            },
            Some(Err(e)) => return Err(e),
            Some(Ok((header, body))) => {
                let ghost mut first_seq: Seq<TrackFragmentSpec> = Seq::empty();
                if header.box_type == TRAF {
                    let tf = parse_traf(body, header.body_offset(), moof_offset, tracks)?;
                    if let Some(tf) = tf {
                        fragments.push(tf);
                        proof {
                            first_seq = seq![tf.view_spec()];
                        }
                    }
                }
                proof {
                    let after = fragments@.map_values(|f: TrackFragment| f.view_spec());
                    assert(after =~= before + first_seq);
                    match moof_walk(
                        moof_body@,
                        it.offset(),
                        it.stream_offset(),
                        moof_offset,
                        tracks@,
                    ) {
                        Err(e) => {},
                        Ok(rest) => {
                            assert(before + (first_seq + rest) =~= after + rest);
                        },
                    }
                }
            },
        }
    }
    Ok(fragments)
}

/// `a + b`, or `u64::MAX` when that overflows.
pub open spec fn sat_add_u64(a: u64, b: u64) -> u64 {
    if a + b > u64::MAX {
        u64::MAX
    } else {
        (a + b) as u64
    }
}

/// The presentation time of a sample: its decode time moved by the
/// composition offset, kept within `0..=u64::MAX`.
pub open spec fn sample_pts(dts: u64, offset: i64) -> u64 {
    if dts + offset < 0 {
        0
    } else if dts + offset > u64::MAX {
        u64::MAX
    } else {
        (dts + offset) as u64
    }
}

/// The packet a sample makes, given its payload, decode time and sequence number.
pub open spec fn sample_packet(
    s: FragmentSample,
    payload: Seq<u8>,
    dts: u64,
    seq: u64,
    track: TrackData,
    epoch: u64,
) -> PacketView {
    PacketView {
        payload,
        track_id: track.track_id,
        stream_epoch: epoch,
        sequence: seq,
        time: MediaTime {
            pts: Some(sample_pts(dts, s.composition_offset) as i64),
            dts: Some(dts as i64),
            duration: Some(s.duration as i64),
            timebase: TimeBase { num: 1, den: track.timescale },
        },
        flags: PacketFlags {
            is_keyframe: !((s.flags / 0x10000) % 2 == 1),
            is_corrupt: false,
            is_discontinuity: false,
        },
    }
}

/// The packets of samples `i..` taken out of `mdat` (which starts at stream
/// offset `off`), with decode times from `dts` and sequence numbers from
/// `seq`; and the next sequence number. A sample that starts before `mdat`
/// or ends after it is an error.
pub open spec fn emit_spec(
    samples: Seq<FragmentSample>,
    i: int,
    mdat: Seq<u8>,
    off: u64,
    dts: u64,
    seq: u64,
    track: TrackData,
    epoch: u64,
) -> (Result<Seq<PacketView>, Mp4Error>, u64)
    decreases samples.len() - i,
{
    if i < 0 || i >= samples.len() {
        (Ok(Seq::empty()), seq)
    } else {
        let s = samples[i];
        if s.data_offset < off {
            (Err(Mp4Error::InvalidInput { code: 3301, context: Some("sample starts before mdat") }), seq)
        } else {
            let start = s.data_offset - off;
            let end = start + s.size;
            if end > mdat.len() {
                (
                    Err(
                        Mp4Error::InvalidInput {
                            code: 3301,
                            context: Some("sample extends beyond mdat"),
                        },
                    ),
                    seq,
                )
            } else {
                let p = sample_packet(s, mdat.subrange(start, end), dts, seq, track, epoch);
                let (rest, next) = emit_spec(
                    samples,
                    i + 1,
                    mdat,
                    off,
                    sat_add_u64(dts, s.duration),
                    (seq + 1) as u64,
                    track,
                    epoch,
                );
                (
                    match rest {
                        Ok(ps) => Ok(seq![p] + ps),
                        Err(e) => Err(e),
                    },
                    next,
                )
            }
        }
    }
}

/// `r` with `p` put in front of its packets.
pub open spec fn prepend_packets(
    p: Seq<PacketView>,
    r: Result<Seq<PacketView>, Mp4Error>,
) -> Result<Seq<PacketView>, Mp4Error> {
    match r {
        Ok(x) => Ok(p + x),
        Err(e) => Err(e),
    }
}

/// The views of packets.
pub open spec fn packets_view(v: Seq<MediaPacket>) -> Seq<PacketView> {
    v.map_values(|p: MediaPacket| p@)
}

/// Turn the samples of a fragment into packets cut out of `mdat`, whose first
/// byte is at stream offset `mdat_data_offset`. Each packet takes the next
/// sequence number.
pub fn emit_packets(
    tf: &TrackFragment,
    mdat: &[u8],
    mdat_data_offset: u64,
    track: &TrackData,
    sequence: &mut u64,
    epoch: u64,
) -> (r: Result<Vec<MediaPacket>, Mp4Error>)
    requires
        *old(sequence) + tf.samples@.len() <= u64::MAX,
    ensures
        ({
            let (res, next) = emit_spec(
                tf.samples@,
                0,
                mdat@,
                mdat_data_offset,
                tf.base_decode_time,
                *old(sequence),
                *track,
                epoch,
            );
            &&& *final(sequence) == next
            &&& match res {
                Ok(ps) => r matches Ok(v) && packets_view(v@) == ps,
                Err(e) => r == Err::<Vec<MediaPacket>, Mp4Error>(e),
            }
        }),
{
    let mut out: Vec<MediaPacket> = Vec::new();
    let mut dts = tf.base_decode_time;
    let ghost seq0 = *sequence;
    let ghost all = emit_spec(
        tf.samples@,
        0,
        mdat@,
        mdat_data_offset,
        tf.base_decode_time,
        seq0,
        *track,
        epoch,
    );
    let mut i: usize = 0;
    assert(packets_view(out@) =~= Seq::<PacketView>::empty());
    proof {
        match emit_spec(tf.samples@, 0, mdat@, mdat_data_offset, dts, seq0, *track, epoch).0 {
            Ok(x) => {
                assert(Seq::<PacketView>::empty() + x =~= x);
            },
            Err(e) => {},
        }
    }
    while i < tf.samples.len()
        invariant
            i <= tf.samples@.len(),
            seq0 == *old(sequence),
            all == emit_spec(
                tf.samples@,
                0,
                mdat@,
                mdat_data_offset,
                tf.base_decode_time,
                seq0,
                *track,
                epoch,
            ),
            *sequence == seq0 + i,
            seq0 + tf.samples@.len() <= u64::MAX,
            all.1 == emit_spec(tf.samples@, i as int, mdat@, mdat_data_offset, dts, *sequence, *track, epoch).1,
            all.0 == prepend_packets(
                packets_view(out@),
                emit_spec(tf.samples@, i as int, mdat@, mdat_data_offset, dts, *sequence, *track, epoch).0,
            ),
        decreases tf.samples@.len() - i,
    {
        let s = tf.samples[i];
        if s.data_offset < mdat_data_offset {
            return Err(Mp4Error::invalid_input(3301, Some("sample starts before mdat")));
        }
        let rel = s.data_offset - mdat_data_offset;
        if rel > mdat.len() as u64 || s.size > mdat.len() as u64 - rel {
            return Err(Mp4Error::invalid_input(3301, Some("sample extends beyond mdat")));
        }
        let start = rel as usize;
        let end = start + s.size as usize;
        let payload = copy_range(mdat, start, end);
        let pts: u64 = if s.composition_offset < 0 {
            let back = (0i64 - (s.composition_offset + 1)) as u64 + 1;
            if back > dts {
                0
            } else {
                dts - back
            }
        } else {
            dts.saturating_add(s.composition_offset as u64)
        };
        let packet = MediaPacket {
            payload,
            track_id: track.track_id,
            stream_epoch: epoch,
            sequence: *sequence,
            time: MediaTime::from_ticks(
                Some(#[verifier::truncate] (pts as i64)),
                Some(#[verifier::truncate] (dts as i64)),
                Some(#[verifier::truncate] (s.duration as i64)),
                TimeBase { num: 1, den: track.timescale },
            ),
            flags: PacketFlags {
                is_keyframe: !is_non_sync_sample(s.flags),
                is_corrupt: false,
                is_discontinuity: false,
            },
        };
        let ghost before = packets_view(out@);
        let ghost pv = packet@;
        assert(pv == sample_packet(s, mdat@.subrange(start as int, end as int), dts, *sequence, *track, epoch));
        out.push(packet);
        assert(packets_view(out@) =~= before.push(pv));
        proof {
            match emit_spec(tf.samples@, i + 1, mdat@, mdat_data_offset, sat_add_u64(dts, s.duration), (*sequence + 1) as u64, *track, epoch).0 {
                Ok(x) => {
                    assert(before + (seq![pv] + x) =~= before.push(pv) + x);
                },
                Err(e) => {},
            }
        }
        *sequence = *sequence + 1;
        dts = dts.saturating_add(s.duration);
        i += 1;
    }
    proof {
        assert(packets_view(out@) + Seq::<PacketView>::empty() =~= packets_view(out@));
    }
    Ok(out)
}

} // verus!
