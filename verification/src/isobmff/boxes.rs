//! Low-level ISOBMFF box reading helpers.

use vstd::prelude::*;

use crate::bytes::{
    be16, be24, be32, be64, bytes16, bytes24, bytes32, bytes64, lemma_be24_bytes24, lemma_be32_bytes32,
    lemma_be64_bytes64,
};
use crate::isobmff::error::Mp4Error;

verus! {

/// Maximum nesting depth for boxes.
pub const MAX_BOX_DEPTH: usize = 16;

/// Maximum box size in bytes (2^40).
pub const MAX_BOX_SIZE: u64 = 0x100_0000_0000;

/// Maximum number of entries in tables.
pub const MAX_TABLE_ENTRIES: usize = 1_000_000;

/// A parsed ISO base media file format box header.
#[derive(Debug, Clone, Copy, PartialEq, Eq)]
pub struct BoxHeader {
    /// Absolute byte offset of the first byte of the box in the stream.
    pub start_offset: u64,
    /// Total size of the box, including the header.
    pub size: u64,
    /// Four-character box type as a big-endian `u32`.
    pub box_type: u32,
    /// Number of bytes occupied by the header (8 or 16).
    pub header_size: u8,
}

/// What parsing a box header from `data` at stream offset `start_offset` gives.
pub open spec fn box_header_spec(data: Seq<u8>, start_offset: u64) -> Result<BoxHeader, Mp4Error> {
    if data.len() < 8 {
        Err(Mp4Error::NeedMoreData)
    } else {
        let size32 = be32(data, 0);
        let box_type = be32(data, 4) as u32;
        if size32 == 1 {
            if data.len() < 16 {
                Err(Mp4Error::NeedMoreData)
            } else {
                let size = be64(data, 8);
                if size == 0 {
                    Err(
                        Mp4Error::InvalidInput {
                            code: 3001,
                            context: Some("invalid extended box size 0"),
                        },
                    )
                } else if size > MAX_BOX_SIZE {
                    Err(Mp4Error::LimitExceeded { limit: "box size" })
                } else if size < 16 {
                    Err(
                        Mp4Error::InvalidInput {
                            code: 3003,
                            context: Some("box size smaller than header"),
                        },
                    )
                } else {
                    Ok(BoxHeader { start_offset, size: size as u64, box_type, header_size: 16 })
                }
            }
        } else if size32 == 0 {
            Err(
                Mp4Error::Unsupported {
                    code: 3002,
                    context: Some("open-ended box size not supported"),
                },
            )
        } else if size32 < 8 {
            Err(Mp4Error::InvalidInput { code: 3003, context: Some("box size smaller than header") })
        } else {
            Ok(BoxHeader { start_offset, size: size32 as u64, box_type, header_size: 8 })
        }
    }
}

/// A well-formed header: its size covers its own header and stays within the limit.
pub open spec fn header_wf(h: BoxHeader) -> bool {
    &&& h.header_size == 8 || h.header_size == 16
    &&& h.header_size <= h.size <= MAX_BOX_SIZE
}

/// Reads the 4 bytes at `i` as a big-endian `u32`.
fn get_u32(data: &[u8], i: usize) -> (v: u32)
    requires
        i + 4 <= data.len(),
    ensures
        v == be32(data@, i as int),
{
    (data[i] as u32) * 0x1000000 + (data[i + 1] as u32) * 0x10000 + (data[i + 2] as u32) * 0x100
        + (data[i + 3] as u32)
}

/// Reads the 8 bytes at `i` as a big-endian `u64`.
pub(crate) fn get_u64(data: &[u8], i: usize) -> (v: u64)
    requires
        i + 8 <= data.len(),
    ensures
        v == be64(data@, i as int),
{
    let hi = get_u32(data, i);
    let lo = get_u32(data, i + 4);
    (hi as u64) * 0x1_0000_0000 + (lo as u64)
}

impl BoxHeader {
    /// Parse a box header from `data` starting at stream offset `start_offset`.
    ///
    /// Returns `Err(Mp4Error::NeedMoreData)` if `data` is too short for the header.
    /// Returns `Err(Mp4Error::InvalidInput)` for zero-sized, oversized, or malformed headers.
    pub fn parse(data: &[u8], start_offset: u64) -> (r: Result<Self, Mp4Error>)
        ensures
            r == box_header_spec(data@, start_offset),
            r matches Ok(h) ==> header_wf(h),
    {
        if data.len() < 8 {
            return Err(Mp4Error::NeedMoreData);
        }
        let size32 = get_u32(data, 0);
        let box_type = get_u32(data, 4);
        if size32 == 1 {
            if data.len() < 16 {
                return Err(Mp4Error::NeedMoreData);
            }
            let size = get_u64(data, 8);
            if size == 0 {
                return Err(Mp4Error::invalid_input(3001, Some("invalid extended box size 0")));
            }
            if size > MAX_BOX_SIZE {
                return Err(Mp4Error::LimitExceeded { limit: "box size" });
            }
            if size < 16 {
                return Err(Mp4Error::invalid_input(3003, Some("box size smaller than header")));
            }
            Ok(BoxHeader { start_offset, size, box_type, header_size: 16 })
        } else if size32 == 0 {
            Err(Mp4Error::unsupported(3002, Some("open-ended box size not supported")))
        } else if size32 < 8 {
            Err(Mp4Error::invalid_input(3003, Some("box size smaller than header")))
        } else {
            Ok(BoxHeader { start_offset, size: size32 as u64, box_type, header_size: 8 })
        }
    }

    /// Byte offset of the box body (after the header).
    pub fn body_offset(&self) -> (r: u64)
        requires
            self.start_offset + self.header_size <= u64::MAX,
        ensures
            r == self.start_offset + self.header_size,
    {
        self.start_offset + self.header_size as u64
    }

    /// Body length in bytes.
    pub fn body_len(&self) -> (r: u64)
        requires
            self.header_size <= self.size,
        ensures
            r == self.size - self.header_size,
    {
        self.size - self.header_size as u64
    }
}


/// Simple byte reader for big-endian multi-byte fields.
#[derive(Debug, Clone, Copy)]
pub struct Mp4Cursor<'a> {
    buf: &'a [u8],
    pos: usize,
}

impl<'a> Mp4Cursor<'a> {
    #[verifier::type_invariant]
    spec fn inv(self) -> bool {
        self.pos <= self.buf@.len()
    }

    /// The bytes the cursor reads from.
    pub closed spec fn data(self) -> Seq<u8> {
        self.buf@
    }

    /// The position of the next byte to read.
    pub closed spec fn at(self) -> int {
        self.pos as int
    }

    /// Number of bytes left to read.
    pub open spec fn left(self) -> int {
        self.data().len() - self.at()
    }

    pub fn new(buf: &'a [u8]) -> (c: Self)
        ensures
            c.data() == buf@,
            c.at() == 0,
    {
        Mp4Cursor { buf, pos: 0 }
    }

    pub fn remaining(&self) -> (r: usize)
        ensures
            r == self.left(),
    {
        proof {
            use_type_invariant(self);
        }
        self.buf.len() - self.pos
    }

    pub fn is_empty(&self) -> (b: bool)
        ensures
            b == (self.left() == 0),
    {
        self.remaining() == 0
    }

    fn need(&self, n: usize) -> (r: Result<(), Mp4Error>)
        ensures
            r is Ok <==> n <= self.left(),
            r is Err ==> r == Err::<(), Mp4Error>(Mp4Error::NeedMoreData),
    {
        if self.remaining() < n {
            Err(Mp4Error::NeedMoreData)
        } else {
            Ok(())
        }
    }

    pub fn read_u8(&mut self) -> (r: Result<u8, Mp4Error>)
        ensures
            final(self).data() == old(self).data(),
            match r {
                Ok(v) => old(self).left() >= 1 && v == old(self).data()[old(self).at()]
                    && final(self).at() == old(self).at() + 1,
                Err(e) => old(self).left() < 1 && e == Mp4Error::NeedMoreData && final(self).at()
                    == old(self).at(),
            },
    {
        proof {
            use_type_invariant(&*self);
        }
        self.need(1)?;
        let b = self.buf[self.pos];
        self.pos = self.pos + 1;
        Ok(b)
    }

    pub fn read_u16(&mut self) -> (r: Result<u16, Mp4Error>)
        ensures
            final(self).data() == old(self).data(),
            match r {
                Ok(v) => old(self).left() >= 2 && v == be16(old(self).data(), old(self).at())
                    && final(self).at() == old(self).at() + 2,
                Err(e) => old(self).left() < 2 && e == Mp4Error::NeedMoreData && final(self).at()
                    == old(self).at(),
            },
    {
        proof {
            use_type_invariant(&*self);
        }
        self.need(2)?;
        let v = (self.buf[self.pos] as u16) * 0x100 + (self.buf[self.pos + 1] as u16);
        self.pos = self.pos + 2;
        Ok(v)
    }

    pub fn read_u24(&mut self) -> (r: Result<u32, Mp4Error>)
        ensures
            final(self).data() == old(self).data(),
            match r {
                Ok(v) => old(self).left() >= 3 && v == be24(old(self).data(), old(self).at())
                    && final(self).at() == old(self).at() + 3,
                Err(e) => old(self).left() < 3 && e == Mp4Error::NeedMoreData && final(self).at()
                    == old(self).at(),
            },
    {
        proof {
            use_type_invariant(&*self);
        }
        self.need(3)?;
        let v = (self.buf[self.pos] as u32) * 0x10000 + (self.buf[self.pos + 1] as u32) * 0x100
            + (self.buf[self.pos + 2] as u32);
        self.pos = self.pos + 3;
        Ok(v)
    }

    pub fn read_u32(&mut self) -> (r: Result<u32, Mp4Error>)
        ensures
            final(self).data() == old(self).data(),
            match r {
                Ok(v) => old(self).left() >= 4 && v == be32(old(self).data(), old(self).at())
                    && final(self).at() == old(self).at() + 4,
                Err(e) => old(self).left() < 4 && e == Mp4Error::NeedMoreData && final(self).at()
                    == old(self).at(),
            },
    {
        proof {
            use_type_invariant(&*self);
        }
        self.need(4)?;
        let v = get_u32(self.buf, self.pos);
        let _len = self.buf.len();
        self.pos = self.pos + 4;
        Ok(v)
    }

    pub fn read_u64(&mut self) -> (r: Result<u64, Mp4Error>)
        ensures
            final(self).data() == old(self).data(),
            match r {
                Ok(v) => old(self).left() >= 8 && v == be64(old(self).data(), old(self).at())
                    && final(self).at() == old(self).at() + 8,
                Err(e) => old(self).left() < 8 && e == Mp4Error::NeedMoreData && final(self).at()
                    == old(self).at(),
            },
    {
        proof {
            use_type_invariant(&*self);
        }
        self.need(8)?;
        let v = get_u64(self.buf, self.pos);
        let _len = self.buf.len();
        self.pos = self.pos + 8;
        Ok(v)
    }

    pub fn read_i32(&mut self) -> (r: Result<i32, Mp4Error>)
        ensures
            final(self).data() == old(self).data(),
            match r {
                Ok(v) => old(self).left() >= 4 && v == signed32(be32(old(self).data(), old(self).at()))
                    && final(self).at() == old(self).at() + 4,
                Err(e) => old(self).left() < 4 && e == Mp4Error::NeedMoreData && final(self).at()
                    == old(self).at(),
            },
    {
        let u = self.read_u32()?;
        Ok(to_i32(u))
    }

    pub fn read_i64(&mut self) -> (r: Result<i64, Mp4Error>)
        ensures
            final(self).data() == old(self).data(),
            match r {
                Ok(v) => old(self).left() >= 8 && v == signed64(be64(old(self).data(), old(self).at()))
                    && final(self).at() == old(self).at() + 8,
                Err(e) => old(self).left() < 8 && e == Mp4Error::NeedMoreData && final(self).at()
                    == old(self).at(),
            },
    {
        let u = self.read_u64()?;
        Ok(to_i64(u))
    }

    pub fn read_bytes(&mut self, n: usize) -> (r: Result<&'a [u8], Mp4Error>)
        ensures
            final(self).data() == old(self).data(),
            match r {
                Ok(b) => old(self).left() >= n && b@ == old(self).data().subrange(
                    old(self).at(),
                    old(self).at() + n,
                ) && final(self).at() == old(self).at() + n,
                Err(e) => old(self).left() < n && e == Mp4Error::NeedMoreData && final(self).at()
                    == old(self).at(),
            },
    {
        proof {
            use_type_invariant(&*self);
        }
        self.need(n)?;
        let start = self.pos;
        let _len = self.buf.len();
        self.pos = self.pos + n;
        Ok(slice_range(self.buf, start, self.pos))
    }

    pub fn skip(&mut self, n: usize) -> (r: Result<(), Mp4Error>)
        ensures
            final(self).data() == old(self).data(),
            match r {
                Ok(_) => old(self).left() >= n && final(self).at() == old(self).at() + n,
                Err(e) => old(self).left() < n && e == Mp4Error::NeedMoreData && final(self).at()
                    == old(self).at(),
            },
    {
        proof {
            use_type_invariant(&*self);
        }
        self.need(n)?;
        let _len = self.buf.len();
        self.pos = self.pos + n;
        Ok(())
    }

    pub fn pos(&self) -> (p: usize)
        ensures
            p == self.at(),
    {
        self.pos
    }

    pub fn rest(&self) -> (r: &'a [u8])
        ensures
            r@ == self.data().subrange(self.at(), self.data().len() as int),
    {
        proof {
            use_type_invariant(self);
        }
        slice_range(self.buf, self.pos, self.buf.len())
    }
}

/// The two's complement reading of a 32-bit pattern.
pub open spec fn signed32(u: int) -> int {
    if u >= 0x8000_0000 {
        u - 0x1_0000_0000
    } else {
        u
    }
}

/// The two's complement reading of a 64-bit pattern.
pub open spec fn signed64(u: int) -> int {
    if u >= 0x8000_0000_0000_0000 {
        u - 0x1_0000_0000_0000_0000
    } else {
        u
    }
}

/// Reinterprets a 32-bit pattern as two's complement.
pub fn to_i32(u: u32) -> (v: i32)
    ensures
        v == signed32(u as int),
{
    if u >= 0x8000_0000 {
        let low = (u - 0x8000_0000) as i32;
        low - 0x7fff_ffff - 1
    } else {
        u as i32
    }
}

/// Reinterprets a 64-bit pattern as two's complement.
pub fn to_i64(u: u64) -> (v: i64)
    ensures
        v == signed64(u as int),
{
    if u >= 0x8000_0000_0000_0000 {
        let low = (u - 0x8000_0000_0000_0000) as i64;
        low - 0x7fff_ffff_ffff_ffff - 1
    } else {
        u as i64
    }
}

/// The sub-slice `data[start..end]`.
pub fn slice_range(data: &[u8], start: usize, end: usize) -> (r: &[u8])
    requires
        start <= end <= data@.len(),
    ensures
        r@ == data@.subrange(start as int, end as int),
{
    &data[start..end]
}


/// Appends `s` to `out`.
pub fn append(out: &mut Vec<u8>, s: &[u8])
    ensures
        final(out)@ == old(out)@ + s@,
{
    out.extend_from_slice(s);
    assert(final(out)@ =~= old(out)@ + s@);
}

/// A fresh vector holding `data[start..end]`.
pub fn copy_range(data: &[u8], start: usize, end: usize) -> (r: Vec<u8>)
    requires
        start <= end <= data@.len(),
    ensures
        r@ == data@.subrange(start as int, end as int),
{
    let mut out = Vec::new();
    append(&mut out, slice_range(data, start, end));
    assert(out@ =~= data@.subrange(start as int, end as int));
    out
}

/// Convert a four-character code to a `u32` in big-endian order.
pub fn u32_from_fourcc(fourcc: &[u8; 4]) -> (v: u32)
    ensures
        v == be32(fourcc@, 0),
{
    (fourcc[0] as u32) * 0x1000000 + (fourcc[1] as u32) * 0x10000 + (fourcc[2] as u32) * 0x100
        + (fourcc[3] as u32)
}

/// Convert a `u32` fourcc to a 4-byte array.
pub fn fourcc_from_u32(v: u32) -> (r: [u8; 4])
    ensures
        r@ == bytes32(v as int),
{
    let r = [
        ((v / 0x1000000) % 0x100) as u8,
        ((v / 0x10000) % 0x100) as u8,
        ((v / 0x100) % 0x100) as u8,
        (v % 0x100) as u8,
    ];
    assert(r@ =~= bytes32(v as int));
    r
}

/// A fourcc read back from its bytes is the same fourcc, and the bytes of a
/// fourcc code are the bytes it was made from.
pub proof fn lemma_fourcc_round_trip(v: u32, b: Seq<u8>)
    requires
        b.len() == 4,
    ensures
        be32(bytes32(v as int), 0) == v,
        bytes32(be32(b, 0)) == b,
{
    lemma_be32_bytes32(v as int);
    let x = be32(b, 0);
    assert(0 <= x < 0x1_0000_0000) by (nonlinear_arith)
        requires
            x == b[0] as int * 0x1000000 + b[1] as int * 0x10000 + b[2] as int * 0x100
                + b[3] as int,
            0 <= b[0] < 256,
            0 <= b[1] < 256,
            0 <= b[2] < 256,
            0 <= b[3] < 256,
    ;
    assert((x / 0x1000000) % 0x100 == b[0] as int && (x / 0x10000) % 0x100 == b[1] as int
        && (x / 0x100) % 0x100 == b[2] as int && x % 0x100 == b[3] as int) by (nonlinear_arith)
        requires
            x == b[0] as int * 0x1000000 + b[1] as int * 0x10000 + b[2] as int * 0x100
                + b[3] as int,
            0 <= b[0] < 256,
            0 <= b[1] < 256,
            0 <= b[2] < 256,
            0 <= b[3] < 256,
    ;
    assert(bytes32(x) =~= b);
}

/// The item the child-box iterator yields at byte `offset` of `data`, the
/// first byte of `data` lying at stream offset `cur`.
pub open spec fn next_box_spec(data: Seq<u8>, offset: int, cur: u64) -> Option<
    Result<(BoxHeader, Seq<u8>), Mp4Error>,
> {
    if offset >= data.len() {
        None
    } else {
        match box_header_spec(data.subrange(offset, data.len() as int), cur) {
            Err(e) => Some(Err(e)),
            Ok(h) => if h.size > data.len() - offset {
                Some(Err(Mp4Error::NeedMoreData))
            } else {
                Some(
                    Ok(
                        (
                            h,
                            data.subrange(offset + h.header_size, offset + h.size),
                        ),
                    ),
                )
            },
        }
    }
}

/// All child boxes of `data` from byte `offset` on, or the first error met.
pub open spec fn boxes_from(data: Seq<u8>, offset: int, cur: u64) -> Result<
    Seq<(BoxHeader, Seq<u8>)>,
    Mp4Error,
>
    decreases data.len() - offset,
{
    match next_box_spec(data, offset, cur) {
        None => Ok(Seq::empty()),
        Some(Err(e)) => Err(e),
        Some(Ok((h, body))) => if h.size == 0 || offset >= data.len() {
            Err(Mp4Error::NeedMoreData)
        } else {
            match boxes_from(data, offset + h.size, (cur + h.size) as u64) {
                Err(e) => Err(e),
                Ok(rest) => Ok(seq![(h, body)] + rest),
            }
        },
    }
}

/// The sum of the box sizes of `bs`.
pub open spec fn sizes_sum(bs: Seq<(BoxHeader, Seq<u8>)>) -> int
    decreases bs.len(),
{
    if bs.len() == 0 {
        0
    } else {
        bs[0].0.size + sizes_sum(bs.drop_first())
    }
}

/// A walk over child boxes that meets no error covers its input exactly:
/// the first box starts at the walk's stream offset, each box starts where
/// the one before ends, each body is the bytes after its header up to the
/// box's end, and the sizes add up to the bytes walked.
pub proof fn lemma_box_walk(data: Seq<u8>, offset: int, cur: u64, bs: Seq<(BoxHeader, Seq<u8>)>)
    requires
        0 <= offset <= data.len(),
        cur + (data.len() - offset) <= u64::MAX,
        boxes_from(data, offset, cur) == Ok::<Seq<(BoxHeader, Seq<u8>)>, Mp4Error>(bs),
    ensures
        sizes_sum(bs) == data.len() - offset,
        bs.len() > 0 ==> bs[0].0.start_offset == cur,
        forall|i: int|
            0 <= i < bs.len() - 1 ==> #[trigger] bs[i + 1].0.start_offset == bs[i].0.start_offset
                + bs[i].0.size,
        forall|i: int|
            0 <= i < bs.len() ==> cur <= (#[trigger] bs[i]).0.start_offset && bs[i].1 == data.subrange(
                offset + (bs[i].0.start_offset - cur) + bs[i].0.header_size,
                offset + (bs[i].0.start_offset - cur) + bs[i].0.size,
            ),
    decreases data.len() - offset,
{
    if offset < data.len() {
        let sub = data.subrange(offset, data.len() as int);
        match next_box_spec(data, offset, cur) {
            Some(Ok((h, body))) => {
                assert(box_header_spec(sub, cur) == Ok::<BoxHeader, Mp4Error>(h));
                assert(h.start_offset == cur);
                assert(h.header_size <= h.size);
                let nxt = (cur + h.size) as u64;
                assert(nxt == cur + h.size);
                let rest = boxes_from(data, offset + h.size, nxt)->Ok_0;
                lemma_box_walk(data, offset + h.size, nxt, rest);
                assert(bs == seq![(h, body)] + rest);
                assert(bs.drop_first() =~= rest);
                assert forall|i: int| 0 <= i < bs.len() - 1 implies #[trigger] bs[i + 1].0.start_offset
                    == bs[i].0.start_offset + bs[i].0.size by {
                    if i > 0 {
                        assert(bs[i] == rest[i - 1]);
                        assert(bs[i + 1] == rest[i]);
                    }
                }
                assert forall|i: int| 0 <= i < bs.len() implies cur <= (#[trigger] bs[i]).0.start_offset
                    && bs[i].1 == data.subrange(
                    offset + (bs[i].0.start_offset - cur) + bs[i].0.header_size,
                    offset + (bs[i].0.start_offset - cur) + bs[i].0.size,
                ) by {
                    if i > 0 {
                        assert(bs[i] == rest[i - 1]);
                    }
                }
            },
            _ => {},
        }
    }
}

/// The abstract value of a yielded item.
pub open spec fn item_view(item: Option<Result<(BoxHeader, &[u8]), Mp4Error>>) -> Option<
    Result<(BoxHeader, Seq<u8>), Mp4Error>,
> {
    match item {
        None => None,
        Some(Err(e)) => Some(Err(e)),
        Some(Ok((h, b))) => Some(Ok((h, b@))),
    }
}

/// Iterator over the child boxes inside a parent box body.
pub struct BoxIter<'a> {
    data: &'a [u8],
    offset: usize,
    current_offset: u64,
}

impl<'a> BoxIter<'a> {
    #[verifier::type_invariant]
    spec fn inv(self) -> bool {
        &&& self.offset <= self.data@.len()
        &&& self.current_offset + (self.data@.len() - self.offset) <= u64::MAX
    }

    /// The parent body being walked.
    pub closed spec fn data(self) -> Seq<u8> {
        self.data@
    }

    /// Byte position of the next child within the parent body.
    pub closed spec fn offset(self) -> int {
        self.offset as int
    }

    /// Stream offset of the next child.
    pub closed spec fn stream_offset(self) -> u64 {
        self.current_offset
    }

    /// Yields the next child box header and body, or the error that stops the walk.
    pub fn next(&mut self) -> (r: Option<Result<(BoxHeader, &'a [u8]), Mp4Error>>)
        ensures
            final(self).data() == old(self).data(),
            item_view(r) == next_box_spec(old(self).data(), old(self).offset(), old(self).stream_offset()),
            match r {
                Some(Ok((h, _))) => {
                    &&& final(self).offset() == old(self).offset() + h.size
                    &&& final(self).stream_offset() == old(self).stream_offset() + h.size
                    &&& h.size > 0
                    &&& header_wf(h)
                    &&& h.start_offset == old(self).stream_offset()
                    &&& h.start_offset + h.size <= u64::MAX
                },
                _ => final(self).offset() == old(self).offset() && final(self).stream_offset()
                    == old(self).stream_offset(),
            },
    {
        proof {
            use_type_invariant(&*self);
        }
        let len = self.data.len();
        if self.offset >= len {
            return None;
        }
        let rest = slice_range(self.data, self.offset, len);
        let header = match BoxHeader::parse(rest, self.current_offset) {
            Ok(h) => h,
            Err(e) => return Some(Err(e)),
        };
        if header.size > (len - self.offset) as u64 {
            return Some(Err(Mp4Error::NeedMoreData));
        }
        let box_start = self.offset + header.header_size as usize;
        let box_end = self.offset + header.size as usize;
        let body = slice_range(self.data, box_start, box_end);
        self.offset = box_end;
        self.current_offset = self.current_offset + header.size;
        Some(Ok((header, body)))
    }
}

/// Iterate over child boxes inside `parent_data`.
pub fn iter_boxes<'a>(parent_data: &'a [u8], parent_offset: u64, max_depth: usize) -> (r: Result<
    BoxIter<'a>,
    Mp4Error,
>)
    requires
        parent_offset + parent_data@.len() <= u64::MAX,
    ensures
        match r {
            Ok(it) => max_depth != 0 && it.data() == parent_data@ && it.offset() == 0
                && it.stream_offset() == parent_offset,
            Err(e) => max_depth == 0 && e == Mp4Error::LimitExceeded { limit: "box depth" },
        },
{
    if max_depth == 0 {
        return Err(Mp4Error::LimitExceeded { limit: "box depth" });
    }
    Ok(BoxIter { data: parent_data, offset: 0, current_offset: parent_offset })
}


/// Read a full box version/flags header.
pub fn read_fullbox_header(data: &[u8]) -> (r: Result<(u8, u32, &[u8]), Mp4Error>)
    ensures
        match r {
            Ok((version, flags, body)) => data@.len() >= 4 && version == data@[0] && flags
                == be24(data@, 1) && body@ == data@.subrange(4, data@.len() as int),
            Err(e) => data@.len() < 4 && e == Mp4Error::NeedMoreData,
        },
{
    if data.len() < 4 {
        return Err(Mp4Error::NeedMoreData);
    }
    let version = data[0];
    let flags = (data[1] as u32) * 0x10000 + (data[2] as u32) * 0x100 + (data[3] as u32);
    Ok((version, flags, slice_range(data, 4, data.len())))
}

/// Build a 4-byte version/flags fullbox header.
pub fn write_fullbox(version: u8, flags: u32) -> (r: [u8; 4])
    ensures
        r@ == seq![version] + bytes24(flags as int),
{
    let r = [version, ((flags / 0x10000) % 0x100) as u8, ((flags / 0x100) % 0x100) as u8, (flags
        % 0x100) as u8];
    assert(r@ =~= seq![version] + bytes24(flags as int));
    r
}

/// Append a big-endian `u32` value to a `Vec<u8>`.
pub fn write_u32(v: &mut Vec<u8>, value: u32)
    ensures
        final(v)@ == old(v)@ + bytes32(value as int),
{
    v.push(((value / 0x1000000) % 0x100) as u8);
    v.push(((value / 0x10000) % 0x100) as u8);
    v.push(((value / 0x100) % 0x100) as u8);
    v.push((value % 0x100) as u8);
    assert(final(v)@ =~= old(v)@ + bytes32(value as int));
}

/// Append a big-endian `u64` value to a `Vec<u8>`.
pub fn write_u64(v: &mut Vec<u8>, value: u64)
    ensures
        final(v)@ == old(v)@ + bytes64(value as int),
{
    write_u32(v, (value / 0x1_0000_0000) as u32);
    write_u32(v, (value % 0x1_0000_0000) as u32);
    assert(final(v)@ =~= old(v)@ + bytes64(value as int));
}

/// Append a big-endian `u24` value to a `Vec<u8>`.
pub fn write_u24(v: &mut Vec<u8>, value: u32)
    ensures
        final(v)@ == old(v)@ + bytes24(value as int),
{
    v.push(((value / 0x10000) % 0x100) as u8);
    v.push(((value / 0x100) % 0x100) as u8);
    v.push((value % 0x100) as u8);
    assert(final(v)@ =~= old(v)@ + bytes24(value as int));
}

/// Append a big-endian `u16` value to a `Vec<u8>`.
pub fn write_u16(v: &mut Vec<u8>, value: u16)
    ensures
        final(v)@ == old(v)@ + bytes16(value as int),
{
    v.push(((value / 0x100) % 0x100) as u8);
    v.push((value % 0x100) as u8);
    assert(final(v)@ =~= old(v)@ + bytes16(value as int));
}

/// The bytes of a box with a 32-bit size field.
pub open spec fn box32_bytes(box_type: u32, body: Seq<u8>) -> Seq<u8> {
    bytes32(body.len() + 8int) + bytes32(box_type as int) + body
}

/// The bytes of a box with a 64-bit size field.
pub open spec fn box64_bytes(box_type: u32, body: Seq<u8>) -> Seq<u8> {
    bytes32(1) + bytes32(box_type as int) + bytes64(body.len() + 16int) + body
}

/// The bytes `write_box` produces: a 32-bit sized box when the size fits, else a 64-bit one.
pub open spec fn box_bytes(box_type: u32, body: Seq<u8>) -> Seq<u8> {
    if body.len() + 8 <= u32::MAX {
        box32_bytes(box_type, body)
    } else {
        box64_bytes(box_type, body)
    }
}

/// Build an ISOBMFF box from `box_type` and body bytes, prepending size/type.
/// Falls back to a 64-bit sized box if the body is too large for a 32-bit size.
pub fn write_box(box_type: u32, body: &[u8]) -> (r: Vec<u8>)
    requires
        body@.len() + 16 <= usize::MAX,
    ensures
        r@ == box_bytes(box_type, body@),
{
    let n = body.len();
    if n <= 0xffff_fff7 {
        let size = (n + 8) as u32;
        let mut out = Vec::with_capacity(n + 8);
        write_u32(&mut out, size);
        write_u32(&mut out, box_type);
        append(&mut out, body);
        assert(out@ =~= box32_bytes(box_type, body@));
        out
    } else {
        write_box64(box_type, body)
    }
}

/// Build an ISOBMFF box with 64-bit size.
pub fn write_box64(box_type: u32, body: &[u8]) -> (r: Vec<u8>)
    requires
        body@.len() + 16 <= usize::MAX,
    ensures
        r@ == box64_bytes(box_type, body@),
{
    let mut out = Vec::with_capacity(16 + body.len());
    write_u32(&mut out, 1);
    write_u32(&mut out, box_type);
    write_u64(&mut out, (16 + body.len()) as u64);
    append(&mut out, body);
    assert(out@ =~= box64_bytes(box_type, body@));
    out
}

/// Build a fullbox (version/flags + body) and wrap it in a typed box.
pub fn write_fullbox_box(box_type: u32, version: u8, flags: u32, body: &[u8]) -> (r: Vec<u8>)
    requires
        body@.len() + 20 <= usize::MAX,
    ensures
        r@ == box_bytes(box_type, seq![version] + bytes24(flags as int) + body@),
{
    let mut inner = Vec::with_capacity(4 + body.len());
    let fb = write_fullbox(version, flags);
    append(&mut inner, &fb);
    append(&mut inner, body);
    write_box(box_type, inner.as_slice())
}


/// A box written with a 32-bit size parses back to a header of that type whose
/// size is the body length plus 8, and the child walk yields exactly the body.
pub proof fn lemma_box32_round_trip(box_type: u32, body: Seq<u8>, offset: u64)
    requires
        body.len() + 8 <= u32::MAX,
    ensures
        box_header_spec(box32_bytes(box_type, body), offset) == Ok::<BoxHeader, Mp4Error>(
            BoxHeader {
                start_offset: offset,
                size: (body.len() + 8) as u64,
                box_type,
                header_size: 8,
            },
        ),
        next_box_spec(box32_bytes(box_type, body), 0, offset) == Some(
            Ok::<(BoxHeader, Seq<u8>), Mp4Error>(
                (
                    BoxHeader {
                        start_offset: offset,
                        size: (body.len() + 8) as u64,
                        box_type,
                        header_size: 8,
                    },
                    body,
                ),
            ),
        ),
{
    let b = box32_bytes(box_type, body);
    let n: int = body.len() + 8int;
    lemma_be32_bytes32(n);
    lemma_be32_bytes32(box_type as int);
    let s1 = bytes32(n);
    let s2 = bytes32(box_type as int);
    assert(b.subrange(0, 4) =~= s1);
    assert(b.subrange(4, 8) =~= s2);
    assert(be32(b, 0) == be32(s1, 0));
    assert(be32(b, 4) == be32(s2, 0));
    assert(b.subrange(0, b.len() as int) =~= b);
    assert(b.subrange(8, n) =~= body);
}

/// A box written with a 64-bit size parses back to a 16-byte header of that type
/// whose size is the body length plus 16, and the child walk yields the body.
pub proof fn lemma_box64_round_trip(box_type: u32, body: Seq<u8>, offset: u64)
    requires
        body.len() + 16 <= MAX_BOX_SIZE,
    ensures
        next_box_spec(box64_bytes(box_type, body), 0, offset) == Some(
            Ok::<(BoxHeader, Seq<u8>), Mp4Error>(
                (
                    BoxHeader {
                        start_offset: offset,
                        size: (body.len() + 16) as u64,
                        box_type,
                        header_size: 16,
                    },
                    body,
                ),
            ),
        ),
{
    let b = box64_bytes(box_type, body);
    let n: int = body.len() + 16int;
    lemma_be32_bytes32(1);
    lemma_be32_bytes32(box_type as int);
    lemma_be64_bytes64(n);
    let s1 = bytes32(1);
    let s2 = bytes32(box_type as int);
    let s3 = bytes64(n);
    assert(b.subrange(0, 4) =~= s1);
    assert(b.subrange(4, 8) =~= s2);
    assert(b.subrange(8, 16) =~= s3);
    assert(be32(b, 0) == be32(s1, 0));
    assert(be32(b, 4) == be32(s2, 0));
    assert(be32(b, 8) == be32(s3, 0));
    assert(be32(b, 12) == be32(s3, 4));
    assert(b.subrange(0, b.len() as int) =~= b);
    assert(b.subrange(16, n) =~= body);
}

/// A fullbox header written by `write_fullbox` reads back as the same version,
/// the flags' low 24 bits, and the bytes after it.
pub proof fn lemma_fullbox_round_trip(version: u8, flags: u32, body: Seq<u8>)
    requires
        flags < 0x100_0000,
    ensures
        ({
            let s = seq![version] + bytes24(flags as int) + body;
            &&& s[0] == version
            &&& be24(s, 1) == flags
            &&& s.subrange(4, s.len() as int) == body
        }),
{
    let s = seq![version] + bytes24(flags as int) + body;
    lemma_be24_bytes24(flags as int);
    assert(s.subrange(1, 4) =~= bytes24(flags as int));
    assert(be24(s, 1) == be24(bytes24(flags as int), 0));
    assert(s.subrange(4, s.len() as int) =~= body);
}

} // verus!
