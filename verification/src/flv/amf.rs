//! AMF0 primitives for FLV script data.

use vstd::prelude::*;

use crate::bytes::{be16, be32, be64};
use crate::flv::error::FlvError;
use crate::isobmff::boxes::{copy_range, get_u64};

verus! {

/// Limits for AMF parsing.
#[derive(Debug, Clone, Copy)]
pub struct AmfLimits {
    pub max_depth: u8,
    pub max_total_bytes: u64,
    pub max_string_len: u32,
    pub max_properties: u32,
}

impl Default for AmfLimits {
    /// Depth 8, 64 KiB in total, strings of up to 1024 bytes, 1024 properties.
    fn default() -> (l: Self)
        ensures
            l.max_depth == 8,
            l.max_total_bytes == 64 * 1024,
            l.max_string_len == 1024,
            l.max_properties == 1024,
    {
        AmfLimits {
            max_depth: 8,
            max_total_bytes: 64 * 1024,
            max_string_len: 1024,
            max_properties: 1024,
        }
    }
}

/// Decodes `bytes` as UTF-8 with `String::from_utf8`. The contract claims what
/// its documentation gives: it succeeds exactly on valid UTF-8, and the string
/// then holds the decoded characters.
#[verifier::external_body]
pub(crate) fn string_from_utf8(bytes: Vec<u8>) -> (r: Option<String>)
    ensures
        r is Some <==> vstd::utf8::valid_utf8(bytes@),
        r matches Some(s) ==> s@ == vstd::utf8::decode_utf8(bytes@),
{
    match String::from_utf8(bytes) {
        Ok(s) => Some(s),
        Err(_) => None,
    }
}

/// A cursor over AMF0 data.
pub struct AmfParser<'a> {
    data: &'a [u8],
    pos: usize,
    limits: AmfLimits,
    depth: u16,
}

impl<'a> AmfParser<'a> {
    /// The bytes parsed.
    pub closed spec fn data(self) -> Seq<u8> {
        self.data@
    }

    /// The read position.
    pub closed spec fn at(self) -> int {
        self.pos as int
    }

    /// The limits in force.
    pub closed spec fn limits(self) -> AmfLimits {
        self.limits
    }

    /// The nesting depth reached.
    pub closed spec fn depth(self) -> int {
        self.depth as int
    }

    /// Bytes left after the read position.
    pub open spec fn left(self) -> int {
        self.data().len() - self.at()
    }

    #[verifier::type_invariant]
    closed spec fn wf(self) -> bool {
        self.pos <= self.data@.len()
    }

    /// A parser at the start of `data`.
    pub fn new(data: &'a [u8], limits: AmfLimits) -> (p: Self)
        ensures
            p.data() == data@,
            p.at() == 0,
            p.limits() == limits,
            p.depth() == 0,
    {
        AmfParser { data, pos: 0, limits, depth: 0 }
    }

    /// Bytes left after the read position.
    pub fn remaining(&self) -> (n: usize)
        ensures
            n == self.left(),
            0 <= self.at() <= self.data().len(),
    {
        proof {
            use_type_invariant(self);
        }
        self.data.len() - self.pos
    }

    /// `NeedMoreData` unless `n` bytes are left.
    pub fn ensure(&self, n: usize) -> (r: Result<(), FlvError>)
        ensures
            r == if self.left() < n {
                Err::<(), FlvError>(FlvError::NeedMoreData)
            } else {
                Ok(())
            },
    {
        if self.remaining() < n {
            return Err(FlvError::NeedMoreData);
        }
        Ok(())
    }

    /// Read one byte.
    pub fn read_u8(&mut self) -> (r: Result<u8, FlvError>)
        ensures
            final(self).data() == old(self).data(),
            final(self).limits() == old(self).limits(),
            final(self).depth() == old(self).depth(),
            old(self).left() < 1 ==> r == Err::<u8, FlvError>(FlvError::NeedMoreData)
                && final(self).at() == old(self).at(),
            old(self).left() >= 1 ==> r == Ok::<u8, FlvError>(old(self).data()[old(self).at()])
                && final(self).at() == old(self).at() + 1,
    {
        proof {
            use_type_invariant(&*self);
        }
        self.ensure(1)?;
        let v = self.data[self.pos];
        self.pos += 1;
        Ok(v)
    }

    /// Read a big-endian `u16`.
    pub fn read_u16_be(&mut self) -> (r: Result<u16, FlvError>)
        ensures
            final(self).data() == old(self).data(),
            final(self).limits() == old(self).limits(),
            final(self).depth() == old(self).depth(),
            old(self).left() < 2 ==> r == Err::<u16, FlvError>(FlvError::NeedMoreData)
                && final(self).at() == old(self).at(),
            old(self).left() >= 2 ==> r == Ok::<u16, FlvError>(
                be16(old(self).data(), old(self).at()) as u16,
            ) && final(self).at() == old(self).at() + 2,
    {
        proof {
            use_type_invariant(&*self);
        }
        self.ensure(2)?;
        let v = (self.data[self.pos] as u16) * 256 + (self.data[self.pos + 1] as u16);
        self.pos += 2;
        Ok(v)
    }

    /// Read a big-endian `u32`.
    pub fn read_u32_be(&mut self) -> (r: Result<u32, FlvError>)
        ensures
            final(self).data() == old(self).data(),
            final(self).limits() == old(self).limits(),
            final(self).depth() == old(self).depth(),
            old(self).left() < 4 ==> r == Err::<u32, FlvError>(FlvError::NeedMoreData)
                && final(self).at() == old(self).at(),
            old(self).left() >= 4 ==> r == Ok::<u32, FlvError>(
                be32(old(self).data(), old(self).at()) as u32,
            ) && final(self).at() == old(self).at() + 4,
    {
        proof {
            use_type_invariant(&*self);
        }
        self.ensure(4)?;
        let p = self.pos;
        let v = (self.data[p] as u32) * 0x1000000 + (self.data[p + 1] as u32) * 0x10000
            + (self.data[p + 2] as u32) * 0x100 + (self.data[p + 3] as u32);
        self.pos += 4;
        Ok(v)
    }

    /// Read `len` bytes as a UTF-8 string, after the length was read.
    fn read_utf8(&mut self, len: usize) -> (r: Result<String, FlvError>)
        ensures
            final(self).data() == old(self).data(),
            final(self).limits() == old(self).limits(),
            final(self).depth() == old(self).depth(),
            old(self).left() < len ==> r == Err::<String, FlvError>(FlvError::NeedMoreData)
                && final(self).at() == old(self).at(),
            old(self).left() >= len ==> final(self).at() == old(self).at() + len && ({
                let bytes = old(self).data().subrange(old(self).at(), old(self).at() + len);
                if vstd::utf8::valid_utf8(bytes) {
                    r matches Ok(s) && s@ == vstd::utf8::decode_utf8(bytes)
                } else {
                    r == Err::<String, FlvError>(FlvError::InvalidAmf)
                }
            }),
    {
        proof {
            use_type_invariant(&*self);
        }
        if self.data.len() - self.pos < len {
            return Err(FlvError::NeedMoreData);
        }
        let bytes = copy_range(self.data, self.pos, self.pos + len);
        self.pos += len;
        match string_from_utf8(bytes) {
            Some(s) => Ok(s),
            None => Err(FlvError::InvalidAmf),
        }
    }

    /// Read a string with a 16-bit length prefix.
    pub fn read_string(&mut self) -> (r: Result<String, FlvError>)
        ensures
            final(self).data() == old(self).data(),
            final(self).limits() == old(self).limits(),
            final(self).depth() == old(self).depth(),
            ({
                let (res, end) = str_spec(
                    old(self).data(),
                    old(self).at(),
                    2,
                    old(self).limits().max_string_len,
                );
                &&& final(self).at() == end
                &&& match res {
                    Ok(cs) => r matches Ok(s) && s@ == cs,
                    Err(e) => r == Err::<String, FlvError>(e),
                }
            }),
    {
        let len = self.read_u16_be()? as usize;
        if len as u32 > self.limits.max_string_len {
            return Err(FlvError::LimitExceeded);
        }
        self.read_utf8(len)
    }

    /// Read a string with a 32-bit length prefix.
    pub fn read_long_string(&mut self) -> (r: Result<String, FlvError>)
        ensures
            final(self).data() == old(self).data(),
            final(self).limits() == old(self).limits(),
            final(self).depth() == old(self).depth(),
            ({
                let (res, end) = str_spec(
                    old(self).data(),
                    old(self).at(),
                    4,
                    old(self).limits().max_string_len,
                );
                &&& final(self).at() == end
                &&& match res {
                    Ok(cs) => r matches Ok(s) && s@ == cs,
                    Err(e) => r == Err::<String, FlvError>(e),
                }
            }),
    {
        let len = self.read_u32_be()? as usize;
        if len as u32 > self.limits.max_string_len {
            return Err(FlvError::LimitExceeded);
        }
        self.read_utf8(len)
    }
}

/// What reading a string whose `w`-byte big-endian length prefix starts at
/// `at` gives, and where it leaves the read position: `NeedMoreData` before
/// the prefix is whole, `LimitExceeded` past `max` (after the prefix),
/// `NeedMoreData` when the body is cut short, `InvalidAmf` when it is not
/// UTF-8 (after the body), else the decoded characters.
pub open spec fn str_spec(d: Seq<u8>, at: int, w: int, max: u32) -> (Result<Seq<char>, FlvError>, int) {
    if d.len() - at < w {
        (Err(FlvError::NeedMoreData), at)
    } else {
        let len = if w == 2 {
            be16(d, at)
        } else {
            be32(d, at)
        };
        if len > max {
            (Err(FlvError::LimitExceeded), at + w)
        } else if d.len() - (at + w) < len {
            (Err(FlvError::NeedMoreData), at + w)
        } else {
            let bytes = d.subrange(at + w, at + w + len);
            if vstd::utf8::valid_utf8(bytes) {
                (Ok(vstd::utf8::decode_utf8(bytes)), at + w + len)
            } else {
                (Err(FlvError::InvalidAmf), at + w + len)
            }
        }
    }
}


/// A parsed AMF0 value. A number keeps the IEEE-754 binary64 bit pattern it
/// was stored with.
#[derive(Debug, PartialEq)]
pub enum AmfValue {
    Number(u64),
    Boolean(bool),
    String(String),
    /// ECMA array or strict array values.
    Array(Vec<(String, AmfValue)>),
    Object(Vec<(String, AmfValue)>),
    Null,
    Unsupported,
}

/// What an [`AmfValue`] holds, with strings as characters.
pub enum AmfView {
    Number(u64),
    Boolean(bool),
    String(Seq<char>),
    Array(Seq<(Seq<char>, AmfView)>),
    Object(Seq<(Seq<char>, AmfView)>),
    Null,
    Unsupported,
}

/// The view of a value.
pub open spec fn amf_view(v: AmfValue) -> AmfView
    decreases v, 1nat,
{
    match v {
        AmfValue::Number(b) => AmfView::Number(b),
        AmfValue::Boolean(b) => AmfView::Boolean(b),
        AmfValue::String(s) => AmfView::String(s@),
        AmfValue::Array(items) => AmfView::Array(props_view(items@)),
        AmfValue::Object(items) => AmfView::Object(props_view(items@)),
        AmfValue::Null => AmfView::Null,
        AmfValue::Unsupported => AmfView::Unsupported,
    }
}

/// The view of a list of named values.
pub open spec fn props_view(s: Seq<(String, AmfValue)>) -> Seq<(Seq<char>, AmfView)>
    decreases s, 0nat,
{
    if s.len() == 0 {
        Seq::empty()
    } else {
        let last = s[s.len() - 1];
        props_view(s.subrange(0, s.len() - 1)).push((last.0@, amf_view(last.1)))
    }
}

impl View for AmfValue {
    type V = AmfView;

    open spec fn view(&self) -> AmfView {
        amf_view(*self)
    }
}

/// The view of a list holds the views of its items, in order.
pub proof fn lemma_props_view(s: Seq<(String, AmfValue)>)
    ensures
        props_view(s).len() == s.len(),
        forall|i: int|
            0 <= i < s.len() ==> #[trigger] props_view(s)[i] == (s[i].0@, amf_view(s[i].1)),
    decreases s.len(),
{
    if s.len() > 0 {
        let t = s.subrange(0, s.len() - 1);
        lemma_props_view(t);
        assert forall|i: int| 0 <= i < s.len() implies #[trigger] props_view(s)[i] == (
            s[i].0@,
            amf_view(s[i].1),
        ) by {
            if i < s.len() - 1 {
                assert(t[i] == s[i]);
            }
        }
    }
}

/// Pushing a named value onto a list pushes its view.
pub proof fn lemma_props_view_push(s: Seq<(String, AmfValue)>, x: (String, AmfValue))
    ensures
        props_view(s.push(x)) == props_view(s).push((x.0@, amf_view(x.1))),
{
    assert(s.push(x).subrange(0, s.len() as int) =~= s);
}

/// The decimal digit `n` (below ten) as a character.
pub open spec fn digit_char(n: nat) -> char {
    (n + 48) as char
}

/// The decimal representation of `n`.
pub open spec fn dec_chars(n: nat) -> Seq<char>
    decreases n,
{
    if n < 10 {
        seq![digit_char(n)]
    } else {
        dec_chars(n / 10).push(digit_char(n % 10))
    }
}

/// What parsing the value whose type marker is at `p` gives, at nesting depth
/// `dp`, with its end: `InvalidAmf` past the depth limit, `LimitExceeded`
/// past the byte limit, `NeedMoreData` when the data runs out, and values of
/// unsupported kinds as `Unsupported` after their marker alone.
pub open spec fn value_spec(d: Seq<u8>, l: AmfLimits, p: int, dp: int) -> Result<
    (AmfView, int),
    FlvError,
>
    decreases d.len() - p, 0nat,
{
    if dp > l.max_depth {
        Err(FlvError::InvalidAmf)
    } else if p > l.max_total_bytes {
        Err(FlvError::LimitExceeded)
    } else if !(0 <= p < d.len()) {
        Err(FlvError::NeedMoreData)
    } else {
        let m = d[p];
        let q = p + 1;
        if m == 0x00 {
            if d.len() - q < 8 {
                Err(FlvError::NeedMoreData)
            } else {
                Ok((AmfView::Number(be64(d, q) as u64), q + 8))
            }
        } else if m == 0x01 {
            if d.len() - q < 1 {
                Err(FlvError::NeedMoreData)
            } else {
                Ok((AmfView::Boolean(d[q] != 0), q + 1))
            }
        } else if m == 0x02 || m == 0x0b {
            match str_spec(d, q, if m == 0x02 { 2 } else { 4 }, l.max_string_len) {
                (Ok(s), e) => Ok((AmfView::String(s), e)),
                (Err(err), _) => Err(err),
            }
        } else if m == 0x03 {
            object_spec(d, l, q, dp + 1, Seq::empty())
        } else if m == 0x05 {
            Ok((AmfView::Null, q))
        } else if m == 0x08 || m == 0x0a {
            counted_spec(d, l, q, dp + 1, m == 0x0a)
        } else {
            Ok((AmfView::Unsupported, q))
        }
    }
}

/// An AMF0 boolean reads back as written: the marker `0x01` followed by 1
/// for true or 0 for false, at any position within the limits, is read as
/// that boolean, taking two bytes.
pub proof fn lemma_boolean_round_trip(d: Seq<u8>, l: AmfLimits, p: int, dp: int, b: bool)
    requires
        0 <= p,
        p + 2 <= d.len(),
        dp <= l.max_depth,
        p <= l.max_total_bytes,
        d[p] == 0x01,
        d[p + 1] == (if b { 1u8 } else { 0u8 }),
    ensures
        value_spec(d, l, p, dp) == Ok::<(AmfView, int), FlvError>((AmfView::Boolean(b), p + 2)),
{
}

/// An AMF0 number reads back as written: the marker `0x00` followed by the
/// eight big-endian bytes of a 64-bit pattern, at any position within the
/// limits, is read as that pattern, taking nine bytes.
pub proof fn lemma_number_round_trip(d: Seq<u8>, l: AmfLimits, p: int, dp: int, x: u64)
    requires
        0 <= p,
        p + 9 <= d.len(),
        dp <= l.max_depth,
        p <= l.max_total_bytes,
        d[p] == 0x00,
        d.subrange(p + 1, p + 9) == crate::bytes::bytes64(x as int),
    ensures
        value_spec(d, l, p, dp) == Ok::<(AmfView, int), FlvError>((AmfView::Number(x), p + 9)),
{
    crate::bytes::lemma_be64_bytes64(x as int);
    let e = crate::bytes::bytes64(x as int);
    assert forall|k: int| 0 <= k < 8 implies #[trigger] d[p + 1 + k] == e[k] by {
        assert(d.subrange(p + 1, p + 9)[k] == d[p + 1 + k]);
    }
    assert(be64(d, p + 1) == be64(e, 0));
}

/// Any non-zero byte after the boolean marker means true: two booleans whose
/// bytes are both non-zero read the same.
pub proof fn lemma_boolean_nonzero_is_true(
    d: Seq<u8>,
    e: Seq<u8>,
    l: AmfLimits,
    p: int,
    dp: int,
)
    requires
        0 <= p,
        p + 2 <= d.len(),
        p + 2 <= e.len(),
        d[p] == 0x01,
        e[p] == 0x01,
        d[p + 1] != 0,
        e[p + 1] != 0,
    ensures
        value_spec(d, l, p, dp) == value_spec(e, l, p, dp),
{
}

/// The rest of an object whose properties so far are `acc`, from `p`: named
/// values up to the end marker `00 00 09`; past `max_properties` of them,
/// `LimitExceeded`.
pub open spec fn object_spec(
    d: Seq<u8>,
    l: AmfLimits,
    p: int,
    dp: int,
    acc: Seq<(Seq<char>, AmfView)>,
) -> Result<(AmfView, int), FlvError>
    decreases d.len() - p, 1nat,
{
    if !(0 <= p && d.len() - p >= 3) {
        Err(FlvError::NeedMoreData)
    } else if d[p] == 0 && d[p + 1] == 0 && d[p + 2] == 9 {
        Ok((AmfView::Object(acc), p + 3))
    } else {
        match str_spec(d, p, 2, l.max_string_len) {
            (Err(e), _) => Err(e),
            (Ok(key), e1) => match value_spec(d, l, e1, dp) {
                Err(e) => Err(e),
                Ok((v, e2)) => {
                    let acc2 = acc.push((key, v));
                    if (acc2.len() as u32) > l.max_properties {
                        Err(FlvError::LimitExceeded)
                    } else if !(p < e2 <= d.len()) {
                        Err(FlvError::InvalidAmf)
                    } else {
                        object_spec(d, l, e2, dp, acc2)
                    }
                },
            },
        }
    }
}

/// An ECMA array (`strict == false`) or a strict array from its 32-bit count
/// at `p`; the count is capped at `max_properties`.
pub open spec fn counted_spec(d: Seq<u8>, l: AmfLimits, p: int, dp: int, strict: bool) -> Result<
    (AmfView, int),
    FlvError,
>
    decreases d.len() - p, 1nat,
{
    if !(0 <= p && d.len() - p >= 4) {
        Err(FlvError::NeedMoreData)
    } else {
        let n = be32(d, p);
        let count = if n < l.max_properties {
            n
        } else {
            l.max_properties as int
        };
        if strict {
            strict_spec(d, l, p + 4, dp, 0, count, Seq::empty())
        } else {
            ecma_spec(d, l, p + 4, dp, count, Seq::empty())
        }
    }
}

/// The rest of an ECMA array with `left` entries still counted: named values,
/// or the end marker `00 00 09` before the count runs out.
pub open spec fn ecma_spec(
    d: Seq<u8>,
    l: AmfLimits,
    p: int,
    dp: int,
    left: int,
    acc: Seq<(Seq<char>, AmfView)>,
) -> Result<(AmfView, int), FlvError>
    decreases d.len() - p, 1nat,
{
    if left <= 0 {
        Ok((AmfView::Array(acc), p))
    } else if !(0 <= p && d.len() - p >= 2) {
        Err(FlvError::NeedMoreData)
    } else if d[p] == 0 && d[p + 1] == 0 && d.len() - p < 3 {
        Err(FlvError::NeedMoreData)
    } else if d[p] == 0 && d[p + 1] == 0 && d[p + 2] == 9 {
        Ok((AmfView::Array(acc), p + 3))
    } else {
        match str_spec(d, p, 2, l.max_string_len) {
            (Err(e), _) => Err(e),
            (Ok(key), e1) => match value_spec(d, l, e1, dp) {
                Err(e) => Err(e),
                Ok((v, e2)) => if !(p < e2 <= d.len()) {
                    Err(FlvError::InvalidAmf)
                } else {
                    ecma_spec(d, l, e2, dp, left - 1, acc.push((key, v)))
                },
            },
        }
    }
}

/// The rest of a strict array from item `i` of `count`: each item is a value,
/// named by its index in decimal.
pub open spec fn strict_spec(
    d: Seq<u8>,
    l: AmfLimits,
    p: int,
    dp: int,
    i: int,
    count: int,
    acc: Seq<(Seq<char>, AmfView)>,
) -> Result<(AmfView, int), FlvError>
    decreases d.len() - p, 1nat,
{
    if i >= count || i < 0 {
        Ok((AmfView::Array(acc), p))
    } else {
        match value_spec(d, l, p, dp) {
            Err(e) => Err(e),
            Ok((v, e2)) => if !(p < e2 <= d.len()) {
                Err(FlvError::InvalidAmf)
            } else {
                strict_spec(d, l, e2, dp, i + 1, count, acc.push((dec_chars(i as nat), v)))
            },
        }
    }
}

/// A parse result `r`, with the read position `at` after it, is what `s` says.
pub open spec fn outcome(r: Result<AmfValue, FlvError>, at: int, s: Result<(AmfView, int), FlvError>) -> bool {
    match s {
        Ok((w, end)) => r matches Ok(v) && v@ == w && at == end,
        Err(e) => r == Err::<AmfValue, FlvError>(e),
    }
}

/// The decimal digit `n` as a one-character string.
fn digit_str(n: usize) -> (s: &'static str)
    requires
        n < 10,
    ensures
        s@ == seq![digit_char(n as nat)],
{
    if n == 0 {
        proof {
            reveal_strlit("0");
        }
        "0"
    } else if n == 1 {
        proof {
            reveal_strlit("1");
        }
        "1"
    } else if n == 2 {
        proof {
            reveal_strlit("2");
        }
        "2"
    } else if n == 3 {
        proof {
            reveal_strlit("3");
        }
        "3"
    } else if n == 4 {
        proof {
            reveal_strlit("4");
        }
        "4"
    } else if n == 5 {
        proof {
            reveal_strlit("5");
        }
        "5"
    } else if n == 6 {
        proof {
            reveal_strlit("6");
        }
        "6"
    } else if n == 7 {
        proof {
            reveal_strlit("7");
        }
        "7"
    } else if n == 8 {
        proof {
            reveal_strlit("8");
        }
        "8"
    } else {
        proof {
            reveal_strlit("9");
        }
        "9"
    }
}

/// The decimal representation of `n`.
pub fn dec_string(n: usize) -> (s: String)
    ensures
        s@ == dec_chars(n as nat),
    decreases n,
{
    if n < 10 {
        let mut s = String::new();
        s.append(digit_str(n));
        s
    } else {
        let mut s = dec_string(n / 10);
        s.append(digit_str(n % 10));
        s
    }
}

impl<'a> AmfParser<'a> {
    /// Read the eight big-endian bytes of a binary64 number as its bit pattern.
    pub fn read_f64_be(&mut self) -> (r: Result<u64, FlvError>)
        ensures
            final(self).data() == old(self).data(),
            final(self).limits() == old(self).limits(),
            final(self).depth() == old(self).depth(),
            old(self).left() < 8 ==> r == Err::<u64, FlvError>(FlvError::NeedMoreData)
                && final(self).at() == old(self).at(),
            old(self).left() >= 8 ==> r == Ok::<u64, FlvError>(
                be64(old(self).data(), old(self).at()) as u64,
            ) && final(self).at() == old(self).at() + 8,
    {
        proof {
            use_type_invariant(&*self);
        }
        if self.data.len() - self.pos < 8 {
            return Err(FlvError::NeedMoreData);
        }
        let v = get_u64(self.data, self.pos);
        self.pos += 8;
        Ok(v)
    }
}

impl<'a> AmfParser<'a> {
    /// Parse one value, from its type marker on.
    pub fn parse_value(&mut self) -> (r: Result<AmfValue, FlvError>)
        ensures
            final(self).data() == old(self).data(),
            final(self).limits() == old(self).limits(),
            outcome(
                r,
                final(self).at(),
                value_spec(old(self).data(), old(self).limits(), old(self).at(), old(self).depth()),
            ),
            r is Ok ==> old(self).at() < final(self).at() && final(self).depth() == old(self).depth(),
        decreases old(self).left(), 1nat,
    {
        proof {
            use_type_invariant(&*self);
        }
        if self.depth > self.limits.max_depth as u16 {
            return Err(FlvError::InvalidAmf);
        }
        if self.pos as u64 > self.limits.max_total_bytes {
            return Err(FlvError::LimitExceeded);
        }
        let marker = self.read_u8()?;
        match marker {
            0x00 => Ok(AmfValue::Number(self.read_f64_be()?)),
            0x01 => Ok(AmfValue::Boolean(self.read_u8()? != 0)),
            0x02 => Ok(AmfValue::String(self.read_string()?)),
            0x03 => self.parse_object(),
            0x05 => Ok(AmfValue::Null),
            0x08 => self.parse_ecma_array(),
            0x0a => self.parse_strict_array(),
            0x0b => Ok(AmfValue::String(self.read_long_string()?)),
            _ => Ok(AmfValue::Unsupported),
        }
    }

    /// Parse an object's properties, after its marker, up to its end marker.
    fn parse_object(&mut self) -> (r: Result<AmfValue, FlvError>)
        requires
            old(self).depth() <= old(self).limits().max_depth,
        ensures
            final(self).data() == old(self).data(),
            final(self).limits() == old(self).limits(),
            outcome(
                r,
                final(self).at(),
                object_spec(
                    old(self).data(),
                    old(self).limits(),
                    old(self).at(),
                    old(self).depth() + 1,
                    Seq::empty(),
                ),
            ),
            r is Ok ==> old(self).at() < final(self).at() && final(self).depth() == old(self).depth(),
        decreases old(self).left(), 0nat,
    {
        proof {
            use_type_invariant(&*self);
        }
        let ghost d = self.data();
        let ghost l = self.limits();
        let ghost p0 = self.at();
        let ghost dp = self.depth() + 1;
        self.depth += 1;
        let mut props: Vec<(String, AmfValue)> = Vec::new();
        loop
            invariant_except_break
                object_spec(d, l, p0, dp, Seq::empty()) == object_spec(
                    d,
                    l,
                    self.at(),
                    dp,
                    props_view(props@),
                ),
            invariant
                self.data() == d,
                self.limits() == l,
                self.depth() == dp,
                old(self).data() == d,
                old(self).limits() == l,
                old(self).at() == p0,
                old(self).depth() + 1 == dp,
                old(self).left() == d.len() - p0,
                p0 <= self.at() <= d.len(),
            ensures
                object_spec(d, l, p0, dp, Seq::empty()) == Ok::<(AmfView, int), FlvError>(
                    (AmfView::Object(props_view(props@)), self.at()),
                ),
                p0 < self.at(),
            decreases self.left(),
        {
            proof {
                use_type_invariant(&*self);
                lemma_props_view(props@);
            }
            let ghost at0 = self.at();
            let ghost acc = props_view(props@);
            if self.remaining() < 3 {
                return Err(FlvError::NeedMoreData);
            }
            if self.data[self.pos] == 0x00 && self.data[self.pos + 1] == 0x00 && self.data[self.pos
                + 2] == 0x09 {
                self.pos += 3;
                break;
            }
            let key = self.read_string()?;
            let value = self.parse_value()?;
            proof {
                lemma_props_view_push(props@, (key, value));
            }
            props.push((key, value));
            proof {
                lemma_props_view(props@);
                use_type_invariant(&*self);
            }
            if props.len() as u32 > self.limits.max_properties {
                return Err(FlvError::LimitExceeded);
            }
        }
        self.depth -= 1;
        Ok(AmfValue::Object(props))
    }

    /// Parse an ECMA array, after its marker: a count, then up to that many
    /// named values, or fewer before an end marker.
    fn parse_ecma_array(&mut self) -> (r: Result<AmfValue, FlvError>)
        requires
            old(self).depth() <= old(self).limits().max_depth,
        ensures
            final(self).data() == old(self).data(),
            final(self).limits() == old(self).limits(),
            outcome(
                r,
                final(self).at(),
                counted_spec(
                    old(self).data(),
                    old(self).limits(),
                    old(self).at(),
                    old(self).depth() + 1,
                    false,
                ),
            ),
            r is Ok ==> old(self).at() < final(self).at() && final(self).depth() == old(self).depth(),
        decreases old(self).left(), 0nat,
    {
        proof {
            use_type_invariant(&*self);
        }
        let ghost d = self.data();
        let ghost l = self.limits();
        let ghost p0 = self.at();
        let ghost dp = self.depth() + 1;
        self.depth += 1;
        let n = self.read_u32_be()?;
        let count: u32 = if n < self.limits.max_properties {
            n
        } else {
            self.limits.max_properties
        };
        let mut props: Vec<(String, AmfValue)> = Vec::new();
        let mut k: u32 = 0;
        while k < count
            invariant_except_break
                counted_spec(d, l, p0, dp, false) == ecma_spec(
                    d,
                    l,
                    self.at(),
                    dp,
                    count - k,
                    props_view(props@),
                ),
            invariant
                self.data() == d,
                self.limits() == l,
                self.depth() == dp,
                old(self).data() == d,
                old(self).limits() == l,
                old(self).at() == p0,
                old(self).depth() + 1 == dp,
                old(self).left() == d.len() - p0,
                p0 + 4 <= self.at() <= d.len(),
                k <= count,
            ensures
                counted_spec(d, l, p0, dp, false) == Ok::<(AmfView, int), FlvError>(
                    (AmfView::Array(props_view(props@)), self.at()),
                ),
                p0 < self.at(),
            decreases count - k,
        {
            proof {
                use_type_invariant(&*self);
                lemma_props_view(props@);
            }
            if self.remaining() < 2 {
                return Err(FlvError::NeedMoreData);
            }
            if self.data[self.pos] == 0x00 && self.data[self.pos + 1] == 0x00 {
                self.ensure(3)?;
                if self.data[self.pos + 2] == 0x09 {
                    self.pos += 3;
                    break;
                }
            }
            let key = self.read_string()?;
            let value = self.parse_value()?;
            proof {
                lemma_props_view_push(props@, (key, value));
            }
            props.push((key, value));
            proof {
                use_type_invariant(&*self);
            }
            k += 1;
        }
        self.depth -= 1;
        Ok(AmfValue::Array(props))
    }

    /// Parse a strict array, after its marker: a count, then that many values,
    /// named by their indexes.
    fn parse_strict_array(&mut self) -> (r: Result<AmfValue, FlvError>)
        requires
            old(self).depth() <= old(self).limits().max_depth,
        ensures
            final(self).data() == old(self).data(),
            final(self).limits() == old(self).limits(),
            outcome(
                r,
                final(self).at(),
                counted_spec(
                    old(self).data(),
                    old(self).limits(),
                    old(self).at(),
                    old(self).depth() + 1,
                    true,
                ),
            ),
            r is Ok ==> old(self).at() < final(self).at() && final(self).depth() == old(self).depth(),
        decreases old(self).left(), 0nat,
    {
        proof {
            use_type_invariant(&*self);
        }
        let ghost d = self.data();
        let ghost l = self.limits();
        let ghost p0 = self.at();
        let ghost dp = self.depth() + 1;
        self.depth += 1;
        let n = self.read_u32_be()?;
        let count: u32 = if n < self.limits.max_properties {
            n
        } else {
            self.limits.max_properties
        };
        let mut items: Vec<(String, AmfValue)> = Vec::new();
        let mut i: u32 = 0;
        while i < count
            invariant
                counted_spec(d, l, p0, dp, true) == strict_spec(
                    d,
                    l,
                    self.at(),
                    dp,
                    i as int,
                    count as int,
                    props_view(items@),
                ),
                self.data() == d,
                self.limits() == l,
                self.depth() == dp,
                old(self).data() == d,
                old(self).limits() == l,
                old(self).at() == p0,
                old(self).depth() + 1 == dp,
                old(self).left() == d.len() - p0,
                p0 + 4 <= self.at() <= d.len(),
                i <= count,
            decreases count - i,
        {
            proof {
                use_type_invariant(&*self);
            }
            let value = self.parse_value()?;
            let key = dec_string(i as usize);
            proof {
                lemma_props_view_push(items@, (key, value));
                use_type_invariant(&*self);
            }
            items.push((key, value));
            i += 1;
        }
        self.depth -= 1;
        Ok(AmfValue::Array(items))
    }
}

/// The properties of an object or array view.
pub open spec fn props_of(v: AmfView) -> Option<Seq<(Seq<char>, AmfView)>> {
    match v {
        AmfView::Array(s) => Some(s),
        AmfView::Object(s) => Some(s),
        _ => None,
    }
}

/// `i` is the first index of a property named `k`.
pub open spec fn first_named(s: Seq<(Seq<char>, AmfView)>, k: Seq<char>, i: int) -> bool {
    &&& 0 <= i < s.len()
    &&& s[i].0 == k
    &&& forall|j: int| 0 <= j < i ==> s[j].0 != k
}

impl AmfValue {
    /// The string, if the value is one.
    pub fn as_str(&self) -> (r: Option<&str>)
        ensures
            match self@ {
                AmfView::String(s) => r matches Some(t) && t@ == s,
                _ => r is None,
            },
    {
        match self {
            AmfValue::String(s) => Some(s.as_str()),
            _ => None,
        }
    }

    /// The first property named `name` of an object or array.
    pub fn get(&self, name: &str) -> (r: Option<&AmfValue>)
        ensures
            props_of(self@) is None ==> r is None,
            props_of(self@) matches Some(s) ==> (r matches Some(v) ==> exists|i: int|
                #[trigger] first_named(s, name@, i) && s[i].1 == v@),
            props_of(self@) matches Some(s) ==> (r is None ==> forall|i: int|
                0 <= i < s.len() ==> s[i].0 != name@),
    {
        let props = match self {
            AmfValue::Object(props) => props,
            AmfValue::Array(props) => props,
            _ => {
                return None;
            },
        };
        let r = find_named(props, name);
        proof {
            let s = props_view(props@);
            assert(r matches Some(v) ==> exists|i: int| #[trigger] first_named(s, name@, i) && s[i].1 == v@);
            assert(props_of(self@)->0 == s);
        }
        r
    }
}

/// The value of the first property named `name`.
fn find_named<'v>(props: &'v Vec<(String, AmfValue)>, name: &str) -> (r: Option<&'v AmfValue>)
    ensures
        ({
            let s = props_view(props@);
            match r {
                Some(v) => exists|i: int| #[trigger] first_named(s, name@, i) && s[i].1 == v@,
                None => forall|i: int| 0 <= i < s.len() ==> s[i].0 != name@,
            }
        }),
{
    proof {
        lemma_props_view(props@);
    }
    let ghost s = props_view(props@);
    let wanted = String::from_str(name);
    let mut i: usize = 0;
    while i < props.len()
        invariant
            s == props_view(props@),
            s.len() == props@.len(),
            forall|k: int| 0 <= k < s.len() ==> #[trigger] s[k] == (props@[k].0@, amf_view(props@[k].1)),
            wanted@ == name@,
            i <= props.len(),
            forall|j: int| 0 <= j < i ==> s[j].0 != name@,
        decreases props.len() - i,
    {
        if props[i].0 == wanted {
            assert(first_named(s, name@, i as int));
            return Some(&props[i].1);
        }
        i += 1;
    }
    None
}

/// Parse a script tag body: the method name, an AMF string, and the value
/// after it.
pub fn parse_script_tag(data: &[u8], limits: AmfLimits) -> (r: Result<(String, AmfValue), FlvError>)
    ensures
        data@.len() == 0 ==> r == Err::<(String, AmfValue), FlvError>(FlvError::NeedMoreData),
        data@.len() > 0 && data@[0] != 0x02 ==> r == Err::<(String, AmfValue), FlvError>(
            FlvError::InvalidAmf,
        ),
        data@.len() > 0 && data@[0] == 0x02 ==> match value_spec(data@, limits, 0, 0) {
            Err(e) => r == Err::<(String, AmfValue), FlvError>(e),
            Ok((AmfView::String(name), e1)) => match value_spec(data@, limits, e1, 0) {
                Err(e) => r == Err::<(String, AmfValue), FlvError>(e),
                Ok((w, _)) => r matches Ok((n, v)) && n@ == name && v@ == w,
            },
            Ok(_) => r == Err::<(String, AmfValue), FlvError>(FlvError::InvalidAmf),
        },
{
    if data.len() == 0 {
        return Err(FlvError::NeedMoreData);
    }
    let mut parser = AmfParser::new(data, limits);
    if data[0] != 0x02 {
        return Err(FlvError::InvalidAmf);
    }
    let name = match parser.parse_value()? {
        AmfValue::String(s) => s,
        _ => return Err(FlvError::InvalidAmf),
    };
    let value = parser.parse_value()?;
    Ok((name, value))
}

} // verus!
