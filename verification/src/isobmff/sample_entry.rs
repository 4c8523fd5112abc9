//! MPEG-4 descriptor reading used by sample entries (`esds`).

use vstd::prelude::*;

use crate::isobmff::boxes::slice_range;
use crate::isobmff::error::Mp4Error;
use crate::isobmff::muxer::{descriptor_len_bytes, le_digits, lemma_le_digits_small};

verus! {

/// One more than the largest value that survives a 7-bit left shift in a `usize`.
pub open spec fn shift_mod() -> int {
    usize::MAX as int / 128 + 1
}

/// Scans an expandable descriptor length from byte `i`: returns the length and
/// the index just past its last byte. Bits shifted out of a `usize` are lost.
pub open spec fn desc_scan(data: Seq<u8>, i: int, len: int) -> (int, int)
    decreases data.len() - i,
{
    if i >= data.len() || i < 0 {
        (len, i)
    } else {
        let b = data[i];
        let l2 = (len % shift_mod()) * 128 + (b % 128);
        if b < 128 {
            (l2, i + 1)
        } else {
            desc_scan(data, i + 1, l2)
        }
    }
}

/// What reading a descriptor's tag, body and the bytes after it gives.
pub open spec fn descriptor_spec(data: Seq<u8>) -> Result<(u8, Seq<u8>, Seq<u8>), Mp4Error> {
    if data.len() == 0 {
        Err(Mp4Error::NeedMoreData)
    } else {
        let (len, i) = desc_scan(data, 1, 0);
        if i + len > data.len() {
            Err(Mp4Error::NeedMoreData)
        } else {
            Ok((data[0], data.subrange(i, i + len), data.subrange(i + len, data.len() as int)))
        }
    }
}

/// The scanned length is a `usize` and the scan stays inside the data.
proof fn lemma_desc_scan_bounds(data: Seq<u8>, i: int, len: int)
    requires
        0 <= len <= usize::MAX,
        0 <= i <= data.len(),
    ensures
        0 <= desc_scan(data, i, len).0 <= usize::MAX,
        i <= desc_scan(data, i, len).1 <= data.len(),
    decreases data.len() - i,
{
    if i < data.len() {
        let b = data[i];
        let h = len % shift_mod();
        assert(0 <= h < shift_mod());
        assert(h * 128 + (b % 128) <= usize::MAX) by (nonlinear_arith)
            requires
                0 <= h < usize::MAX as int / 128 + 1,
                0 <= b % 128 < 128,
                usize::MAX as int >= 0xffff_ffff,
        ;
        if b >= 128 {
            lemma_desc_scan_bounds(data, i + 1, h * 128 + (b % 128));
        }
    }
}

/// Read an MPEG-4 descriptor: its tag, its body and the bytes that follow it.
pub fn read_descriptor_tag_length(data: &[u8]) -> (r: Result<(u8, &[u8], &[u8]), Mp4Error>)
    requires
        data@.len() > 0 ==> desc_scan(data@, 1, 0).1 + desc_scan(data@, 1, 0).0 <= usize::MAX,
    ensures
        match r {
            Ok((tag, body, rest)) => descriptor_spec(data@) == Ok::<
                (u8, Seq<u8>, Seq<u8>),
                Mp4Error,
            >((tag, body@, rest@)),
            Err(e) => descriptor_spec(data@) == Err::<(u8, Seq<u8>, Seq<u8>), Mp4Error>(e),
        },
{
    if data.len() == 0 {
        return Err(Mp4Error::NeedMoreData);
    }
    let tag = data[0];
    let mut len: usize = 0;
    let mut i: usize = 1;
    let ghost m = shift_mod();
    proof {
        lemma_desc_scan_bounds(data@, 1, 0);
    }
    while i < data.len()
        invariant_except_break
            1 <= i <= data@.len(),
            desc_scan(data@, i as int, len as int) == desc_scan(data@, 1, 0),
        ensures
            1 <= i <= data@.len(),
            (len as int, i as int) == desc_scan(data@, 1, 0),
        decreases data@.len() - i,
    {
        let b = data[i];
        i = i + 1;
        let hi = len % (usize::MAX / 128 + 1);
        assert(hi * 128 + (b % 128) <= usize::MAX) by (nonlinear_arith)
            requires
                0 <= hi < usize::MAX as int / 128 + 1,
                usize::MAX as int >= 0xffff_ffff,
        ;
        len = hi * 128 + (b % 128) as usize;
        if b < 0x80 {
            break;
        }
    }
    if i + len > data.len() {
        return Err(Mp4Error::NeedMoreData);
    }
    Ok((tag, slice_range(data, i, i + len), slice_range(data, i + len, data.len())))
}

/// The value of expandable length digits `s` read after `acc`, as the scan
/// reads them.
pub open spec fn digits_value(acc: int, s: Seq<u8>) -> int
    decreases s.len(),
{
    if s.len() == 0 {
        acc
    } else {
        digits_value((acc % shift_mod()) * 128 + (s[0] % 128), s.drop_first())
    }
}

/// Scanning length bytes whose last one alone has a clear top bit reads them all.
proof fn lemma_scan_digits(data: Seq<u8>, i: int, acc: int, s: Seq<u8>)
    requires
        0 <= i,
        i + s.len() <= data.len(),
        s.len() >= 1,
        data.subrange(i, i + s.len()) == s,
        forall|j: int| 0 <= j < s.len() - 1 ==> #[trigger] s[j] >= 128,
        s[s.len() - 1] < 128,
    ensures
        desc_scan(data, i, acc) == (digits_value(acc, s), i + s.len()),
    decreases s.len(),
{
    assert(data[i] == s[0]) by {
        assert(data.subrange(i, i + s.len())[0] == data[i]);
    }
    let a2 = (acc % shift_mod()) * 128 + (s[0] % 128);
    if s.len() == 1 {
        assert(digits_value(a2, s.drop_first()) == a2);
    } else {
        assert(s[0] >= 128);
        let t = s.drop_first();
        assert(data.subrange(i + 1, i + 1 + t.len()) =~= t) by {
            assert forall|j: int| 0 <= j < t.len() implies data.subrange(i + 1, i + 1 + t.len())[j]
                == t[j] by {
                assert(data.subrange(i, i + s.len())[j + 1] == s[j + 1]);
            }
        }
        assert forall|j: int| 0 <= j < t.len() - 1 implies #[trigger] t[j] >= 128 by {
            assert(s[j + 1] >= 128);
        }
        lemma_scan_digits(data, i + 1, a2, t);
    }
}

/// Appending a digit shifts the value and adds the digit.
proof fn lemma_digits_value_push(acc: int, s: Seq<u8>, x: u8)
    ensures
        digits_value(acc, s.push(x)) == (digits_value(acc, s) % shift_mod()) * 128 + (x % 128),
    decreases s.len(),
{
    let a2 = (acc % shift_mod()) * 128 + (x % 128);
    if s.len() == 0 {
        assert(s.push(x).drop_first() =~= Seq::<u8>::empty());
        assert(digits_value(a2, s.push(x).drop_first()) == a2);
    } else {
        assert(s.push(x)[0] == s[0]);
        assert(s.push(x).drop_first() =~= s.drop_first().push(x));
        lemma_digits_value_push((acc % shift_mod()) * 128 + (s[0] % 128), s.drop_first(), x);
    }
}

/// Digits that agree below the top bit have the same value.
proof fn lemma_digits_value_low_bits(acc: int, s: Seq<u8>, t: Seq<u8>)
    requires
        s.len() == t.len(),
        forall|j: int| 0 <= j < s.len() ==> #[trigger] s[j] % 128 == t[j] % 128,
    ensures
        digits_value(acc, s) == digits_value(acc, t),
    decreases s.len(),
{
    if s.len() > 0 {
        assert forall|j: int| 0 <= j < s.len() - 1 implies #[trigger] s.drop_first()[j] % 128
            == t.drop_first()[j] % 128 by {
            assert(s[j + 1] % 128 == t[j + 1] % 128);
        }
        lemma_digits_value_low_bits(
            (acc % shift_mod()) * 128 + (s[0] % 128),
            s.drop_first(),
            t.drop_first(),
        );
    }
}

/// The base-128 digits of `n`, most significant first, have the value `n`.
proof fn lemma_le_digits_value(n: nat)
    requires
        n <= usize::MAX,
    ensures
        digits_value(0, le_digits(n).reverse()) == n,
    decreases n,
{
    if n < 128 {
        assert(le_digits(n).reverse() =~= seq![n as u8]);
        assert(seq![n as u8].drop_first() =~= Seq::<u8>::empty());
        let a2 = (0int % shift_mod()) * 128 + ((n as u8) % 128);
        assert(digits_value(a2, Seq::<u8>::empty()) == a2);
    } else {
        let h = n / 128;
        lemma_le_digits_value(h);
        assert(le_digits(n).reverse() =~= le_digits(h).reverse().push((n % 128) as u8));
        lemma_digits_value_push(0, le_digits(h).reverse(), (n % 128) as u8);
        assert(h < shift_mod()) by (nonlinear_arith)
            requires
                h == n / 128,
                n <= usize::MAX,
        ;
        let mm = shift_mod();
        assert((h as int) % mm == h) by (nonlinear_arith)
            requires
                0 <= h < mm,
        ;
        assert(((n % 128) as u8) % 128 == n % 128);
        assert(h * 128 + n % 128 == n);
    }
}

/// A descriptor written by `write_descriptor` reads back as its tag and body,
/// whatever bytes follow it.
pub proof fn lemma_descriptor_round_trip(tag: u8, body: Seq<u8>, rest: Seq<u8>)
    requires
        body.len() <= usize::MAX,
    ensures
        descriptor_spec(seq![tag] + descriptor_len_bytes(body.len()) + body + rest) == Ok::<
            (u8, Seq<u8>, Seq<u8>),
            Mp4Error,
        >((tag, body, rest)),
{
    let n = body.len();
    let b = descriptor_len_bytes(n);
    let m = b.len() as int;
    let d = le_digits(n).reverse();
    let data = seq![tag] + b + body + rest;
    lemma_le_digits_small(n);
    assert(b.len() == d.len());
    assert forall|j: int| 0 <= j < b.len() - 1 implies #[trigger] b[j] >= 128 by {
        assert(d[j] == le_digits(n)[le_digits(n).len() - 1 - j]);
    }
    assert(d[d.len() - 1] == le_digits(n)[0]);
    assert(data.subrange(1, 1 + m) =~= b);
    lemma_scan_digits(data, 1, 0, b);
    assert forall|j: int| 0 <= j < b.len() implies #[trigger] b[j] % 128 == d[j] % 128 by {
        assert(d[j] == le_digits(n)[le_digits(n).len() - 1 - j]);
    }
    lemma_digits_value_low_bits(0, b, d);
    lemma_le_digits_value(n);
    assert(data.subrange(1 + m, 1 + m + n) =~= body);
    assert(data.subrange(1 + m + n, data.len() as int) =~= rest);
}

} // verus!
