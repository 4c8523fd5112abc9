//! Fixed boxes of the fragmented MP4 (MSE) segmenter.

use vstd::prelude::*;

use crate::bytes::{bytes16, bytes24, bytes32};
use crate::isobmff::boxes::{append, box_bytes, write_box, write_fullbox, write_u16, write_u32};
use crate::isobmff::types::{DREF, FTYP, MFHD, SMHD, STCO, STSC, STSZ, STTS, TFHD, URL, VMHD};

verus! {

/// The bytes `isom`.
pub open spec fn isom() -> Seq<u8> {
    seq![0x69u8, 0x73u8, 0x6fu8, 0x6du8]
}

/// The bytes `mp41`.
pub open spec fn mp41() -> Seq<u8> {
    seq![0x6du8, 0x70u8, 0x34u8, 0x31u8]
}

/// A fullbox header: version byte then 24 flag bits.
pub open spec fn fullbox(version: u8, flags: u32) -> Seq<u8> {
    seq![version] + bytes24(flags as int)
}

/// The `ftyp` body: major brand `isom`, minor version 0x200, brands `isom` and `mp41`.
pub open spec fn ftyp_body() -> Seq<u8> {
    isom() + bytes32(0x200) + isom() + mp41()
}

/// Appends the bytes `isom`.
pub fn push_isom(v: &mut Vec<u8>)
    ensures
        final(v)@ == old(v)@ + isom(),
{
    append(v, &[0x69u8, 0x73u8, 0x6fu8, 0x6du8]);
    assert(final(v)@ =~= old(v)@ + isom());
}

/// Appends the bytes `mp41`.
pub fn push_mp41(v: &mut Vec<u8>)
    ensures
        final(v)@ == old(v)@ + mp41(),
{
    append(v, &[0x6du8, 0x70u8, 0x34u8, 0x31u8]);
    assert(final(v)@ =~= old(v)@ + mp41());
}

/// Appends a fullbox header.
pub fn push_fullbox(v: &mut Vec<u8>, version: u8, flags: u32)
    ensures
        final(v)@ == old(v)@ + fullbox(version, flags),
{
    let fb = write_fullbox(version, flags);
    append(v, &fb);
}

/// The `ftyp` box of an init segment.
pub fn write_ftyp() -> (r: Vec<u8>)
    ensures
        r@ == box_bytes(FTYP, ftyp_body()),
{
    let mut body = Vec::with_capacity(16);
    push_isom(&mut body);
    write_u32(&mut body, 0x200);
    push_isom(&mut body);
    push_mp41(&mut body);
    assert(body@ =~= ftyp_body());
    write_box(FTYP, body.as_slice())
}

/// The `vmhd` (video media header) box.
pub fn write_vmhd() -> (r: Vec<u8>)
    ensures
        r@ == box_bytes(VMHD, fullbox(0, 1) + bytes16(0) + seq![0u8, 0u8, 0u8, 0u8, 0u8, 0u8]),
{
    let mut body = Vec::with_capacity(12);
    push_fullbox(&mut body, 0, 0x0000_0001);
    write_u16(&mut body, 0);
    append(&mut body, &[0u8, 0u8, 0u8, 0u8, 0u8, 0u8]);
    assert(body@ =~= fullbox(0, 1) + bytes16(0) + seq![0u8, 0u8, 0u8, 0u8, 0u8, 0u8]);
    write_box(VMHD, body.as_slice())
}

/// The `smhd` (sound media header) box.
pub fn write_smhd() -> (r: Vec<u8>)
    ensures
        r@ == box_bytes(SMHD, fullbox(0, 0) + bytes16(0) + bytes16(0)),
{
    let mut body = Vec::with_capacity(8);
    push_fullbox(&mut body, 0, 0);
    write_u16(&mut body, 0);
    write_u16(&mut body, 0);
    write_box(SMHD, body.as_slice())
}

/// The data reference written for a track: a `dref` box holding one
/// self-contained `url ` entry.
pub fn write_dinf() -> (r: Vec<u8>)
    ensures
        r@ == box_bytes(DREF, fullbox(0, 0) + bytes32(1) + box_bytes(URL, fullbox(0, 1))),
{
    let mut dref_body = Vec::new();
    push_fullbox(&mut dref_body, 0, 0);
    write_u32(&mut dref_body, 1);
    let url_body = write_fullbox(0, 0x0000_0001);
    let url = write_box(URL, &url_body);
    append(&mut dref_body, url.as_slice());
    write_box(DREF, dref_body.as_slice())
}

/// An empty `stts` table.
pub fn write_stts() -> (r: Vec<u8>)
    ensures
        r@ == box_bytes(STTS, fullbox(0, 0) + bytes32(0)),
{
    let mut body = Vec::with_capacity(8);
    push_fullbox(&mut body, 0, 0);
    write_u32(&mut body, 0);
    write_box(STTS, body.as_slice())
}

/// An empty `stsc` table.
pub fn write_stsc() -> (r: Vec<u8>)
    ensures
        r@ == box_bytes(STSC, fullbox(0, 0) + bytes32(0)),
{
    let mut body = Vec::with_capacity(8);
    push_fullbox(&mut body, 0, 0);
    write_u32(&mut body, 0);
    write_box(STSC, body.as_slice())
}

/// An empty `stsz` table (sample size 0, no samples).
pub fn write_stsz() -> (r: Vec<u8>)
    ensures
        r@ == box_bytes(STSZ, fullbox(0, 0) + bytes32(0) + bytes32(0)),
{
    let mut body = Vec::with_capacity(12);
    push_fullbox(&mut body, 0, 0);
    write_u32(&mut body, 0);
    write_u32(&mut body, 0);
    write_box(STSZ, body.as_slice())
}

/// An empty `stco` table.
pub fn write_stco() -> (r: Vec<u8>)
    ensures
        r@ == box_bytes(STCO, fullbox(0, 0) + bytes32(0)),
{
    let mut body = Vec::with_capacity(8);
    push_fullbox(&mut body, 0, 0);
    write_u32(&mut body, 0);
    write_box(STCO, body.as_slice())
}

/// The `mfhd` (movie fragment header) box carrying `sequence`.
pub fn write_mfhd(sequence: u32) -> (r: Vec<u8>)
    ensures
        r@ == box_bytes(MFHD, fullbox(0, 0) + bytes32(sequence as int)),
{
    let mut body = Vec::with_capacity(8);
    push_fullbox(&mut body, 0, 0);
    write_u32(&mut body, sequence);
    write_box(MFHD, body.as_slice())
}

/// The `tfhd` box for `track_id`, flagged default-base-is-moof.
pub fn write_tfhd(track_id: u32) -> (r: Vec<u8>)
    ensures
        r@ == box_bytes(TFHD, fullbox(0, 0x020000) + bytes32(track_id as int)),
{
    let mut body = Vec::with_capacity(8);
    push_fullbox(&mut body, 0, 0x020000);
    write_u32(&mut body, track_id);
    write_box(TFHD, body.as_slice())
}

/// Base-128 digits of `n`, least significant first.
pub open spec fn le_digits(n: nat) -> Seq<u8>
    decreases n,
{
    if n < 128 {
        seq![n as u8]
    } else {
        seq![(n % 128) as u8] + le_digits(n / 128)
    }
}

/// The expandable length field of an MPEG-4 descriptor: the base-128 digits of
/// `n`, most significant first, each but the last with its top bit set.
pub open spec fn descriptor_len_bytes(n: nat) -> Seq<u8> {
    let d = le_digits(n).reverse();
    Seq::new(d.len(), |i: int| if i < d.len() - 1 { (d[i] + 0x80) as u8 } else { d[i] })
}

/// The base-128 digits are below 128 and there is at least one.
pub proof fn lemma_le_digits_small(n: nat)
    ensures
        forall|i: int| 0 <= i < le_digits(n).len() ==> #[trigger] le_digits(n)[i] < 128,
        le_digits(n).len() >= 1,
    decreases n,
{
    if n >= 128 {
        lemma_le_digits_small(n / 128);
    }
}

/// Build an MPEG-4 descriptor: tag, expandable length, body.
pub fn write_descriptor(tag: u8, body: &[u8]) -> (r: Vec<u8>)
    ensures
        r@ == seq![tag] + descriptor_len_bytes(body@.len()) + body@,
{
    let mut out = Vec::with_capacity(2);
    out.push(tag);
    let n = body.len();
    let mut len = n;
    let mut bytes: Vec<u8> = Vec::new();
    loop
        invariant_except_break
            le_digits(n as nat) == bytes@ + le_digits(len as nat),
        ensures
            le_digits(n as nat) == bytes@,
        decreases len,
    {
        let ghost before = bytes@;
        bytes.push((len % 128) as u8);
        if len < 128 {
            assert(le_digits(len as nat) == seq![(len % 128) as u8]);
            assert(le_digits(n as nat) =~= bytes@);
            break;
        }
        assert(before + le_digits(len as nat) =~= bytes@ + le_digits((len / 128) as nat));
        len = len / 128;
    }
    proof {
        lemma_le_digits_small(n as nat);
    }
    let ghost d = le_digits(n as nat).reverse();
    let k = bytes.len();
    let ghost before = out@;
    let mut j: usize = k;
    while j > 0
        invariant
            bytes@ == le_digits(n as nat),
            d == bytes@.reverse(),
            k == bytes@.len(),
            k >= 1,
            j <= k,
            forall|i: int| 0 <= i < k ==> #[trigger] bytes@[i] < 128,
            out@ == before + Seq::new(
                (k - j) as nat,
                |i: int| if i < d.len() - 1 { (d[i] + 0x80) as u8 } else { d[i] },
            ),
        decreases j,
    {
        j = j - 1;
        let b = bytes[j];
        if j != 0 {
            out.push(b + 0x80);
        } else {
            out.push(b);
        }
        assert(out@ =~= before + Seq::new(
            (k - j) as nat,
            |i: int| if i < d.len() - 1 { (d[i] + 0x80) as u8 } else { d[i] },
        ));
    }
    append(&mut out, body);
    assert(out@ =~= seq![tag] + descriptor_len_bytes(body@.len()) + body@);
    out
}

/// The length field of a descriptor takes one to ten bytes for a length
/// that fits a `usize`.
pub proof fn lemma_descriptor_len_bytes_len(n: nat)
    requires
        n <= usize::MAX,
    ensures
        1 <= descriptor_len_bytes(n).len() <= 10,
{
    assert(pow128(0) == 1);
    assert(pow128(1) == 128);
    assert(pow128(2) == 16384);
    assert(pow128(3) == 2097152);
    assert(pow128(4) == 268435456);
    assert(pow128(5) == 34359738368);
    assert(pow128(6) == 4398046511104);
    assert(pow128(7) == 562949953421312);
    assert(pow128(8) == 72057594037927936);
    assert(pow128(9) == 9223372036854775808);
    assert(pow128(10) == 1180591620717411303424);
    lemma_le_digits_len(n, 10);
}

/// `128` to the power `k`.
pub open spec fn pow128(k: nat) -> nat
    decreases k,
{
    if k == 0 {
        1
    } else {
        128 * pow128((k - 1) as nat)
    }
}

proof fn lemma_le_digits_len(n: nat, k: nat)
    requires
        k >= 1,
        n < pow128(k),
    ensures
        1 <= le_digits(n).len() <= k,
    decreases n,
{
    if n >= 128 {
        if k == 1 {
            assert(pow128(1) == 128 * pow128(0));
        }
        let x = pow128((k - 1) as nat);
        assert(pow128(k) == 128 * x);
        assert(n / 128 < x);
        lemma_le_digits_len(n / 128, (k - 1) as nat);
    }
}

} // verus!
