//! Big-endian byte arithmetic shared by the container parsers and writers.

use vstd::prelude::*;

verus! {

/// Big-endian value of the two bytes at `i`.
pub open spec fn be16(s: Seq<u8>, i: int) -> int {
    s[i] as int * 0x100 + s[i + 1] as int
}

/// Big-endian value of the three bytes at `i`.
pub open spec fn be24(s: Seq<u8>, i: int) -> int {
    s[i] as int * 0x10000 + s[i + 1] as int * 0x100 + s[i + 2] as int
}

/// Big-endian value of the four bytes at `i`.
pub open spec fn be32(s: Seq<u8>, i: int) -> int {
    s[i] as int * 0x1000000 + s[i + 1] as int * 0x10000 + s[i + 2] as int * 0x100
        + s[i + 3] as int
}

/// Big-endian value of the eight bytes at `i`.
pub open spec fn be64(s: Seq<u8>, i: int) -> int {
    be32(s, i) * 0x1_0000_0000 + be32(s, i + 4)
}

/// The two big-endian bytes of `v`.
pub open spec fn bytes16(v: int) -> Seq<u8> {
    seq![((v / 0x100) % 0x100) as u8, (v % 0x100) as u8]
}

/// The three big-endian bytes of `v` (its low 24 bits).
pub open spec fn bytes24(v: int) -> Seq<u8> {
    seq![((v / 0x10000) % 0x100) as u8, ((v / 0x100) % 0x100) as u8, (v % 0x100) as u8]
}

/// The four big-endian bytes of `v` (its low 32 bits).
pub open spec fn bytes32(v: int) -> Seq<u8> {
    seq![
        ((v / 0x1000000) % 0x100) as u8,
        ((v / 0x10000) % 0x100) as u8,
        ((v / 0x100) % 0x100) as u8,
        (v % 0x100) as u8,
    ]
}

/// The eight big-endian bytes of `v` (its low 64 bits).
pub open spec fn bytes64(v: int) -> Seq<u8> {
    bytes32(v / 0x1_0000_0000) + bytes32(v % 0x1_0000_0000)
}

/// Encoding a 32-bit value and reading it back gives the value.
pub proof fn lemma_be32_bytes32(v: int)
    requires
        0 <= v < 0x1_0000_0000,
    ensures
        be32(bytes32(v), 0) == v,
        bytes32(v).len() == 4,
{
    let b = bytes32(v);
    assert(b[0] as int == (v / 0x1000000) % 0x100);
    assert(b[1] as int == (v / 0x10000) % 0x100);
    assert(b[2] as int == (v / 0x100) % 0x100);
    assert(b[3] as int == v % 0x100);
    assert(be32(b, 0) == v) by (nonlinear_arith)
        requires
            0 <= v < 0x1_0000_0000,
            b[0] as int == (v / 0x1000000) % 0x100,
            b[1] as int == (v / 0x10000) % 0x100,
            b[2] as int == (v / 0x100) % 0x100,
            b[3] as int == v % 0x100,
            be32(b, 0) == b[0] as int * 0x1000000 + b[1] as int * 0x10000 + b[2] as int * 0x100
                + b[3] as int,
    ;
}


/// Encoding a 16-bit value and reading it back gives the value.
pub proof fn lemma_be16_bytes16(v: int)
    requires
        0 <= v < 0x1_0000,
    ensures
        be16(bytes16(v), 0) == v,
        bytes16(v).len() == 2,
{
    let b = bytes16(v);
    assert(be16(b, 0) == v) by (nonlinear_arith)
        requires
            0 <= v < 0x1_0000,
            b[0] as int == (v / 0x100) % 0x100,
            b[1] as int == v % 0x100,
            be16(b, 0) == b[0] as int * 0x100 + b[1] as int,
    ;
}

/// Encoding a 24-bit value and reading it back gives the value.
pub proof fn lemma_be24_bytes24(v: int)
    requires
        0 <= v < 0x100_0000,
    ensures
        be24(bytes24(v), 0) == v,
        bytes24(v).len() == 3,
{
    let b = bytes24(v);
    assert(be24(b, 0) == v) by (nonlinear_arith)
        requires
            0 <= v < 0x100_0000,
            b[0] as int == (v / 0x10000) % 0x100,
            b[1] as int == (v / 0x100) % 0x100,
            b[2] as int == v % 0x100,
            be24(b, 0) == b[0] as int * 0x10000 + b[1] as int * 0x100 + b[2] as int,
    ;
}

/// Encoding a 64-bit value and reading it back gives the value.
pub proof fn lemma_be64_bytes64(v: int)
    requires
        0 <= v < 0x1_0000_0000_0000_0000,
    ensures
        be64(bytes64(v), 0) == v,
        bytes64(v).len() == 8,
{
    let hi = v / 0x1_0000_0000;
    let lo = v % 0x1_0000_0000;
    assert(0 <= hi < 0x1_0000_0000 && 0 <= lo < 0x1_0000_0000 && hi * 0x1_0000_0000 + lo == v)
        by (nonlinear_arith)
        requires
            0 <= v < 0x1_0000_0000_0000_0000,
            hi == v / 0x1_0000_0000,
            lo == v % 0x1_0000_0000,
    ;
    lemma_be32_bytes32(hi);
    lemma_be32_bytes32(lo);
    let b = bytes64(v);
    assert(b.subrange(0, 4) =~= bytes32(hi));
    assert(b.subrange(4, 8) =~= bytes32(lo));
    assert(be32(b, 0) == be32(bytes32(hi), 0));
    assert(be32(b, 4) == be32(bytes32(lo), 0));
}

/// Reading four bytes at `i` gives a 32-bit value.
pub proof fn lemma_be32_range(s: Seq<u8>, i: int)
    requires
        0 <= i,
        i + 4 <= s.len(),
    ensures
        0 <= be32(s, i) < 0x1_0000_0000,
{
    let (a, b, c, d) = (s[i] as int, s[i + 1] as int, s[i + 2] as int, s[i + 3] as int);
    assert(0 <= a * 0x1000000 + b * 0x10000 + c * 0x100 + d < 0x1_0000_0000) by (nonlinear_arith)
        requires
            0 <= a < 256,
            0 <= b < 256,
            0 <= c < 256,
            0 <= d < 256,
    ;
}

/// Reading eight bytes at `i` gives a 64-bit value.
pub proof fn lemma_be64_range(s: Seq<u8>, i: int)
    requires
        0 <= i,
        i + 8 <= s.len(),
    ensures
        0 <= be64(s, i) < 0x1_0000_0000_0000_0000,
{
    lemma_be32_range(s, i);
    lemma_be32_range(s, i + 4);
    let (h, l) = (be32(s, i), be32(s, i + 4));
    assert(0 <= h * 0x1_0000_0000 + l < 0x1_0000_0000_0000_0000) by (nonlinear_arith)
        requires
            0 <= h < 0x1_0000_0000,
            0 <= l < 0x1_0000_0000,
    ;
}

} // verus!
