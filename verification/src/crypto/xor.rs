//! Repeating-key XOR transform.

use vstd::prelude::*;

use crate::crypto::error::CryptoError;
use crate::crypto::transform::Transform;
use crate::isobmff::boxes::copy_range;

verus! {

/// `data` XORed with `key` repeated, starting at key position `pos`.
pub open spec fn xor_stream(key: Seq<u8>, pos: int, data: Seq<u8>) -> Seq<u8> {
    Seq::new(data.len(), |i: int| data[i] ^ key[(pos + i) % (key.len() as int)])
}

/// XOR transform that XORs each input byte with a repeating key.
pub struct XorTransform {
    key: Vec<u8>,
    pos: usize,
    out: Vec<u8>,
}

impl XorTransform {
    /// The key.
    pub closed spec fn key(self) -> Seq<u8> {
        self.key@
    }

    /// The key position the next byte is XORed with.
    pub closed spec fn pos(self) -> int {
        self.pos as int
    }

    /// The key is non-empty and the position lies within it.
    #[verifier::type_invariant]
    closed spec fn wf(self) -> bool {
        self.key@.len() > 0 && self.pos < self.key@.len()
    }

    /// Create a new XOR transform with the supplied key.
    pub fn new(key: &[u8]) -> (r: Result<Self, CryptoError>)
        ensures
            key@.len() == 0 ==> r == Err::<Self, CryptoError>(
                CryptoError::InvalidKeyLength { expected: 1, got: 0 },
            ),
            key@.len() > 0 ==> (r matches Ok(t) && t.key() == key@ && t.pos() == 0),
    {
        if key.len() == 0 {
            return Err(CryptoError::InvalidKeyLength { expected: 1, got: 0 });
        }
        let k = copy_range(key, 0, key.len());
        assert(key@.subrange(0, key@.len() as int) =~= key@);
        Ok(XorTransform { key: k, pos: 0, out: Vec::new() })
    }
}

impl Transform for XorTransform {
    /// XOR `data` with the key stream, continuing where the previous call stopped.
    fn update(&mut self, data: &[u8]) -> (r: Result<&[u8], CryptoError>)
        ensures
            final(self).key() == old(self).key(),
            final(self).pos() == (old(self).pos() + data@.len()) % (old(self).key().len() as int),
            r matches Ok(s) && s@ == xor_stream(old(self).key(), old(self).pos(), data@),
    {
        proof {
            use_type_invariant(&*self);
        }
        let mut out: Vec<u8> = Vec::new();
        let key_len = self.key.len();
        let ghost p0 = self.pos as int;
        let ghost k0 = self.key@;
        proof {
            vstd::arithmetic::div_mod::lemma_small_mod(p0 as nat, key_len as nat);
            assert(data@.subrange(0, 0) =~= Seq::<u8>::empty());
            assert(xor_stream(k0, p0, Seq::<u8>::empty()) =~= Seq::<u8>::empty());
        }
        let mut i: usize = 0;
        while i < data.len()
            invariant
                self.key@ == k0,
                k0.len() == key_len > 0,
                self.pos < key_len,
                0 <= p0 < key_len,
                i <= data@.len(),
                self.pos == (p0 + i) % (key_len as int),
                out@ == xor_stream(self.key@, p0, data@.subrange(0, i as int)),
            decreases data@.len() - i,
        {
            let key_byte = self.key[self.pos];
            out.push(data[i] ^ key_byte);
            proof {
                lemma_mod_step(p0 + i, key_len as int);
                assert(out@ =~= xor_stream(self.key@, p0, data@.subrange(0, i + 1)));
            }
            self.pos = if self.pos + 1 == key_len {
                0
            } else {
                self.pos + 1
            };
            i += 1;
        }
        assert(data@.subrange(0, data@.len() as int) =~= data@);
        self.out = out;
        Ok(self.out.as_slice())
    }

    /// XOR has no trailing state: nothing is left to emit.
    fn finalize(&mut self) -> (r: Result<&[u8], CryptoError>)
        ensures
            final(self).key() == old(self).key(),
            final(self).pos() == old(self).pos(),
            r matches Ok(s) && s@.len() == 0,
    {
        proof {
            use_type_invariant(&*self);
        }
        self.out = Vec::new();
        Ok(self.out.as_slice())
    }
}

/// Stepping a position by one wraps it at `k`.
proof fn lemma_mod_step(x: int, k: int)
    requires
        x >= 0,
        k > 0,
    ensures
        (x + 1) % k == if x % k + 1 == k {
            0
        } else {
            x % k + 1
        },
{
    vstd::arithmetic::div_mod::lemma_fundamental_div_mod(x, k);
    let q = x / k;
    let r = x % k;
    assert(x == q * k + r) by (nonlinear_arith)
        requires
            x == k * (x / k) + (x % k),
            q == x / k,
            r == x % k,
    ;
    if r + 1 == k {
        assert(x + 1 == (q + 1) * k + 0) by (nonlinear_arith)
            requires
                x == q * k + r,
                r + 1 == k,
        ;
        vstd::arithmetic::div_mod::lemma_fundamental_div_mod_converse(x + 1, k, q + 1, 0);
    } else {
        vstd::arithmetic::div_mod::lemma_fundamental_div_mod_converse(x + 1, k, q, r + 1);
    }
}

/// XORing twice with the same key stream gives the data back.
pub proof fn lemma_xor_round_trip(key: Seq<u8>, pos: int, data: Seq<u8>)
    requires
        key.len() > 0,
    ensures
        xor_stream(key, pos, xor_stream(key, pos, data)) == data,
{
    assert forall|i: int| 0 <= i < data.len() implies #[trigger] xor_stream(
        key,
        pos,
        xor_stream(key, pos, data),
    )[i] == data[i] by {
        let x = data[i];
        let k = key[(pos + i) % (key.len() as int)];
        assert((x ^ k) ^ k == x) by (bit_vector);
    }
    assert(xor_stream(key, pos, xor_stream(key, pos, data)) =~= data);
}

/// Feeding `a` then `b` gives what feeding `a + b` at once gives: the key
/// position carries across calls.
pub proof fn lemma_xor_chunks(key: Seq<u8>, pos: int, a: Seq<u8>, b: Seq<u8>)
    requires
        key.len() > 0,
        0 <= pos,
    ensures
        xor_stream(key, pos, a) + xor_stream(key, (pos + a.len()) % (key.len() as int), b)
            == xor_stream(key, pos, a + b),
{
    let k = key.len() as int;
    let lhs = xor_stream(key, pos, a) + xor_stream(key, (pos + a.len()) % k, b);
    let rhs = xor_stream(key, pos, a + b);
    assert forall|j: int| 0 <= j < rhs.len() implies #[trigger] lhs[j] == rhs[j] by {
        if j >= a.len() {
            let m = j - a.len();
            vstd::arithmetic::div_mod::lemma_add_mod_noop(pos + a.len(), m, k);
            vstd::arithmetic::div_mod::lemma_mod_twice(m, k);
            vstd::arithmetic::div_mod::lemma_add_mod_noop((pos + a.len()) % k, m, k);
            vstd::arithmetic::div_mod::lemma_mod_twice(pos + a.len(), k);
            assert(((pos + a.len()) % k + m) % k == (pos + j) % k);
        }
    }
    assert(lhs =~= rhs);
}

} // verus!
