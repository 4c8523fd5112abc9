//! CBC decryption with PKCS#7 unpadding, over AES-128 or SM4.

use vstd::prelude::*;

use core::marker::PhantomData;

use crate::crypto::error::CryptoError;
use crate::crypto::transform::Transform;
use crate::isobmff::boxes::{append, copy_range};

verus! {

/// Cipher block size in bytes (both supported ciphers use 128-bit blocks).
pub const BLOCK_SIZE: usize = 16;

/// Key size in bytes (AES-128 and SM4 both take 128-bit keys).
pub const KEY_SIZE: usize = 16;

/// AES-128 decryption of one 16-byte block under a 16-byte key, as the `aes`
/// crate computes it.
pub uninterp spec fn aes128_decrypt(key: Seq<u8>, block: Seq<u8>) -> Seq<u8>;

/// SM4 decryption of one 16-byte block under a 16-byte key, as the `sm4`
/// crate computes it.
pub uninterp spec fn sm4_decrypt(key: Seq<u8>, block: Seq<u8>) -> Seq<u8>;

/// Decrypts one block with `aes::Aes128` (through `cipher::KeyInit::new` and
/// `cipher::BlockCipherDecrypt::decrypt_block`). The contract claims only that
/// the result is the AES-128 decryption of `block` under `key`, a function of
/// the two alone; the cipher itself is not stated.
#[verifier::external_body]
fn aes128_decrypt_block(key: &[u8; 16], block: &[u8; 16]) -> (r: [u8; 16])
    ensures
        r@ == aes128_decrypt(key@, block@),
{
    let c: aes::Aes128 = cipher::KeyInit::new(key.into());
    let mut b: cipher::Block<aes::Aes128> = (*block).into();
    cipher::BlockCipherDecrypt::decrypt_block(&c, &mut b);
    b.into()
}

/// Decrypts one block with `sm4::Sm4` (through `cipher::KeyInit::new` and
/// `cipher::BlockCipherDecrypt::decrypt_block`). The contract claims only that
/// the result is the SM4 decryption of `block` under `key`, a function of the
/// two alone; the cipher itself is not stated.
#[verifier::external_body]
fn sm4_decrypt_block(key: &[u8; 16], block: &[u8; 16]) -> (r: [u8; 16])
    ensures
        r@ == sm4_decrypt(key@, block@),
{
    let c: sm4::Sm4 = cipher::KeyInit::new(key.into());
    let mut b: cipher::Block<sm4::Sm4> = (*block).into();
    cipher::BlockCipherDecrypt::decrypt_block(&c, &mut b);
    b.into()
}

/// A 128-bit block cipher usable in CBC mode.
pub trait CbcCipher {
    /// Decryption of one block under `key`.
    spec fn decrypt_spec(key: Seq<u8>, block: Seq<u8>) -> Seq<u8>;

    /// Decrypt one block under `key`.
    fn decrypt_block(key: &[u8; 16], block: &[u8; 16]) -> (r: [u8; 16])
        ensures
            r@ == Self::decrypt_spec(key@, block@),
    ;
}

/// The AES-128 block cipher.
pub struct Aes128;

/// The SM4 block cipher.
pub struct Sm4;

impl CbcCipher for Aes128 {
    open spec fn decrypt_spec(key: Seq<u8>, block: Seq<u8>) -> Seq<u8> {
        aes128_decrypt(key, block)
    }

    fn decrypt_block(key: &[u8; 16], block: &[u8; 16]) -> (r: [u8; 16]) {
        aes128_decrypt_block(key, block)
    }
}

impl CbcCipher for Sm4 {
    open spec fn decrypt_spec(key: Seq<u8>, block: Seq<u8>) -> Seq<u8> {
        sm4_decrypt(key, block)
    }

    fn decrypt_block(key: &[u8; 16], block: &[u8; 16]) -> (r: [u8; 16]) {
        sm4_decrypt_block(key, block)
    }
}

/// Byte-wise XOR of two equally long sequences.
pub open spec fn xor_bytes(a: Seq<u8>, b: Seq<u8>) -> Seq<u8> {
    Seq::new(a.len(), |i: int| a[i] ^ b[i])
}

/// The `j`-th 16-byte block of `ct`.
pub open spec fn block_of(ct: Seq<u8>, j: int) -> Seq<u8> {
    ct.subrange(16 * j, 16 * j + 16)
}

/// The block XORed into the decryption of block `j`: the IV for the first
/// block, the previous ciphertext block for the others.
pub open spec fn chain_of(iv: Seq<u8>, ct: Seq<u8>, j: int) -> Seq<u8> {
    if j == 0 {
        iv
    } else {
        block_of(ct, j - 1)
    }
}

/// CBC decryption of the first `n` blocks of `ct`.
pub open spec fn cbc_plain<C: CbcCipher>(key: Seq<u8>, iv: Seq<u8>, ct: Seq<u8>, n: nat) -> Seq<u8>
    decreases n,
{
    if n == 0 {
        Seq::empty()
    } else {
        cbc_plain::<C>(key, iv, ct, (n - 1) as nat) + xor_bytes(
            C::decrypt_spec(key, block_of(ct, n - 1)),
            chain_of(iv, ct, n - 1),
        )
    }
}

/// How many blocks `update` decrypts out of `len` buffered bytes: all but the
/// last full block, which may be the padding block.
pub open spec fn blocks_to_decrypt(len: int) -> nat {
    if len >= 32 {
        ((len - 16) / 16) as nat
    } else {
        0
    }
}

/// PKCS#7 unpadding of a final block: the plaintext length, or `BadPadding`.
pub open spec fn pkcs7_spec(block: Seq<u8>) -> Result<usize, CryptoError> {
    if block.len() == 0 {
        Err(CryptoError::BadPadding)
    } else {
        let last = block.last();
        let pad = last as int;
        if pad == 0 || pad > block.len() {
            Err(CryptoError::BadPadding)
        } else if forall|i: int| block.len() - pad <= i < block.len() ==> block[i] == last {
            Ok((block.len() - pad) as usize)
        } else {
            Err(CryptoError::BadPadding)
        }
    }
}

/// PKCS#7 unpad for a single final block. Returns the plaintext length within the
/// block, or `BadPadding` if the padding is invalid.
pub fn pkcs7_unpad(block: &[u8]) -> (r: Result<usize, CryptoError>)
    ensures
        r == pkcs7_spec(block@),
{
    if block.len() == 0 {
        return Err(CryptoError::BadPadding);
    }
    let last = block[block.len() - 1];
    let pad_len = last as usize;
    if pad_len == 0 || pad_len > block.len() {
        return Err(CryptoError::BadPadding);
    }
    let start = block.len() - pad_len;
    let mut i = start;
    while i < block.len()
        invariant
            start <= i <= block@.len(),
            last == block@.last(),
            start == block@.len() - (last as int),
            forall|j: int| start <= j < i ==> block@[j] == last,
        decreases block@.len() - i,
    {
        if block[i] != last {
            assert(block@[i as int] != block@.last());
            assert(block@.len() - (last as int) <= i < block@.len());
            return Err(CryptoError::BadPadding);
        }
        i += 1;
    }
    Ok(start)
}

/// A 16-byte array holding `s`.
fn to_block(s: &[u8]) -> (r: [u8; 16])
    requires
        s@.len() == 16,
    ensures
        r@ == s@,
{
    let mut r = [0u8; 16];
    let mut i: usize = 0;
    while i < 16
        invariant
            i <= 16,
            s@.len() == 16,
            forall|j: int| 0 <= j < i ==> r@[j] == s@[j],
        decreases 16 - i,
    {
        r[i] = s[i];
        i += 1;
    }
    assert(r@ =~= s@);
    r
}

/// Appends `a XOR b` to `out`.
fn push_xor(out: &mut Vec<u8>, a: &[u8; 16], b: &[u8; 16])
    ensures
        final(out)@ == old(out)@ + xor_bytes(a@, b@),
{
    let ghost start = out@;
    let mut i: usize = 0;
    while i < 16
        invariant
            i <= 16,
            out@ == start + xor_bytes(a@, b@).subrange(0, i as int),
        decreases 16 - i,
    {
        out.push(a[i] ^ b[i]);
        assert(out@ =~= start + xor_bytes(a@, b@).subrange(0, i + 1));
        i += 1;
    }
    assert(xor_bytes(a@, b@).subrange(0, 16) =~= xor_bytes(a@, b@));
}

/// CBC decryption transform for a 128-bit block cipher.
pub struct CbcTransform<C: CbcCipher> {
    key: [u8; 16],
    iv: [u8; 16],
    buf: Vec<u8>,
    out: Vec<u8>,
    finalized: bool,
    cipher: PhantomData<C>,
}

/// AES-128-CBC decryption transform.
pub type Aes128CbcTransform = CbcTransform<Aes128>;

/// SM4-CBC decryption transform.
pub type Sm4CbcTransform = CbcTransform<Sm4>;

impl<C: CbcCipher> CbcTransform<C> {
    /// The key.
    pub closed spec fn key(self) -> Seq<u8> {
        self.key@
    }

    /// The block chained into the next decryption: the IV, then the last
    /// ciphertext block decrypted.
    pub closed spec fn chain(self) -> Seq<u8> {
        self.iv@
    }

    /// Ciphertext received but not decrypted yet.
    pub closed spec fn pending(self) -> Seq<u8> {
        self.buf@
    }

    /// `finalize` has been called.
    pub closed spec fn is_finalized(self) -> bool {
        self.finalized
    }

    /// Create a new CBC transform with the supplied key and IV.
    pub fn new(key: &[u8], iv: &[u8]) -> (r: Result<Self, CryptoError>)
        ensures
            key@.len() != 16 ==> r == Err::<Self, CryptoError>(
                CryptoError::InvalidKeyLength { expected: 16, got: key@.len() as usize },
            ),
            key@.len() == 16 && iv@.len() != 16 ==> r == Err::<Self, CryptoError>(
                CryptoError::InvalidIvLength { expected: 16, got: iv@.len() as usize },
            ),
            key@.len() == 16 && iv@.len() == 16 ==> (r matches Ok(t) && t.key() == key@ && t.chain()
                == iv@ && t.pending().len() == 0 && !t.is_finalized()),
    {
        if key.len() != KEY_SIZE {
            return Err(CryptoError::InvalidKeyLength { expected: KEY_SIZE, got: key.len() });
        }
        if iv.len() != BLOCK_SIZE {
            return Err(CryptoError::InvalidIvLength { expected: BLOCK_SIZE, got: iv.len() });
        }
        Ok(
            CbcTransform {
                key: to_block(key),
                iv: to_block(iv),
                buf: Vec::new(),
                out: Vec::new(),
                finalized: false,
                cipher: PhantomData,
            },
        )
    }
}

impl<C: CbcCipher> Transform for CbcTransform<C> {
    /// Buffer `data` and decrypt every complete block but the last one held.
    fn update(&mut self, data: &[u8]) -> (r: Result<&[u8], CryptoError>)
        ensures
            old(self).is_finalized() ==> r == Err::<&[u8], CryptoError>(
                CryptoError::AlreadyFinalized,
            ) && *final(self) == *old(self),
            !old(self).is_finalized() ==> ({
                let total = old(self).pending() + data@;
                let n = blocks_to_decrypt(total.len() as int);
                &&& r matches Ok(s) && s@ == cbc_plain::<C>(
                    old(self).key(),
                    old(self).chain(),
                    total,
                    n,
                )
                &&& final(self).pending() == total.subrange(16 * (n as int), total.len() as int)
                &&& final(self).chain() == chain_of(old(self).chain(), total, n as int)
                &&& final(self).key() == old(self).key()
                &&& !final(self).is_finalized()
            }),
    {
        if self.finalized {
            return Err(CryptoError::AlreadyFinalized);
        }
        let ghost iv0 = self.iv@;
        let ghost key0 = self.key@;
        append(&mut self.buf, data);
        let ghost total = self.buf@;
        let mut out: Vec<u8> = Vec::new();
        let mut consumed: usize = 0;
        let ghost mut j: nat = 0;
        while self.buf.len() - consumed >= 32
            invariant
                self.buf@ == total,
                self.key@ == key0,
                !self.finalized,
                consumed == 16 * j,
                consumed <= total.len(),
                j <= blocks_to_decrypt(total.len() as int),
                out@ == cbc_plain::<C>(self.key@, iv0, total, j),
                self.iv@ == chain_of(iv0, total, j as int),
            decreases total.len() - consumed,
        {
            let ct = to_block(crate::isobmff::boxes::slice_range(
                self.buf.as_slice(),
                consumed,
                consumed + 16,
            ));
            let pt = C::decrypt_block(&self.key, &ct);
            push_xor(&mut out, &pt, &self.iv);
            self.iv = ct;
            proof {
                j = j + 1;
            }
            consumed += 16;
        }
        proof {
            let len = total.len() as int;
            assert(j == blocks_to_decrypt(len)) by (nonlinear_arith)
                requires
                    len - 16 * j < 32,
                    j <= blocks_to_decrypt(len),
                    blocks_to_decrypt(len) == if len >= 32 {
                        ((len - 16) / 16) as nat
                    } else {
                        0
                    },
            ;
        }
        let rest = copy_range(self.buf.as_slice(), consumed, self.buf.len());
        self.buf = rest;
        self.out = out;
        Ok(self.out.as_slice())
    }

    /// Decrypt the held final block and strip its PKCS#7 padding.
    fn finalize(&mut self) -> (r: Result<&[u8], CryptoError>)
        ensures
            old(self).is_finalized() ==> r == Err::<&[u8], CryptoError>(
                CryptoError::AlreadyFinalized,
            ) && *final(self) == *old(self),
            !old(self).is_finalized() ==> final(self).is_finalized() && ({
                let p = old(self).pending();
                let pt = xor_bytes(C::decrypt_spec(old(self).key(), p), old(self).chain());
                if p.len() == 0 {
                    r matches Ok(s) && s@.len() == 0
                } else if p.len() != 16 {
                    r == Err::<&[u8], CryptoError>(CryptoError::InvalidInputLength)
                } else {
                    match pkcs7_spec(pt) {
                        Ok(n) => r matches Ok(s) && s@ == pt.subrange(0, n as int),
                        Err(e) => r == Err::<&[u8], CryptoError>(e),
                    }
                }
            }),
    {
        if self.finalized {
            return Err(CryptoError::AlreadyFinalized);
        }
        self.finalized = true;
        self.out = Vec::new();
        if self.buf.len() == 0 {
            return Ok(self.out.as_slice());
        }
        if self.buf.len() != BLOCK_SIZE {
            return Err(CryptoError::InvalidInputLength);
        }
        let ct = to_block(self.buf.as_slice());
        let dec = C::decrypt_block(&self.key, &ct);
        let mut pt: Vec<u8> = Vec::new();
        push_xor(&mut pt, &dec, &self.iv);
        assert(Seq::<u8>::empty() + xor_bytes(dec@, self.iv@) =~= xor_bytes(dec@, self.iv@));
        self.iv = ct;
        let n = pkcs7_unpad(pt.as_slice())?;
        self.out = copy_range(pt.as_slice(), 0, n);
        Ok(self.out.as_slice())
    }
}

/// Decrypting `a + b` blocks at once gives the first `a` blocks followed by
/// the next `b` decrypted from where the first run left the chain: the
/// outputs of successive `update` calls concatenate to one decryption.
pub proof fn lemma_cbc_split<C: CbcCipher>(
    key: Seq<u8>,
    iv: Seq<u8>,
    ct: Seq<u8>,
    a: nat,
    b: nat,
)
    requires
        16 * (a + b) <= ct.len(),
    ensures
        cbc_plain::<C>(key, iv, ct, a + b) == cbc_plain::<C>(key, iv, ct, a) + cbc_plain::<C>(
            key,
            chain_of(iv, ct, a as int),
            ct.subrange(16 * (a as int), ct.len() as int),
            b,
        ),
    decreases b,
{
    let rest = ct.subrange(16 * (a as int), ct.len() as int);
    if b == 0 {
        assert(cbc_plain::<C>(key, iv, ct, a) + Seq::<u8>::empty() =~= cbc_plain::<C>(
            key,
            iv,
            ct,
            a,
        ));
    } else {
        lemma_cbc_split::<C>(key, iv, ct, a, (b - 1) as nat);
        let k = (b - 1) as int;
        assert(block_of(rest, k) =~= block_of(ct, a + k));
        if k > 0 {
            assert(block_of(rest, k - 1) =~= block_of(ct, a + k - 1));
        }
        assert(chain_of(chain_of(iv, ct, a as int), rest, k) == chain_of(iv, ct, a + k));
        let x = cbc_plain::<C>(key, iv, ct, a);
        let y = cbc_plain::<C>(key, chain_of(iv, ct, a as int), rest, (b - 1) as nat);
        let z = xor_bytes(C::decrypt_spec(key, block_of(ct, a + k)), chain_of(iv, ct, a + k));
        assert((x + y) + z =~= x + (y + z));
        assert((a + b - 1) as nat == a + (b - 1) as nat);
    }
}

} // verus!
