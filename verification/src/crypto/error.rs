//! Errors returned by decryption transforms.

use vstd::prelude::*;

verus! {

/// Errors returned by decryption transforms.
#[derive(Debug, Clone, Copy, PartialEq, Eq)]
pub enum CryptoError {
    /// The provided key length did not match the algorithm's required length.
    InvalidKeyLength { expected: usize, got: usize },
    /// The provided IV length did not match the algorithm's required length.
    InvalidIvLength { expected: usize, got: usize },
    /// The input length was not a valid multiple of the cipher block size.
    InvalidInputLength,
    /// PKCS#7 padding was malformed or inconsistent.
    BadPadding,
    /// `finalize` has already been called on this transform instance.
    AlreadyFinalized,
}

} // verus!
