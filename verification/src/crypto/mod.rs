//! Sans-I/O segment decryption transforms: repeating-key XOR and CBC with
//! AES-128 or SM4.

pub mod cbc;
pub mod error;
pub mod transform;
pub mod xor;
