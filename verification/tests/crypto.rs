use cheetah_containers::crypto::cbc::{pkcs7_unpad, Aes128CbcTransform, Sm4CbcTransform};
use cheetah_containers::crypto::error::CryptoError;
use cheetah_containers::crypto::transform::Transform;
use cheetah_containers::crypto::xor::XorTransform;
use cipher::{BlockCipherEncrypt, KeyInit};

fn pkcs7_pad(block_size: usize, data: &[u8]) -> Vec<u8> {
    let pad_len = block_size - (data.len() % block_size);
    let mut out = data.to_vec();
    out.resize(data.len() + pad_len, pad_len as u8);
    out
}

fn cbc_encrypt<C: BlockCipherEncrypt>(cipher: &C, iv: &[u8], plaintext: &[u8]) -> Vec<u8> {
    let padded = pkcs7_pad(16, plaintext);
    let mut prev: [u8; 16] = iv.try_into().unwrap();
    let mut out = Vec::new();
    for block in padded.chunks(16) {
        let mut b: [u8; 16] = block.try_into().unwrap();
        for (x, p) in b.iter_mut().zip(prev.iter()) {
            *x ^= p;
        }
        let mut block_array = cipher::Block::<C>::default();
        block_array.as_mut_slice().copy_from_slice(&b);
        cipher.encrypt_block(&mut block_array);
        let ct = block_array.as_slice();
        out.extend_from_slice(ct);
        prev.copy_from_slice(ct);
    }
    out
}

fn aes128_cbc_encrypt(key: &[u8], iv: &[u8], plaintext: &[u8]) -> Vec<u8> {
    let k: [u8; 16] = key.try_into().unwrap();
    let cipher = aes::Aes128::new(&k.into());
    cbc_encrypt(&cipher, iv, plaintext)
}

fn sm4_cbc_encrypt(key: &[u8], iv: &[u8], plaintext: &[u8]) -> Vec<u8> {
    let k: [u8; 16] = key.try_into().unwrap();
    let cipher = sm4::Sm4::new(&k.into());
    cbc_encrypt(&cipher, iv, plaintext)
}

#[test]
fn round_trip_with_repeating_key() {
    let key = b"abc";
    let plaintext = b"hello world";
    let mut enc = XorTransform::new(key).unwrap();
    let ciphertext = enc.update(plaintext).unwrap().to_vec();
    let mut dec = XorTransform::new(key).unwrap();
    let decrypted = dec.update(&ciphertext).unwrap();
    assert_eq!(decrypted, plaintext);
}

#[test]
fn rejects_empty_key() {
    assert!(matches!(
        XorTransform::new(b""),
        Err(CryptoError::InvalidKeyLength { expected: 1, got: 0 })
    ));
}

#[test]
fn incremental_xor_state_carries_across_updates() {
    let key = b"abc";
    let mut full = XorTransform::new(key).unwrap();
    let expected = full.update(b"hello world").unwrap().to_vec();

    let mut incremental = XorTransform::new(key).unwrap();
    let mut out = Vec::new();
    for chunk in ["he", "ll", "o ", "wo", "rl", "d"] {
        out.extend_from_slice(incremental.update(chunk.as_bytes()).unwrap());
    }
    assert_eq!(out, expected);
}

#[test]
fn incremental_xor_matches_one_shot() {
    let key = b"secret";
    let data = b"the quick brown fox jumps over the lazy dog";
    let mut full = XorTransform::new(key).unwrap();
    let expected = full.update(data).unwrap().to_vec();

    let mut incremental = XorTransform::new(key).unwrap();
    let mut output = Vec::new();
    for chunk in data.chunks(7) {
        output.extend_from_slice(incremental.update(chunk).unwrap());
    }
    assert_eq!(output, expected);
}

#[test]
fn xor_known_bytes_and_empty_finalize() {
    let mut t = XorTransform::new(&[0x0f, 0xf0]).unwrap();
    assert_eq!(t.update(&[0x00, 0x00, 0xff]).unwrap(), &[0x0f, 0xf0, 0xf0]);
    assert_eq!(t.update(&[0x00]).unwrap(), &[0xf0]);
    assert!(t.finalize().unwrap().is_empty());
}

#[test]
fn aes128_cbc_round_trip_in_chunks() {
    let key = b"abcdefghijklmnop";
    let iv = b"1234567890123456";
    let plaintext = b"hello, aes-128-cbc world!";
    let ciphertext = aes128_cbc_encrypt(key, iv, plaintext);

    let mut transform = Aes128CbcTransform::new(key, iv).unwrap();
    let mut out = Vec::new();
    for chunk in ciphertext.chunks(5) {
        out.extend_from_slice(transform.update(chunk).unwrap());
    }
    out.extend_from_slice(transform.finalize().unwrap());
    assert_eq!(out, plaintext);
}

#[test]
fn sm4_cbc_round_trip() {
    let key = b"0123456789abcdef";
    let iv = b"fedcba9876543210";
    let plaintext = b"SM4 CBC plaintext";
    let ciphertext = sm4_cbc_encrypt(key, iv, plaintext);

    let mut transform = Sm4CbcTransform::new(key, iv).unwrap();
    let decrypted = transform.update(&ciphertext).unwrap().to_vec();
    let final_decrypted = transform.finalize().unwrap();
    let mut full = decrypted;
    full.extend_from_slice(final_decrypted);
    assert_eq!(full, plaintext);
}

#[test]
fn aes128_rejects_invalid_key_or_iv() {
    assert!(Aes128CbcTransform::new(b"short", b"1234567890123456").is_err());
    assert!(Aes128CbcTransform::new(b"0123456789abcdef", b"short").is_err());
    assert!(matches!(
        Aes128CbcTransform::new(b"short", b"1234567890123456"),
        Err(CryptoError::InvalidKeyLength { expected: 16, got: 5 })
    ));
    assert!(matches!(
        Aes128CbcTransform::new(b"0123456789abcdef", b"short"),
        Err(CryptoError::InvalidIvLength { expected: 16, got: 5 })
    ));
}

#[test]
fn aes128_rejects_bad_padding() {
    let key = b"0123456789abcdef";
    let iv = b"1234567890123456";
    let bad = [0u8; 16];
    let mut transform = Aes128CbcTransform::new(key, iv).unwrap();
    assert!(transform.update(&bad).is_ok());
    assert!(transform.finalize().is_err());
}

#[test]
fn aes128_empty_input() {
    let key = b"0123456789abcdef";
    let iv = b"1234567890123456";
    let mut transform = Aes128CbcTransform::new(key, iv).unwrap();
    assert!(transform.update(b"").unwrap().is_empty());
    assert!(transform.finalize().unwrap().is_empty());
}

#[test]
fn aes128_known_vector_nist_sp800_38a() {
    let key: [u8; 16] = [
        0x2b, 0x7e, 0x15, 0x16, 0x28, 0xae, 0xd2, 0xa6, 0xab, 0xf7, 0x15, 0x88, 0x09, 0xcf, 0x4f,
        0x3c,
    ];
    let iv: [u8; 16] = [
        0x00, 0x01, 0x02, 0x03, 0x04, 0x05, 0x06, 0x07, 0x08, 0x09, 0x0a, 0x0b, 0x0c, 0x0d, 0x0e,
        0x0f,
    ];
    let plaintext: [u8; 16] = [
        0x6b, 0xc1, 0xbe, 0xe2, 0x2e, 0x40, 0x9f, 0x96, 0xe9, 0x3d, 0x7e, 0x11, 0x73, 0x93, 0x17,
        0x2a,
    ];
    let enc_ciphertext = aes128_cbc_encrypt(&key, &iv, &plaintext);
    let expected_first_block: [u8; 16] = [
        0x76, 0x49, 0xab, 0xac, 0x81, 0x19, 0xb2, 0x46, 0xce, 0xe9, 0x8e, 0x9b, 0x12, 0xe9, 0x19,
        0x7d,
    ];
    assert_eq!(&enc_ciphertext[..16], &expected_first_block[..]);

    let mut transform = Aes128CbcTransform::new(&key, &iv).unwrap();
    let mut dec = Vec::new();
    for chunk in enc_ciphertext.chunks(7) {
        dec.extend_from_slice(transform.update(chunk).unwrap());
    }
    dec.extend_from_slice(transform.finalize().unwrap());
    assert_eq!(dec, plaintext);
}

#[test]
fn cbc_finalize_twice_and_partial_blocks() {
    let key = b"0123456789abcdef";
    let iv = b"1234567890123456";
    let mut t = Aes128CbcTransform::new(key, iv).unwrap();
    assert!(t.update(&[1, 2, 3]).unwrap().is_empty());
    assert_eq!(t.finalize(), Err(CryptoError::InvalidInputLength));
    assert_eq!(t.finalize(), Err(CryptoError::AlreadyFinalized));
    assert_eq!(t.update(&[1]), Err(CryptoError::AlreadyFinalized));
}

#[test]
fn pkcs7_unpad_cases() {
    let mut block = [7u8; 16];
    block[15] = 3;
    block[14] = 3;
    block[13] = 3;
    assert_eq!(pkcs7_unpad(&block), Ok(13));
    block[14] = 4;
    assert_eq!(pkcs7_unpad(&block), Err(CryptoError::BadPadding));
    assert_eq!(pkcs7_unpad(&[]), Err(CryptoError::BadPadding));
    assert_eq!(pkcs7_unpad(&[0u8; 16]), Err(CryptoError::BadPadding));
    assert_eq!(pkcs7_unpad(&[17u8; 16]), Err(CryptoError::BadPadding));
    assert_eq!(pkcs7_unpad(&[16u8; 16]), Ok(0));
}
