//! The outside calls change their inputs as their crates document.

use audiostego::cli::EccMode;
use audiostego::dsp::sync::{key_seed, preamble_bits};
use audiostego::payload::bits;
use audiostego::payload::error::PayloadError;
use audiostego::payload::{crypto, ecc};
use audiostego::strategy::{frame_pn_bits, frame_rng_seed};

fn hex(b: &[u8]) -> String {
    b.iter().map(|x| format!("{x:02x}")).collect()
}

#[test]
fn crc_trailer_is_crc32_little_endian() {
    let p = ecc::protect(b"abc", EccMode::Crc).unwrap();
    assert_eq!(p, vec![b'a', b'b', b'c', 0xc2, 0x41, 0x24, 0x35]);
}

#[test]
fn derived_key_is_sha256_of_domain_and_secret() {
    assert_eq!(
        hex(&crypto::derive_key(b"k")),
        "cfd92ea8f7606d054450836c7c5cc70537ec1b4183338cbaff466f77b1517c9f"
    );
    assert_eq!(
        hex(&key_seed(b"k", b"preamble")),
        "ee61a0dbe7e96ab8d62b455b3d24c3eda9ef2c755e2362da38ed2de2844595fb"
    );
}

#[test]
fn sealing_hides_the_plaintext_and_adds_a_tag() {
    let pt = b"plain text here";
    let blob = crypto::encrypt(b"key", pt).unwrap();
    assert_eq!(blob.len(), 12 + pt.len() + 16);
    assert_ne!(&blob[12..12 + pt.len()], pt);
    let mut tampered = blob.clone();
    tampered[14] ^= 1;
    assert_eq!(
        crypto::decrypt(b"key", &tampered).unwrap_err(),
        PayloadError::DecryptFailed
    );
    assert_eq!(
        crypto::decrypt(b"key", &blob[..27]).unwrap_err(),
        PayloadError::CiphertextTooShort
    );
}

#[test]
fn reed_solomon_adds_parity_and_corrects() {
    let msg = b"parity please";
    let p = ecc::protect(msg, EccMode::ReedSolomon { parity: 8 }).unwrap();
    // Length byte, framed body (2 + 13 + 4 bytes), 8 parity bytes.
    assert_eq!(p.len(), 1 + 19 + 8);
    assert_eq!(p[0], 19);
    let mut hit = p.clone();
    hit[5] ^= 0xff;
    assert_eq!(ecc::recover(&hit, EccMode::ReedSolomon { parity: 8 }).unwrap(), msg);
    assert_eq!(
        ecc::protect(msg, EccMode::ReedSolomon { parity: 255 }).unwrap_err(),
        PayloadError::RsParityTooLarge
    );
}

#[test]
fn ecc_error_variants() {
    assert_eq!(
        ecc::recover(&[1, 2], EccMode::Crc).unwrap_err(),
        PayloadError::CrcTooShort
    );
    let mut bad = ecc::protect(b"xyz", EccMode::Crc).unwrap();
    bad[0] ^= 1;
    assert!(matches!(
        ecc::recover(&bad, EccMode::Crc).unwrap_err(),
        PayloadError::CrcMismatch { .. }
    ));
    assert_eq!(
        ecc::recover(&[30, 1, 2], EccMode::ReedSolomon { parity: 8 }).unwrap_err(),
        PayloadError::RsTruncated
    );
    assert_eq!(
        PayloadError::CrcMismatch { expected: 0x10, got: 0xab }.message(),
        "CRC mismatch (expected 0x10, got 0xab)"
    );
}

#[test]
fn bit_buffer_holds_msb_first_bits() {
    let bv = bits::bytes_to_bits(&[0b1000_0001, 0x0f]);
    assert_eq!(bits::bits_to_bytes(&bv), vec![0b1000_0001, 0x0f]);
    assert_eq!(
        bits::bytes_to_bools(&[0b1000_0001]),
        vec![true, false, false, false, false, false, false, true]
    );
}

#[test]
fn keyed_streams_depend_on_key_and_frame() {
    let a = preamble_bits(b"k1", 64);
    assert_eq!(a.len(), 64);
    assert_eq!(a, preamble_bits(b"k1", 64));
    assert_ne!(a, preamble_bits(b"k2", 64));
    assert!(a.iter().any(|&b| b) && a.iter().any(|&b| !b));
    let s0 = frame_rng_seed(b"key", 0, b"diff");
    let s1 = frame_rng_seed(b"key", 1, b"diff");
    assert_eq!(s0.len(), 32);
    assert_ne!(s0, s1);
    assert_ne!(frame_pn_bits(b"key", 0, b"x", 40), frame_pn_bits(b"key", 1, b"x", 40));
}

/// One Reed-Solomon block (parity 8) carrying `stream`, as `protect` lays
/// blocks out: the length byte, then the codeword.
fn rs_block(stream: &[u8]) -> Vec<u8> {
    let encoded = reed_solomon::Encoder::new(8).encode(stream);
    let mut v = vec![stream.len() as u8];
    v.extend_from_slice(&encoded[..]);
    v
}

#[test]
fn reed_solomon_stream_error_variants() {
    let mode = EccMode::ReedSolomon { parity: 8 };
    assert_eq!(
        ecc::recover(&rs_block(&[5]), mode).unwrap_err(),
        PayloadError::RsFramedTooShort
    );
    assert_eq!(
        ecc::recover(&rs_block(&[10, 0, 1, 2]), mode).unwrap_err(),
        PayloadError::RsLengthExceeds
    );
    assert_eq!(
        ecc::recover(&rs_block(&[2, 0, 1, 2]), mode).unwrap_err(),
        PayloadError::RsBodyTooShort
    );
    assert_eq!(
        ecc::recover(&rs_block(&[5, 0, 1, 0, 0, 0, 0]), mode).unwrap_err(),
        PayloadError::RsCrcMismatch
    );
    let mut wrecked = ecc::protect(b"too many errors here", mode).unwrap();
    for i in 1..12 {
        wrecked[i] ^= 0x5a;
    }
    assert_eq!(ecc::recover(&wrecked, mode).unwrap_err(), PayloadError::RsDecode);
}
