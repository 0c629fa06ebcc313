//! Why a payload could not be protected, recovered, encrypted or decrypted.

use crate::text::{alt_hex_str, push_alt_hex};
use vstd::prelude::*;

verus! {

#[derive(Debug, Clone, Copy, PartialEq, Eq, Structural)]
pub enum PayloadError {
    /// A CRC-protected payload shorter than its checksum.
    CrcTooShort,
    /// The stored checksum differs from the one computed over the body.
    CrcMismatch { expected: u32, got: u32 },
    /// Reed-Solomon parity leaves no room for data in a 255-byte block.
    RsParityTooLarge,
    /// A Reed-Solomon block runs past the end of the data.
    RsTruncated,
    /// A Reed-Solomon block has more errors than the parity corrects.
    RsDecode,
    /// The corrected Reed-Solomon stream is shorter than its length prefix.
    RsFramedTooShort,
    /// The length prefix announces more bytes than were recovered.
    RsLengthExceeds,
    /// The recovered body is shorter than its checksum.
    RsBodyTooShort,
    /// The checksum inside the Reed-Solomon body does not match.
    RsCrcMismatch,
    /// The AEAD refused to encrypt.
    EncryptFailed,
    /// An encrypted payload shorter than its nonce and tag.
    CiphertextTooShort,
    /// Authentication failed: wrong key or corrupted payload.
    DecryptFailed,
}

pub open spec fn payload_error_message(e: PayloadError) -> Seq<char> {
    match e {
        PayloadError::CrcTooShort => "crc payload too short"@,
        PayloadError::CrcMismatch { expected, got } => "CRC mismatch (expected "@ + alt_hex_str(
            expected as nat,
        ) + ", got "@ + alt_hex_str(got as nat) + ")"@,
        PayloadError::RsParityTooLarge => "RS parity too large"@,
        PayloadError::RsTruncated => "truncated RS block"@,
        PayloadError::RsDecode => "RS decode failed: TooManyErrors"@,
        PayloadError::RsFramedTooShort => "RS framed payload too short"@,
        PayloadError::RsLengthExceeds => "RS length prefix exceeds data"@,
        PayloadError::RsBodyTooShort => "RS recovered body too short"@,
        PayloadError::RsCrcMismatch => "CRC after RS mismatch"@,
        PayloadError::EncryptFailed => "encrypt: aead::Error"@,
        PayloadError::CiphertextTooShort => "ciphertext too short"@,
        PayloadError::DecryptFailed => "decrypt failed (bad key or corrupt payload): aead::Error"@,
    }
}

impl PayloadError {
    /// The error's message.
    pub fn message(&self) -> (r: String)
        ensures
            r@ == payload_error_message(*self),
    {
        match self {
            PayloadError::CrcTooShort => String::from_str("crc payload too short"),
            PayloadError::CrcMismatch { expected, got } => {
                let mut out = String::from_str("CRC mismatch (expected ");
                push_alt_hex(&mut out, *expected);
                out.append(", got ");
                push_alt_hex(&mut out, *got);
                out.append(")");
                out
            },
            PayloadError::RsParityTooLarge => String::from_str("RS parity too large"),
            PayloadError::RsTruncated => String::from_str("truncated RS block"),
            PayloadError::RsDecode => String::from_str("RS decode failed: TooManyErrors"),
            PayloadError::RsFramedTooShort => String::from_str("RS framed payload too short"),
            PayloadError::RsLengthExceeds => String::from_str("RS length prefix exceeds data"),
            PayloadError::RsBodyTooShort => String::from_str("RS recovered body too short"),
            PayloadError::RsCrcMismatch => String::from_str("CRC after RS mismatch"),
            PayloadError::EncryptFailed => String::from_str("encrypt: aead::Error"),
            PayloadError::CiphertextTooShort => String::from_str("ciphertext too short"),
            PayloadError::DecryptFailed => String::from_str(
                "decrypt failed (bad key or corrupt payload): aead::Error",
            ),
        }
    }
}

} // verus!
