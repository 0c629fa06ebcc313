//! Optional ChaCha20-Poly1305 payload encryption under a key derived from
//! the shared secret by SHA-256, with a nonce derived from the key and the
//! plaintext length (so that embedding is reproducible).

use crate::outside::{chacha_open, chacha_open_spec, chacha_seal, chacha_sealed, sha256, sha256_digest};
use crate::payload::ecc::append_slice;
use crate::payload::error::PayloadError;
use vstd::bytes::{spec_u64_to_le_bytes, u64_to_le_bytes};
use vstd::prelude::*;
use vstd::slice::slice_subrange;
use vstd::string::StringSliceAdditionalSpecFns;

verus! {

/// The domain string hashed in front of the key material.
pub open spec fn aead_domain() -> Seq<u8> {
    "audiostego-aead-v1".spec_bytes()
}

/// The domain string hashed in front of the derived key for the nonce.
pub open spec fn nonce_domain() -> Seq<u8> {
    "nonce".spec_bytes()
}

/// The 32-byte AEAD key derived from the shared secret.
pub open spec fn derive_key_spec(key_material: Seq<u8>) -> Seq<u8> {
    sha256_digest(aead_domain() + key_material)
}

/// The 12-byte nonce: the head of a digest of the derived key and the
/// plaintext length.
pub open spec fn nonce_spec(key_material: Seq<u8>, len: nat) -> Seq<u8> {
    sha256_digest(nonce_domain() + derive_key_spec(key_material) + spec_u64_to_le_bytes(
        len as u64,
    )).take(12)
}

/// What `encrypt` produces: the nonce followed by the sealed plaintext.
pub open spec fn encrypt_spec(key_material: Seq<u8>, pt: Seq<u8>) -> Result<Seq<u8>, PayloadError> {
    if pt.len() / 64 < 0xFFFF_FFFF {
        let nonce = nonce_spec(key_material, pt.len());
        Ok(nonce + chacha_sealed(derive_key_spec(key_material), nonce, pt))
    } else {
        Err(PayloadError::EncryptFailed)
    }
}

/// What `decrypt` gives.
pub open spec fn decrypt_spec(key_material: Seq<u8>, blob: Seq<u8>) -> Result<Seq<u8>, PayloadError> {
    if blob.len() < 12 + 16 {
        Err(PayloadError::CiphertextTooShort)
    } else {
        match chacha_open_spec(derive_key_spec(key_material), blob.take(12), blob.skip(12)) {
            Some(p) => Ok(p),
            None => Err(PayloadError::DecryptFailed),
        }
    }
}

/// The AEAD key for `key_material`.
pub fn derive_key(key_material: &[u8]) -> (r: Vec<u8>)
    ensures
        r@ == derive_key_spec(key_material@),
        r@.len() == 32,
{
    let mut input: Vec<u8> = Vec::new();
    append_slice(&mut input, "audiostego-aead-v1".as_bytes());
    append_slice(&mut input, key_material);
    sha256(input.as_slice())
}

/// Encrypts `plaintext`: nonce, then ciphertext and tag.
pub fn encrypt(key_material: &[u8], plaintext: &[u8]) -> (r: Result<Vec<u8>, PayloadError>)
    ensures
        r matches Ok(v) ==> encrypt_spec(key_material@, plaintext@) == Ok::<
            Seq<u8>,
            PayloadError,
        >(v@),
        r matches Err(e) ==> encrypt_spec(key_material@, plaintext@) == Err::<
            Seq<u8>,
            PayloadError,
        >(e),
{
    let key = derive_key(key_material);
    let mut nonce_input: Vec<u8> = Vec::new();
    append_slice(&mut nonce_input, "nonce".as_bytes());
    append_slice(&mut nonce_input, key.as_slice());
    let len_bytes = u64_to_le_bytes(plaintext.len() as u64);
    append_slice(&mut nonce_input, len_bytes.as_slice());
    let digest = sha256(nonce_input.as_slice());
    let nonce = slice_subrange(digest.as_slice(), 0, 12);
    assert(nonce@ =~= nonce_spec(key_material@, plaintext@.len()));
    let mut out: Vec<u8> = Vec::new();
    append_slice(&mut out, nonce);
    match chacha_seal(key.as_slice(), nonce, plaintext) {
        Ok(ct) => {
            append_slice(&mut out, ct.as_slice());
            Ok(out)
        },
        Err(_) => Err(PayloadError::EncryptFailed),
    }
}

/// Decrypts what `encrypt` produced under the same key material.
pub fn decrypt(key_material: &[u8], blob: &[u8]) -> (r: Result<Vec<u8>, PayloadError>)
    ensures
        r matches Ok(v) ==> decrypt_spec(key_material@, blob@) == Ok::<Seq<u8>, PayloadError>(v@),
        r matches Err(e) ==> decrypt_spec(key_material@, blob@) == Err::<Seq<u8>, PayloadError>(e),
        forall|p: Seq<u8>|
            #![trigger encrypt_spec(key_material@, p)]
            encrypt_spec(key_material@, p) == Ok::<Seq<u8>, PayloadError>(blob@) ==> r is Ok
                && r.unwrap()@ == p,
{
    if blob.len() < 12 + 16 {
        proof {
            assert forall|p: Seq<u8>|
                #![trigger encrypt_spec(key_material@, p)]
                encrypt_spec(key_material@, p) != Ok::<Seq<u8>, PayloadError>(blob@) by {
                if encrypt_spec(key_material@, p) == Ok::<Seq<u8>, PayloadError>(blob@) {
                    assert(nonce_spec(key_material@, p.len()).len() == 12);
                }
            }
        }
        return Err(PayloadError::CiphertextTooShort);
    }
    let key = derive_key(key_material);
    let nonce = slice_subrange(blob, 0, 12);
    let ct = slice_subrange(blob, 12, blob.len());
    proof {
        assert(nonce@ =~= blob@.take(12));
        assert(ct@ =~= blob@.skip(12));
        assert forall|p: Seq<u8>|
            #![trigger encrypt_spec(key_material@, p)]
            encrypt_spec(key_material@, p) == Ok::<Seq<u8>, PayloadError>(blob@) implies ct@
            == chacha_sealed(key@, nonce@, p) && p.len() / 64 < 0xFFFF_FFFF by {
            let n = nonce_spec(key_material@, p.len());
            assert(blob@ == n + chacha_sealed(key@, n, p));
            assert(blob@.take(12) =~= n);
            assert(blob@.skip(12) =~= chacha_sealed(key@, n, p));
        }
    }
    match chacha_open(key.as_slice(), nonce, ct) {
        Ok(pt) => Ok(pt),
        Err(_) => Err(PayloadError::DecryptFailed),
    }
}

} // verus!
