//! The calls into outside crates: CRC32 (`crc32fast`), SHA-256 (`sha2`),
//! ChaCha20-Poly1305 (`chacha20poly1305`), Reed-Solomon (`reed-solomon`),
//! the keyed shuffle and the keyed boolean stream (`rand` + `rand_chacha`)
//! and the bit vector of `bitvec`.  Each item here is trusted: its contract is what the outside
//! crate's source and documentation show, and nothing proves it.

use bitvec::order::Msb0;
use chacha20poly1305::aead::{Aead, KeyInit};
use rand::seq::SliceRandom;
use rand::Rng;
use rand::SeedableRng;
use sha2::Digest;
use bitvec::vec::BitVec;
use vstd::prelude::*;

verus! {

// ---------------------------------------------------------------- CRC32
/// One bit step of the reflected CRC-32 register (polynomial 0xEDB88320).
pub open spec fn crc32_shift(c: u32) -> u32 {
    if c & 1u32 == 1u32 {
        (c >> 1u32) ^ 0xEDB8_8320u32
    } else {
        c >> 1u32
    }
}

/// `k` bit steps of the register.
pub open spec fn crc32_shifts(c: u32, k: nat) -> u32
    decreases k,
{
    if k == 0 {
        c
    } else {
        crc32_shifts(crc32_shift(c), (k - 1) as nat)
    }
}

/// The register after `data`, starting from all ones: each byte is xored
/// into the low bits and shifted through eight steps.
pub open spec fn crc32_register(data: Seq<u8>) -> u32
    decreases data.len(),
{
    if data.len() == 0 {
        0xFFFF_FFFFu32
    } else {
        crc32_shifts(crc32_register(data.drop_last()) ^ (data.last() as u32), 8)
    }
}

/// The CRC-32 (IEEE 802.3, reflected, initial value and final xor all ones)
/// of a byte string.
pub open spec fn crc32_spec(data: Seq<u8>) -> u32 {
    crc32_register(data) ^ 0xFFFF_FFFFu32
}

/// `crc32fast::hash`: the standard CRC-32 of `data` (the crate's hasher
/// starts from 0, which is the all-ones register after its inversion).
#[verifier::external_body]
pub(crate) fn crc32(data: &[u8]) -> (r: u32)
    ensures
        r == crc32_spec(data@),
{
    crc32fast::hash(data)
}

// -------------------------------------------------------------- SHA-256
/// The SHA-256 digest of a byte string.
pub uninterp spec fn sha256_spec(data: Seq<u8>) -> Seq<u8>;

/// The digest as its 32 bytes.
pub open spec fn sha256_digest(data: Seq<u8>) -> Seq<u8> {
    Seq::new(32, |i: int| sha256_spec(data)[i])
}

/// `<sha2::Sha256 as Digest>::digest`: the 32-byte SHA-256 digest of `data`.
#[verifier::external_body]
pub(crate) fn sha256(data: &[u8]) -> (r: Vec<u8>)
    ensures
        r@ == sha256_spec(data@),
        r@.len() == 32,
        r@ == sha256_digest(data@),
{
    <sha2::Sha256 as Digest>::digest(data).to_vec()
}

// ---------------------------------------------------- ChaCha20-Poly1305
#[verifier::external_type_specification]
#[verifier::external_body]
pub struct ExAeadError(chacha20poly1305::aead::Error);

/// The ciphertext (with its 16-byte tag appended) that ChaCha20-Poly1305
/// produces for a key, a nonce and a plaintext, with no associated data.
pub uninterp spec fn chacha_seal_spec(key: Seq<u8>, nonce: Seq<u8>, pt: Seq<u8>) -> Seq<u8>;

/// The sealed form of a plaintext: the ciphertext and tag, which together
/// are 16 bytes longer than the plaintext.
pub open spec fn chacha_sealed(key: Seq<u8>, nonce: Seq<u8>, pt: Seq<u8>) -> Seq<u8> {
    Seq::new((pt.len() + 16) as nat, |i: int| chacha_seal_spec(key, nonce, pt)[i])
}

/// What ChaCha20-Poly1305 decryption gives for a key, a nonce and a
/// ciphertext: the plaintext, or nothing when authentication fails.
pub uninterp spec fn chacha_open_spec(key: Seq<u8>, nonce: Seq<u8>, ct: Seq<u8>) -> Option<Seq<u8>>;

/// `Aead::encrypt` of `ChaCha20Poly1305` keyed with `key` (32 bytes), under
/// `nonce` (12 bytes).  The source refuses a plaintext of 2^32 - 1 blocks of
/// 64 bytes or more and otherwise returns the plaintext's length plus the
/// 16-byte tag.
#[verifier::external_body]
pub(crate) fn chacha_seal(key: &[u8], nonce: &[u8], pt: &[u8]) -> (r: Result<
    Vec<u8>,
    chacha20poly1305::aead::Error,
>)
    requires
        key@.len() == 32,
        nonce@.len() == 12,
    ensures
        r is Ok <==> pt@.len() / 64 < 0xFFFF_FFFF,
        r matches Ok(c) ==> c@ == chacha_seal_spec(key@, nonce@, pt@) && c@.len() == pt@.len()
            + 16 && c@ == chacha_sealed(key@, nonce@, pt@),
{
    let cipher = chacha20poly1305::ChaCha20Poly1305::new(chacha20poly1305::Key::from_slice(key));
    cipher.encrypt(chacha20poly1305::Nonce::from_slice(nonce), pt)
}

/// `Aead::decrypt` of `ChaCha20Poly1305` keyed with `key` (32 bytes), under
/// `nonce` (12 bytes).  A ciphertext shorter than the 16-byte tag is refused;
/// decrypting what encryption produced under the same key and nonce gives the
/// plaintext back (the AEAD's documented purpose).  Nothing is stated of a
/// wrong key beyond the name.
#[verifier::external_body]
pub(crate) fn chacha_open(key: &[u8], nonce: &[u8], ct: &[u8]) -> (r: Result<
    Vec<u8>,
    chacha20poly1305::aead::Error,
>)
    requires
        key@.len() == 32,
        nonce@.len() == 12,
    ensures
        r is Ok <==> chacha_open_spec(key@, nonce@, ct@) is Some,
        r matches Ok(p) ==> chacha_open_spec(key@, nonce@, ct@) == Some(p@),
        ct@.len() < 16 ==> r is Err,
        forall|p: Seq<u8>|
            #![trigger chacha_sealed(key@, nonce@, p)]
            ct@ == chacha_sealed(key@, nonce@, p) && p.len() / 64 < 0xFFFF_FFFF ==> r is Ok
                && r.unwrap()@ == p,
{
    let cipher = chacha20poly1305::ChaCha20Poly1305::new(chacha20poly1305::Key::from_slice(key));
    cipher.decrypt(chacha20poly1305::Nonce::from_slice(nonce), ct)
}

// --------------------------------------------------------- Reed-Solomon
#[verifier::external_type_specification]
#[verifier::external_body]
pub struct ExDecoderError(reed_solomon::DecoderError);

/// The `parity` check bytes that the Reed-Solomon encoder with `parity`
/// check symbols appends to `data` (`Buffer::ecc`).
pub uninterp spec fn rs_parity_spec(parity: u8, data: Seq<u8>) -> Seq<u8>;

/// A codeword: the data bytes followed by their `parity` check bytes.
pub open spec fn rs_codeword(parity: u8, data: Seq<u8>) -> Seq<u8> {
    data + Seq::new(parity as nat, |i: int| rs_parity_spec(parity, data)[i])
}

/// What the Reed-Solomon decoder with `parity` check symbols makes of a
/// received block: the corrected block, or nothing when there are too many
/// errors.
pub uninterp spec fn rs_correct_spec(parity: u8, block: Seq<u8>) -> Option<Seq<u8>>;

/// `reed_solomon::Encoder::new(parity).encode(data)`: the data bytes
/// unchanged (copied back over the front of the buffer in the source),
/// followed by the `parity` check bytes.
#[verifier::external_body]
pub(crate) fn rs_encode(parity: u8, data: &[u8]) -> (r: Vec<u8>)
    requires
        data@.len() + parity <= 255,
    ensures
        r@ == data@ + rs_parity_spec(parity, data@),
        r@.len() == data@.len() + parity,
{
    let encoded = reed_solomon::Encoder::new(parity as usize).encode(data);
    encoded.to_vec()
}

/// `reed_solomon::Decoder::new(parity).correct(block, None)`, the whole
/// corrected block.  The source asserts that the block is shorter than 256
/// bytes and not shorter than the check symbols.  A codeword straight from
/// the encoder has all-zero syndromes (the crate's documentation shows
/// `is_corrupted` false on one) and the source then returns it unchanged.
#[verifier::external_body]
pub(crate) fn rs_correct(parity: u8, block: &[u8]) -> (r: Result<
    Vec<u8>,
    reed_solomon::DecoderError,
>)
    requires
        parity <= block@.len() < 256,
    ensures
        r is Ok <==> rs_correct_spec(parity, block@) is Some,
        r matches Ok(v) ==> rs_correct_spec(parity, block@) == Some(v@) && v@.len()
            == block@.len(),
        forall|d: Seq<u8>|
            #![trigger rs_codeword(parity, d)]
            block@ == rs_codeword(parity, d) && d.len() + parity <= 255 ==> r is Ok
                && r.unwrap()@ == block@,
{
    let corrected = reed_solomon::Decoder::new(parity as usize).correct(block, None)?;
    Ok(corrected.to_vec())
}

// ------------------------------------------------------- keyed shuffle
/// The order into which `SliceRandom::shuffle`, driven by a `ChaCha8Rng`
/// seeded with `seed`, puts `items`.
pub uninterp spec fn keyed_shuffle_spec(seed: Seq<u8>, items: Seq<usize>) -> Seq<usize>;

/// `v.shuffle(&mut ChaCha8Rng::from_seed(seed))`: a permutation of `v`
/// (Fisher-Yates swaps in the source) that depends on the seed and the
/// items alone.
#[verifier::external_body]
pub(crate) fn keyed_shuffle(v: &mut Vec<usize>, seed: &[u8])
    requires
        seed@.len() == 32,
    ensures
        final(v)@ == keyed_shuffle_spec(seed@, old(v)@),
        final(v)@.to_multiset() == old(v)@.to_multiset(),
{
    let mut s = [0u8; 32];
    s.copy_from_slice(seed);
    let mut rng = rand_chacha::ChaCha8Rng::from_seed(s);
    v.shuffle(&mut rng);
}

// ------------------------------------------------------------ keyed stream
/// The first `n` booleans that `rand::Rng::gen::<bool>` draws from
/// `rand_chacha::ChaCha8Rng::from_seed(seed)`.
pub uninterp spec fn chacha_bools_spec(seed: Seq<u8>, n: nat) -> Seq<bool>;

/// Draws `n` booleans from a ChaCha8 stream seeded with `seed`. The draws
/// depend on the seed and the count alone; nothing more of their values is
/// stated.
#[verifier::external_body]
pub(crate) fn chacha_bools(seed: &[u8], n: usize) -> (r: Vec<bool>)
    requires
        seed@.len() == 32,
    ensures
        r@ == chacha_bools_spec(seed@, n as nat),
        r@.len() == n,
{
    let mut s = [0u8; 32];
    s.copy_from_slice(seed);
    let mut rng = rand_chacha::ChaCha8Rng::from_seed(s);
    (0..n).map(|_| rng.gen::<bool>()).collect()
}

// ------------------------------------------------------------- bit vector
/// A most-significant-first, byte-backed `bitvec::vec::BitVec`.  Verus does
/// not take a declaration of the generic `BitVec` (its bounds are outside
/// traits), so the vector is held here, out of Verus's sight, and read
/// through `bit_contents`.
#[verifier::external_body]
pub struct BitBuffer {
    inner: BitVec<u8, Msb0>,
}

/// The bits that a bit buffer holds, in order.
pub uninterp spec fn bit_contents(v: BitBuffer) -> Seq<bool>;

/// `BitVec::with_capacity`: an empty bit vector.  The source asserts that
/// the capacity is encodable (at most `usize::MAX >> 3` bits).
#[verifier::external_body]
pub(crate) fn bitvec_with_capacity(n: usize) -> (r: BitBuffer)
    requires
        n <= usize::MAX >> 3,
    ensures
        bit_contents(r) == Seq::<bool>::empty(),
{
    BitBuffer { inner: BitVec::<u8, Msb0>::with_capacity(n) }
}

/// `BitVec::push`: appends one bit.  The source asserts that the length
/// stays encodable (at most `usize::MAX >> 3` bits).
#[verifier::external_body]
pub(crate) fn bitvec_push(v: &mut BitBuffer, b: bool)
    requires
        bit_contents(*old(v)).len() + 1 <= usize::MAX >> 3,
    ensures
        bit_contents(*final(v)) == bit_contents(*old(v)).push(b),
{
    v.inner.push(b);
}

/// `BitSlice::len`: the number of bits held.
#[verifier::external_body]
pub(crate) fn bitvec_len(v: &BitBuffer) -> (r: usize)
    ensures
        r == bit_contents(*v).len(),
{
    v.inner.len()
}

/// Indexing a bit vector: the bit at `i`.
#[verifier::external_body]
pub(crate) fn bitvec_get(v: &BitBuffer, i: usize) -> (r: bool)
    requires
        i < bit_contents(*v).len(),
    ensures
        r == bit_contents(*v)[i as int],
{
    v.inner[i]
}

} // verus!
