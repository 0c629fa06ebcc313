//! Keyed seeds and the sync preamble length.

use crate::outside::{chacha_bools, chacha_bools_spec, sha256, sha256_digest};
use crate::payload::ecc::append_slice;
use vstd::prelude::*;
use vstd::string::StringSliceAdditionalSpecFns;

verus! {

/// The 32-byte seed for a purpose (`domain`) under a key.
pub open spec fn key_seed_spec(key: Seq<u8>, domain: Seq<u8>) -> Seq<u8> {
    sha256_digest(domain + key)
}

/// The seed that keys a random stream for one purpose: the SHA-256 digest
/// of the domain followed by the key.
pub fn key_seed(key: &[u8], domain: &[u8]) -> (r: Vec<u8>)
    ensures
        r@ == key_seed_spec(key@, domain@),
        r@.len() == 32,
{
    let mut input: Vec<u8> = Vec::new();
    append_slice(&mut input, domain);
    append_slice(&mut input, key);
    sha256(input.as_slice())
}

/// The signs of the sync preamble (`true` for +1): `length` draws from the
/// stream keyed for "preamble".
pub fn preamble_bits(key: &[u8], length: usize) -> (r: Vec<bool>)
    ensures
        r@ == chacha_bools_spec(key_seed_spec(key@, "preamble".spec_bytes()), length as nat),
        r@.len() == length,
{
    let seed = key_seed(key, "preamble".as_bytes());
    chacha_bools(seed.as_slice(), length)
}

/// The offsets a preamble search tries, `0..=r`, or `None` when the
/// preamble is empty or longer than the signal (the search then reports
/// offset 0).
pub fn search_limit(signal_len: usize, preamble_len: usize, max_offset: usize) -> (r: Option<usize>)
    ensures
        r == (if preamble_len == 0 || signal_len < preamble_len {
            None::<usize>
        } else if max_offset < signal_len - preamble_len {
            Some(max_offset)
        } else {
            Some((signal_len - preamble_len) as usize)
        }),
{
    if preamble_len == 0 || signal_len < preamble_len {
        return None;
    }
    let room = signal_len - preamble_len;
    if max_offset < room {
        Some(max_offset)
    } else {
        Some(room)
    }
}

/// Length of the sync preamble for an FFT size: four frames.
pub fn default_preamble_len(fft_size: usize) -> (r: usize)
    requires
        fft_size * 4 <= usize::MAX,
    ensures
        r == fft_size * 4,
{
    fft_size * 4
}

} // verus!
