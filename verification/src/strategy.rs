//! The embedding strategies as far as their framing goes: identity, whether
//! extraction needs the original, bits per frame over a band of bins, the
//! bins of a band, how spread-spectrum shares the band between its bits, and
//! the per-frame keyed seeds. What they do to spectra is sample arithmetic
//! and is done by the caller.

use crate::cli::StrategyId;
use crate::dsp::sync::{key_seed, key_seed_spec};
use crate::outside::{chacha_bools, chacha_bools_spec};
use crate::payload::ecc::append_slice;
use core::ops::Range;
use vstd::bytes::{spec_u64_to_le_bytes, u64_to_le_bytes};
use vstd::prelude::*;
use vstd::string::StringSliceAdditionalSpecFns;

verus! {

/// Bins in `start..end`, none when the range is empty or reversed.
pub open spec fn band_len(start: usize, end: usize) -> nat {
    if end > start {
        (end - start) as nat
    } else {
        0
    }
}

/// Bits a frame carries under a strategy: one a bin, except spread-spectrum,
/// which spends 32 bins on a bit and carries between one and eight.
pub open spec fn capacity_spec(id: StrategyId, band: nat) -> nat {
    match id {
        StrategyId::SpreadSpectrum => {
            let q = band / 32;
            if q < 1 {
                1
            } else if q > 8 {
                8
            } else {
                q
            }
        },
        _ => band,
    }
}

/// Bits per frame: one a bin for QIM, magnitude LSB and differential; for
/// spread-spectrum between one and eight, each bit spread over at least 32
/// bins once the band has 32, no fewer bits than 32-bin groups allow
/// (below eight), and eight from 256 bins on.
pub proof fn lemma_capacity_bits_per_frame(id: StrategyId, band: nat)
    ensures
        id != StrategyId::SpreadSpectrum ==> capacity_spec(id, band) == band,
        ({
            let c = capacity_spec(StrategyId::SpreadSpectrum, band);
            &&& 1 <= c <= 8
            &&& band >= 32 ==> c * 32 <= band
            &&& c < 8 ==> band < (c + 1) * 32
            &&& band >= 256 ==> c == 8
            &&& band < 64 ==> c == 1
        }),
{
}

/// Differential embedding against the original spectrum.
#[derive(Debug, Clone, Copy, PartialEq, Eq, Structural)]
pub struct Differential;

/// Magnitude least-significant-step embedding.
#[derive(Debug, Clone, Copy, PartialEq, Eq, Structural)]
pub struct MagnitudeLsb;

/// Quantisation index modulation of magnitudes.
#[derive(Debug, Clone, Copy, PartialEq, Eq, Structural)]
pub struct Qim;

/// Keyed spread-spectrum embedding (lowest capacity, most robust).
#[derive(Debug, Clone, Copy, PartialEq, Eq, Structural)]
pub struct SpreadSpectrum;

/// Bits per frame under `id` for the bins in `bins`.
pub fn capacity_for(id: StrategyId, bins: &Range<usize>) -> (r: usize)
    ensures
        r == capacity_spec(id, band_len(bins.start, bins.end)),
{
    let band = bins.end.saturating_sub(bins.start);
    match id {
        StrategyId::SpreadSpectrum => {
            let q = band / 32;
            if q < 1 {
                1
            } else if q > 8 {
                8
            } else {
                q
            }
        },
        _ => band,
    }
}

impl Differential {
    pub fn id(&self) -> (r: StrategyId)
        ensures
            r == StrategyId::Differential,
    {
        StrategyId::Differential
    }

    /// Extraction compares against the original.
    pub fn requires_original(&self) -> (r: bool)
        ensures
            r,
    {
        true
    }

    pub fn capacity_bits(&self, bins: &Range<usize>) -> (r: usize)
        ensures
            r == band_len(bins.start, bins.end),
    {
        capacity_for(StrategyId::Differential, bins)
    }
}

impl MagnitudeLsb {
    pub fn id(&self) -> (r: StrategyId)
        ensures
            r == StrategyId::MagnitudeLsb,
    {
        StrategyId::MagnitudeLsb
    }

    pub fn requires_original(&self) -> (r: bool)
        ensures
            !r,
    {
        false
    }

    pub fn capacity_bits(&self, bins: &Range<usize>) -> (r: usize)
        ensures
            r == band_len(bins.start, bins.end),
    {
        capacity_for(StrategyId::MagnitudeLsb, bins)
    }
}

impl Qim {
    pub fn id(&self) -> (r: StrategyId)
        ensures
            r == StrategyId::Qim,
    {
        StrategyId::Qim
    }

    pub fn requires_original(&self) -> (r: bool)
        ensures
            !r,
    {
        false
    }

    pub fn capacity_bits(&self, bins: &Range<usize>) -> (r: usize)
        ensures
            r == band_len(bins.start, bins.end),
    {
        capacity_for(StrategyId::Qim, bins)
    }
}

impl SpreadSpectrum {
    pub fn id(&self) -> (r: StrategyId)
        ensures
            r == StrategyId::SpreadSpectrum,
    {
        StrategyId::SpreadSpectrum
    }

    pub fn requires_original(&self) -> (r: bool)
        ensures
            !r,
    {
        false
    }

    /// One bit for every 32 bins, at least one and at most eight.
    pub fn capacity_bits(&self, bins: &Range<usize>) -> (r: usize)
        ensures
            r == capacity_spec(StrategyId::SpreadSpectrum, band_len(bins.start, bins.end)),
            1 <= r <= 8,
    {
        capacity_for(StrategyId::SpreadSpectrum, bins)
    }
}

/// The strategy that carries the self-describing capsule header, whatever
/// the body strategy.
pub fn header_strategy() -> (r: SpreadSpectrum) {
    SpreadSpectrum
}

/// The bin indices of a band, in order.
pub fn band_bins(bins: &Range<usize>) -> (r: Vec<usize>)
    ensures
        r@.len() == band_len(bins.start, bins.end),
        forall|i: int| 0 <= i < r@.len() ==> #[trigger] r@[i] == bins.start + i,
{
    let mut out: Vec<usize> = Vec::new();
    let mut b = bins.start;
    while b < bins.end
        invariant
            bins.start <= b,
            b <= bins.end || b == bins.start,
            out@.len() == b - bins.start,
            forall|i: int| 0 <= i < out@.len() ==> #[trigger] out@[i] == bins.start + i,
        decreases bins.end - b,
    {
        out.push(b);
        b = b + 1;
    }
    out
}

/// Capacity over `num_frames` frames: the per-frame capacity times the frame
/// count, saturating at `usize::MAX`.
pub fn total_capacity(id: StrategyId, num_frames: usize, bins: &Range<usize>) -> (r: usize)
    ensures
        r == (if capacity_spec(id, band_len(bins.start, bins.end)) * num_frames > usize::MAX {
            usize::MAX as int
        } else {
            capacity_spec(id, band_len(bins.start, bins.end)) * num_frames
        }),
{
    let per = capacity_for(id, bins);
    match per.checked_mul(num_frames) {
        Some(t) => t,
        None => usize::MAX,
    }
}

/// The span `[start, end)` of band positions that spread-spectrum bit
/// `bit_i` of `n_bits` occupies: equal chunks of `bins_len / n_bits` (at
/// least one), the last bit taking the rest of the band.
pub open spec fn spread_span_spec(bins_len: nat, n_bits: nat, bit_i: nat) -> (nat, nat) {
    let chunk = if bins_len / n_bits < 1 {
        1
    } else {
        bins_len / n_bits
    };
    let start = bit_i * chunk;
    let end = if bit_i + 1 == n_bits {
        bins_len
    } else if (bit_i + 1) * chunk < bins_len {
        (bit_i + 1) * chunk
    } else {
        bins_len
    };
    (start, end)
}

/// Where spread-spectrum bit `bit_i` lives in a band of `bins_len` bins.
pub fn spread_bit_span(bins_len: usize, n_bits: usize, bit_i: usize) -> (r: (usize, usize))
    requires
        1 <= n_bits <= bins_len,
        bit_i < n_bits,
    ensures
        r == (spread_span_spec(bins_len as nat, n_bits as nat, bit_i as nat).0 as usize,
        spread_span_spec(bins_len as nat, n_bits as nat, bit_i as nat).1 as usize),
        r.0 <= r.1 <= bins_len,
{
    let q = bins_len / n_bits;
    assert(q >= 1) by (nonlinear_arith)
        requires
            q == bins_len / n_bits,
            1 <= n_bits <= bins_len,
    ;
    let chunk = if q < 1 {
        1
    } else {
        q
    };
    assert(q * n_bits <= bins_len) by (nonlinear_arith)
        requires
            q == bins_len / n_bits,
            n_bits >= 1,
    ;
    assert(bit_i * chunk <= (n_bits - 1) * chunk) by (nonlinear_arith)
        requires
            bit_i < n_bits,
            chunk >= 1,
    ;
    assert((n_bits - 1) * chunk <= bins_len) by (nonlinear_arith)
        requires
            chunk == q,
            q * n_bits <= bins_len,
            n_bits >= 1,
    ;
    let start = bit_i * chunk;
    let end = if bit_i + 1 == n_bits {
        bins_len
    } else {
        assert((bit_i + 1) * chunk <= (n_bits - 1) * chunk) by (nonlinear_arith)
            requires
                bit_i + 1 < n_bits,
                chunk >= 1,
        ;
        let e = (bit_i + 1) * chunk;
        if e < bins_len {
            e
        } else {
            bins_len
        }
    };
    assert(start <= end) by (nonlinear_arith)
        requires
            start == bit_i * chunk,
            bit_i + 1 == n_bits ==> end == bins_len,
            bit_i + 1 != n_bits ==> end == (if (bit_i + 1) * chunk < bins_len {
                (bit_i + 1) * chunk
            } else {
                bins_len as int
            }),
            bit_i * chunk <= bins_len,
            chunk >= 1,
    ;
    (start, end)
}

/// Spread-spectrum bits take disjoint, adjacent spans that cover the band:
/// the first starts at 0, each ends where the next starts, the last ends at
/// the band's end.
pub proof fn lemma_spread_spans_partition(bins_len: nat, n_bits: nat, bit_i: nat)
    requires
        1 <= n_bits <= bins_len,
        bit_i < n_bits,
    ensures
        spread_span_spec(bins_len, n_bits, 0).0 == 0,
        spread_span_spec(bins_len, n_bits, (n_bits - 1) as nat).1 == bins_len,
        bit_i + 1 < n_bits ==> spread_span_spec(bins_len, n_bits, bit_i).1 == spread_span_spec(
            bins_len,
            n_bits,
            bit_i + 1,
        ).0,
        spread_span_spec(bins_len, n_bits, bit_i).0 <= spread_span_spec(bins_len, n_bits, bit_i).1,
{
    let q = bins_len / n_bits;
    assert(q >= 1 && q * n_bits <= bins_len) by (nonlinear_arith)
        requires
            q == bins_len / n_bits,
            1 <= n_bits <= bins_len,
    ;
    assert(bit_i * q <= (n_bits - 1) * q) by (nonlinear_arith)
        requires
            bit_i < n_bits,
            q >= 1,
    ;
    assert((n_bits - 1) * q <= bins_len) by (nonlinear_arith)
        requires
            q * n_bits <= bins_len,
            n_bits >= 1,
    ;
    assert(bit_i * q + q == (bit_i + 1) * q) by (nonlinear_arith);
    if bit_i + 1 < n_bits {
        assert((bit_i + 1) * q <= (n_bits - 1) * q) by (nonlinear_arith)
            requires
                bit_i + 1 < n_bits,
                q >= 1,
        ;
    }
}

/// The bytes keyed into a frame's random stream: the domain, the key and
/// the frame index as eight little-endian bytes.
pub open spec fn frame_material(key: Seq<u8>, frame_index: u64, domain: Seq<u8>) -> Seq<u8> {
    domain + key + spec_u64_to_le_bytes(frame_index)
}

/// The seed of the random stream of frame `frame_index` for a purpose
/// (`domain`) under a key.
pub fn frame_rng_seed(key: &[u8], frame_index: u64, domain: &[u8]) -> (r: Vec<u8>)
    ensures
        r@ == key_seed_spec(frame_material(key@, frame_index, domain@), "frame-rng".spec_bytes()),
        r@.len() == 32,
{
    let mut material: Vec<u8> = Vec::new();
    append_slice(&mut material, domain);
    append_slice(&mut material, key);
    let idx = u64_to_le_bytes(frame_index);
    append_slice(&mut material, idx.as_slice());
    key_seed(material.as_slice(), "frame-rng".as_bytes())
}

/// The first `n` signs (`true` for +1) of the random stream of frame
/// `frame_index` for a purpose under a key.
pub fn frame_pn_bits(key: &[u8], frame_index: u64, domain: &[u8], n: usize) -> (r: Vec<bool>)
    ensures
        r@ == chacha_bools_spec(
            key_seed_spec(frame_material(key@, frame_index, domain@), "frame-rng".spec_bytes()),
            n as nat,
        ),
        r@.len() == n,
{
    let seed = frame_rng_seed(key, frame_index, domain);
    chacha_bools(seed.as_slice(), n)
}

} // verus!
