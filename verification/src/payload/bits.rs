//! Bit packing: bytes to most-significant-first bits and back.

use crate::outside::{
    bit_contents, bitvec_get, bitvec_len, bitvec_push, bitvec_with_capacity, BitBuffer,
};
use vstd::prelude::*;

verus! {

/// Bit `j` (0 = most significant) of a byte.
pub open spec fn bit_of(b: u8, j: int) -> bool {
    ((b >> ((7 - j) as u8)) & 1u8) == 1u8
}

/// The bits of a byte string, most significant bit of each byte first.
pub open spec fn bytes_bits_spec(d: Seq<u8>) -> Seq<bool> {
    Seq::new(d.len() * 8, |i: int| bit_of(d[i / 8], i % 8))
}

/// Bit `i` of `bits`, or `false` past its end.
pub open spec fn padded_bit(bits: Seq<bool>, i: int) -> bool {
    0 <= i < bits.len() && bits[i]
}

pub open spec fn weight(b: bool, w: u8) -> u8 {
    if b {
        w
    } else {
        0
    }
}

/// Byte `k` of a bit string: bits `8k .. 8k+8`, most significant first,
/// missing bits taken as zero.
pub open spec fn pack8(bits: Seq<bool>, k: int) -> u8 {
    (weight(padded_bit(bits, 8 * k), 128) + weight(padded_bit(bits, 8 * k + 1), 64) + weight(
        padded_bit(bits, 8 * k + 2),
        32,
    ) + weight(padded_bit(bits, 8 * k + 3), 16) + weight(padded_bit(bits, 8 * k + 4), 8) + weight(
        padded_bit(bits, 8 * k + 5),
        4,
    ) + weight(padded_bit(bits, 8 * k + 6), 2) + weight(padded_bit(bits, 8 * k + 7), 1)) as u8
}

/// The bytes of a bit string: one per started group of eight bits.
pub open spec fn bits_bytes_spec(bits: Seq<bool>) -> Seq<u8> {
    Seq::new(((bits.len() + 7) / 8) as nat, |k: int| pack8(bits, k))
}

/// The bits of `data`, most significant bit of each byte first.
pub fn bytes_to_bits(data: &[u8]) -> (r: BitBuffer)
    requires
        data@.len() * 8 <= usize::MAX >> 3,
    ensures
        bit_contents(r) == bytes_bits_spec(data@),
{
    let n = data.len();
    let mut bv = bitvec_with_capacity(n * 8);
    let mut k: usize = 0;
    while k < n
        invariant
            n == data@.len(),
            n * 8 <= usize::MAX >> 3,
            k <= n,
            bit_contents(bv) == bytes_bits_spec(data@).subrange(0, k * 8),
        decreases n - k,
    {
        let b = data[k];
        let mut j: u8 = 0;
        while j < 8
            invariant
                n == data@.len(),
                n * 8 <= usize::MAX >> 3,
                k < n,
                b == data@[k as int],
                j <= 8,
                bit_contents(bv) == bytes_bits_spec(data@).subrange(0, k * 8 + j),
            decreases 8 - j,
        {
            let bit = (b >> (7 - j)) & 1 == 1;
            bitvec_push(&mut bv, bit);
            proof {
                let s = bytes_bits_spec(data@);
                assert((k * 8 + j) / 8 == k && (k * 8 + j) % 8 == j);
                assert(s[k * 8 + j] == bit);
                assert(bit_contents(bv) =~= s.subrange(0, k * 8 + j + 1));
            }
            j = j + 1;
        }
        k = k + 1;
    }
    assert(bit_contents(bv) =~= bytes_bits_spec(data@));
    bv
}

fn bit_or_pad(bits: &BitBuffer, i: usize) -> (r: bool)
    ensures
        r == padded_bit(bit_contents(*bits), i as int),
{
    if i < bitvec_len(bits) {
        bitvec_get(bits, i)
    } else {
        false
    }
}

fn weigh(b: bool, w: u8) -> (r: u8)
    ensures
        r == weight(b, w),
{
    if b {
        w
    } else {
        0
    }
}

/// Packs bits into bytes, eight per byte, most significant first; a final
/// partial byte has its missing low bits zero.
pub fn bits_to_bytes(bits: &BitBuffer) -> (r: Vec<u8>)
    ensures
        r@ == bits_bytes_spec(bit_contents(*bits)),
{
    let n = bitvec_len(bits);
    let ghost s = bit_contents(*bits);
    let nbytes = n / 8 + if n % 8 == 0 {
        0
    } else {
        1
    };
    assert(nbytes == (s.len() + 7) / 8);
    let mut out: Vec<u8> = Vec::new();
    let mut k: usize = 0;
    while k < nbytes
        invariant
            n == s.len(),
            s == bit_contents(*bits),
            nbytes == (s.len() + 7) / 8,
            k <= nbytes,
            out@ == bits_bytes_spec(s).subrange(0, k as int),
        decreases nbytes - k,
    {
        let base = k * 8;
        let byte = (weigh(bit_or_pad(bits, base), 128) + weigh(bit_or_pad(bits, base + 1), 64)
            + weigh(bit_or_pad(bits, base + 2), 32) + weigh(bit_or_pad(bits, base + 3), 16)
            + weigh(bit_or_pad(bits, base + 4), 8) + weigh(bit_or_pad(bits, base + 5), 4)
            + weigh(bit_or_pad(bits, base + 6), 2) + weigh(bit_or_pad(bits, base + 7), 1)) as u8;
        out.push(byte);
        k = k + 1;
        assert(out@ =~= bits_bytes_spec(s).subrange(0, k as int));
    }
    assert(out@ =~= bits_bytes_spec(s));
    out
}

/// Packs a slice of bits into bytes (see `bits_to_bytes`).
pub fn bools_to_bytes(bits: &[bool]) -> (r: Vec<u8>)
    requires
        bits@.len() <= usize::MAX >> 3,
    ensures
        r@ == bits_bytes_spec(bits@),
{
    let n = bits.len();
    let mut bv = bitvec_with_capacity(n);
    let mut i: usize = 0;
    while i < n
        invariant
            n == bits@.len(),
            n <= usize::MAX >> 3,
            i <= n,
            bit_contents(bv) == bits@.subrange(0, i as int),
        decreases n - i,
    {
        bitvec_push(&mut bv, bits[i]);
        i = i + 1;
        assert(bit_contents(bv) =~= bits@.subrange(0, i as int));
    }
    assert(bits@.subrange(0, n as int) =~= bits@);
    bits_to_bytes(&bv)
}

/// The bits of `data` as a vector, most significant bit of each byte first.
pub fn bytes_to_bools(data: &[u8]) -> (r: Vec<bool>)
    requires
        data@.len() * 8 <= usize::MAX >> 3,
    ensures
        r@ == bytes_bits_spec(data@),
        r@.len() == data@.len() * 8,
{
    let bv = bytes_to_bits(data);
    let n = bitvec_len(&bv);
    let mut out: Vec<bool> = Vec::new();
    let mut i: usize = 0;
    while i < n
        invariant
            n == bit_contents(bv).len(),
            i <= n,
            out@ == bit_contents(bv).subrange(0, i as int),
        decreases n - i,
    {
        out.push(bitvec_get(&bv, i));
        i = i + 1;
        assert(out@ =~= bit_contents(bv).subrange(0, i as int));
    }
    assert(out@ =~= bit_contents(bv));
    out
}

/// Bit vectors hold at least 2^29 - 1 bits on every target.
pub proof fn lemma_bit_capacity()
    ensures
        usize::MAX >> 3 >= 0x1FFF_FFFF,
{
    let m: usize = usize::MAX;
    assert(m == 0xFFFF_FFFF || m == 0xFFFF_FFFF_FFFF_FFFF);
    assert(m >> 3 >= 0x1FFF_FFFF) by (bit_vector)
        requires
            m == 0xFFFF_FFFF || m == 0xFFFF_FFFF_FFFF_FFFF,
    ;
}

// ---------------------------------------------------------------------------
proof fn lemma_byte_from_bits(b: u8)
    ensures
        (weight(bit_of(b, 0), 128) + weight(bit_of(b, 1), 64) + weight(bit_of(b, 2), 32) + weight(
            bit_of(b, 3),
            16,
        ) + weight(bit_of(b, 4), 8) + weight(bit_of(b, 5), 4) + weight(bit_of(b, 6), 2) + weight(
            bit_of(b, 7),
            1,
        )) == b,
{
    assert((if ((b >> 7u8) & 1u8) == 1u8 { 128u8 } else { 0u8 }) + (if ((b >> 6u8) & 1u8) == 1u8 {
        64u8
    } else {
        0u8
    }) + (if ((b >> 5u8) & 1u8) == 1u8 { 32u8 } else { 0u8 }) + (if ((b >> 4u8) & 1u8) == 1u8 {
        16u8
    } else {
        0u8
    }) + (if ((b >> 3u8) & 1u8) == 1u8 { 8u8 } else { 0u8 }) + (if ((b >> 2u8) & 1u8) == 1u8 {
        4u8
    } else {
        0u8
    }) + (if ((b >> 1u8) & 1u8) == 1u8 { 2u8 } else { 0u8 }) + (if ((b >> 0u8) & 1u8) == 1u8 {
        1u8
    } else {
        0u8
    }) == b) by (bit_vector);
}

/// Packing the bits of a byte string gives the byte string back.
pub proof fn lemma_bytes_bits_roundtrip(d: Seq<u8>)
    ensures
        bits_bytes_spec(bytes_bits_spec(d)) == d,
{
    let bits = bytes_bits_spec(d);
    assert forall|k: int| 0 <= k < d.len() implies #[trigger] pack8(bits, k) == d[k] by {
        assert forall|j: int| 0 <= j < 8 implies padded_bit(bits, 8 * k + j) == bit_of(d[k], j) by {
            assert((8 * k + j) / 8 == k && (8 * k + j) % 8 == j);
        }
        lemma_byte_from_bits(d[k]);
    }
    assert(bits_bytes_spec(bits) =~= d);
}

proof fn lemma_bits_of_packed(b0: bool, b1: bool, b2: bool, b3: bool, b4: bool, b5: bool, b6: bool, b7: bool)
    ensures
        ({
            let v = (weight(b0, 128) + weight(b1, 64) + weight(b2, 32) + weight(b3, 16) + weight(b4, 8)
                + weight(b5, 4) + weight(b6, 2) + weight(b7, 1)) as u8;
            &&& bit_of(v, 0) == b0
            &&& bit_of(v, 1) == b1
            &&& bit_of(v, 2) == b2
            &&& bit_of(v, 3) == b3
            &&& bit_of(v, 4) == b4
            &&& bit_of(v, 5) == b5
            &&& bit_of(v, 6) == b6
            &&& bit_of(v, 7) == b7
        }),
{
    let v: u8 = ((if b0 { 128u8 } else { 0u8 }) + (if b1 { 64u8 } else { 0u8 }) + (if b2 {
        32u8
    } else {
        0u8
    }) + (if b3 { 16u8 } else { 0u8 }) + (if b4 { 8u8 } else { 0u8 }) + (if b5 {
        4u8
    } else {
        0u8
    }) + (if b6 { 2u8 } else { 0u8 }) + (if b7 { 1u8 } else { 0u8 })) as u8;
    assert({
        &&& (((v >> 7u8) & 1u8) == 1u8) == b0
        &&& (((v >> 6u8) & 1u8) == 1u8) == b1
        &&& (((v >> 5u8) & 1u8) == 1u8) == b2
        &&& (((v >> 4u8) & 1u8) == 1u8) == b3
        &&& (((v >> 3u8) & 1u8) == 1u8) == b4
        &&& (((v >> 2u8) & 1u8) == 1u8) == b5
        &&& (((v >> 1u8) & 1u8) == 1u8) == b6
        &&& (((v >> 0u8) & 1u8) == 1u8) == b7
    }) by (bit_vector)
        requires
            v == ((if b0 { 128u8 } else { 0u8 }) + (if b1 { 64u8 } else { 0u8 }) + (if b2 {
                32u8
            } else {
                0u8
            }) + (if b3 { 16u8 } else { 0u8 }) + (if b4 { 8u8 } else { 0u8 }) + (if b5 {
                4u8
            } else {
                0u8
            }) + (if b6 { 2u8 } else { 0u8 }) + (if b7 { 1u8 } else { 0u8 })) as u8,
    ;
}

/// Unpacking packed bits gives the bits back, padded with `false` to a
/// whole number of bytes.
pub proof fn lemma_bits_bytes_roundtrip(bits: Seq<bool>)
    ensures
        bytes_bits_spec(bits_bytes_spec(bits)) == Seq::new(
            (((bits.len() + 7) / 8) * 8) as nat,
            |i: int| padded_bit(bits, i),
        ),
{
    let d = bits_bytes_spec(bits);
    let target = Seq::new((((bits.len() + 7) / 8) * 8) as nat, |i: int| padded_bit(bits, i));
    assert forall|i: int| 0 <= i < target.len() implies #[trigger] bytes_bits_spec(d)[i]
        == target[i] by {
        let k = i / 8;
        let j = i % 8;
        lemma_bits_of_packed(
            padded_bit(bits, 8 * k),
            padded_bit(bits, 8 * k + 1),
            padded_bit(bits, 8 * k + 2),
            padded_bit(bits, 8 * k + 3),
            padded_bit(bits, 8 * k + 4),
            padded_bit(bits, 8 * k + 5),
            padded_bit(bits, 8 * k + 6),
            padded_bit(bits, 8 * k + 7),
        );
        assert(i == 8 * k + j);
    }
    assert(bytes_bits_spec(d) =~= target);
}

} // verus!
