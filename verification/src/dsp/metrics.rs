//! Bit errors between an expected and a recovered message.

use vstd::prelude::*;

verus! {

/// Byte `i` of `s`, zero past its end.
pub open spec fn byte_or_zero(s: Seq<u8>, i: int) -> u8 {
    if 0 <= i < s.len() {
        s[i]
    } else {
        0
    }
}

/// Bits among the low `k` in which two bytes differ.
pub open spec fn differing_bits(a: u8, b: u8, k: nat) -> nat
    decreases k,
{
    if k == 0 {
        0
    } else {
        let j = (k - 1) as u8;
        differing_bits(a, b, (k - 1) as nat) + if (a >> j) & 1 != (b >> j) & 1 {
            1nat
        } else {
            0nat
        }
    }
}

/// Differing bits over the first `n` byte positions, the shorter message
/// read as zero bytes past its end.
pub open spec fn bit_errors_upto(expected: Seq<u8>, got: Seq<u8>, n: nat) -> nat
    decreases n,
{
    if n == 0 {
        0
    } else {
        bit_errors_upto(expected, got, (n - 1) as nat) + differing_bits(
            byte_or_zero(expected, n - 1),
            byte_or_zero(got, n - 1),
            8,
        )
    }
}

/// Differing bits over the longer message's length.
pub open spec fn bit_errors_spec(expected: Seq<u8>, got: Seq<u8>) -> nat {
    bit_errors_upto(
        expected,
        got,
        if expected.len() < got.len() {
            got.len()
        } else {
            expected.len()
        },
    )
}

proof fn lemma_differing_bits_bound(a: u8, b: u8, k: nat)
    ensures
        differing_bits(a, b, k) <= k,
    decreases k,
{
    if k > 0 {
        lemma_differing_bits_bound(a, b, (k - 1) as nat);
    }
}

proof fn lemma_bit_errors_bound(expected: Seq<u8>, got: Seq<u8>, n: nat)
    ensures
        bit_errors_upto(expected, got, n) <= 8 * n,
    decreases n,
{
    if n > 0 {
        lemma_bit_errors_bound(expected, got, (n - 1) as nat);
        lemma_differing_bits_bound(byte_or_zero(expected, n - 1), byte_or_zero(got, n - 1), 8);
    }
}

fn byte_differing_bits(a: u8, b: u8) -> (r: usize)
    ensures
        r == differing_bits(a, b, 8),
{
    let mut count: usize = 0;
    let mut k: u8 = 0;
    while k < 8
        invariant
            k <= 8,
            count == differing_bits(a, b, k as nat),
            count <= k,
        decreases 8 - k,
    {
        if (a >> k) & 1 != (b >> k) & 1 {
            count = count + 1;
        }
        k = k + 1;
    }
    count
}

/// The number of bit positions in which the recovered message differs from
/// the expected one (the bit error rate's numerator; its denominator is
/// eight times the longer length).
pub fn bit_errors(expected: &[u8], got: &[u8]) -> (r: usize)
    requires
        expected@.len() * 8 <= usize::MAX,
        got@.len() * 8 <= usize::MAX,
    ensures
        r == bit_errors_spec(expected@, got@),
{
    let n = if expected.len() < got.len() {
        got.len()
    } else {
        expected.len()
    };
    let mut errors: usize = 0;
    let mut i: usize = 0;
    while i < n
        invariant
            n == (if expected@.len() < got@.len() {
                got@.len()
            } else {
                expected@.len()
            }),
            n * 8 <= usize::MAX,
            i <= n,
            errors == bit_errors_upto(expected@, got@, i as nat),
        decreases n - i,
    {
        let a = if i < expected.len() {
            expected[i]
        } else {
            0
        };
        let b = if i < got.len() {
            got[i]
        } else {
            0
        };
        proof {
            lemma_bit_errors_bound(expected@, got@, i as nat);
            lemma_differing_bits_bound(a, b, 8);
        }
        errors = errors + byte_differing_bits(a, b);
        i = i + 1;
    }
    errors
}

/// A message read back exactly has no bit errors.
pub proof fn lemma_no_errors_on_exact_copy(m: Seq<u8>)
    ensures
        bit_errors_spec(m, m) == 0,
{
    lemma_no_errors_upto(m, m.len());
}

proof fn lemma_no_errors_upto(m: Seq<u8>, n: nat)
    ensures
        bit_errors_upto(m, m, n) == 0,
    decreases n,
{
    if n > 0 {
        lemma_no_errors_upto(m, (n - 1) as nat);
        lemma_same_byte_no_differing(byte_or_zero(m, n - 1), 8);
    }
}

proof fn lemma_same_byte_no_differing(a: u8, k: nat)
    ensures
        differing_bits(a, a, k) == 0,
    decreases k,
{
    if k > 0 {
        lemma_same_byte_no_differing(a, (k - 1) as nat);
    }
}

} // verus!
