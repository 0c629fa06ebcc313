//! Key-seeded per-frame bit allocation (interleaving).

use crate::dsp::sync::{key_seed, key_seed_spec};
use crate::outside::{keyed_shuffle, keyed_shuffle_spec};
use vstd::prelude::*;
use vstd::slice::slice_subrange;
use vstd::string::StringSliceAdditionalSpecFns;

verus! {

broadcast use vstd::seq_lib::group_seq_properties;

/// Assignment of payload bit indices to frames: frame `f` carries, in slot
/// order, the bit indices `frame_bits[f]`.
#[derive(Debug, Clone)]
pub struct BitAllocation {
    pub frame_bits: Vec<Vec<usize>>,
    pub total_bits: usize,
}

/// The number of bits allocated: the request, capped by the (saturating)
/// capacity.
pub open spec fn alloc_count(num_frames: nat, bits_per_frame: nat, total_bits: nat) -> nat {
    let capacity = if num_frames * bits_per_frame > usize::MAX {
        usize::MAX as nat
    } else {
        num_frames * bits_per_frame
    };
    if total_bits < capacity {
        total_bits
    } else {
        capacity
    }
}

/// The indices `0 .. n` in order.
pub open spec fn index_seq(n: nat) -> Seq<usize> {
    Seq::new(n, |i: int| i as usize)
}

/// The keyed order in which bit indices are dealt to frames.
pub open spec fn alloc_order(key: Seq<u8>, n: nat) -> Seq<usize> {
    keyed_shuffle_spec(key_seed_spec(key, "bit-alloc".spec_bytes()), index_seq(n))
}

/// Slots per frame as dealt (at least one).
pub open spec fn slot_width(bits_per_frame: nat) -> nat {
    if bits_per_frame == 0 {
        1
    } else {
        bits_per_frame
    }
}

/// The bit indices frame `f` receives from a dealing order of length `n`.
pub open spec fn frame_slice(order: Seq<usize>, width: nat, f: nat) -> Seq<usize> {
    let n = order.len();
    let lo = if f * width < n {
        f * width
    } else {
        n
    };
    let hi = if (f + 1) * width < n {
        (f + 1) * width
    } else {
        n
    };
    order.subrange(lo as int, hi as int)
}

/// The first `k` frames' bit indices, one after the other.
pub open spec fn concat_frames(frames: Seq<Seq<usize>>, k: nat) -> Seq<usize>
    decreases k,
{
    if k == 0 {
        Seq::empty()
    } else {
        concat_frames(frames, (k - 1) as nat) + frames[k - 1]
    }
}

/// How many bit indices frame `f` holds when `total` are dealt
/// `bits_per_frame` to a frame: full frames, then the rest, then none.
pub open spec fn frame_fill(bits_per_frame: nat, total: nat, f: nat) -> nat {
    if f * bits_per_frame >= total {
        0
    } else if total - f * bits_per_frame < bits_per_frame {
        (total - f * bits_per_frame) as nat
    } else {
        bits_per_frame
    }
}

proof fn lemma_slices_concat(order: Seq<usize>, w: nat, frames: Seq<Seq<usize>>, k: nat)
    requires
        w >= 1,
        k <= frames.len(),
        forall|g: int| 0 <= g < frames.len() ==> #[trigger] frames[g] == frame_slice(order, w, g as nat),
    ensures
        concat_frames(frames, k) =~= order.take(
            if k * w < order.len() {
                (k * w) as int
            } else {
                order.len() as int
            },
        ),
    decreases k,
{
    if k > 0 {
        let j = (k - 1) as nat;
        lemma_slices_concat(order, w, frames, j);
        assert(j * w + w == k * w) by (nonlinear_arith)
            requires
                j == k - 1,
        ;
        assert(frames[j as int] == frame_slice(order, w, j));
        let n = order.len();
        let a: int = if j * w < n {
            (j * w) as int
        } else {
            n as int
        };
        let b: int = if k * w < n {
            (k * w) as int
        } else {
            n as int
        };
        assert(a <= b);
        assert(concat_frames(frames, k) == concat_frames(frames, j) + frames[j as int]);
        assert(frames[j as int] =~= order.subrange(a, b));
        assert(order.take(a) + order.subrange(a, b) =~= order.take(b));
        assert(concat_frames(frames, k) =~= order.take(b));
    } else {
        assert(k * w == 0) by (nonlinear_arith)
            requires
                k == 0,
        ;
        assert(order.take(0) =~= Seq::<usize>::empty());
    }
}

proof fn lemma_slice_len(order: Seq<usize>, w: nat, f: nat)
    requires
        w >= 1,
    ensures
        frame_slice(order, w, f).len() == frame_fill(w, order.len(), f),
{
    assert(f * w + w == (f + 1) * w) by (nonlinear_arith);
}

impl BitAllocation {
    /// Deals the first `min(total_bits, num_frames * bits_per_frame)` bit
    /// indices, in a key-shuffled order, to the frames in turn,
    /// `bits_per_frame` to a frame.
    pub fn plan(num_frames: usize, bits_per_frame: usize, total_bits: usize, key: &[u8]) -> (r:
        Self)
        ensures
            r.total_bits == alloc_count(num_frames as nat, bits_per_frame as nat, total_bits as nat),
            r.frame_bits@.len() == num_frames,
            forall|f: int|
                0 <= f < num_frames ==> #[trigger] r.frame_bits@[f]@ == frame_slice(
                    alloc_order(key@, r.total_bits as nat),
                    slot_width(bits_per_frame as nat),
                    f as nat,
                ),
            alloc_order(key@, r.total_bits as nat).len() == r.total_bits,
            alloc_order(key@, r.total_bits as nat).to_multiset() == index_seq(
                r.total_bits as nat,
            ).to_multiset(),
            forall|j: usize|
                j < r.total_bits ==> #[trigger] alloc_order(key@, r.total_bits as nat).contains(j),
            r.total_bits <= num_frames * slot_width(bits_per_frame as nat),
            concat_frames(r.frame_bits@.map_values(|v: Vec<usize>| v@), num_frames as nat)
                == alloc_order(key@, r.total_bits as nat),
            forall|f: int|
                0 <= f < num_frames ==> #[trigger] r.frame_bits@[f]@.len() == frame_fill(
                    bits_per_frame as nat,
                    r.total_bits as nat,
                    f as nat,
                ),
    {
        let capacity = match num_frames.checked_mul(bits_per_frame) {
            Some(c) => c,
            None => usize::MAX,
        };
        let n = if total_bits < capacity {
            total_bits
        } else {
            capacity
        };
        let mut indices: Vec<usize> = Vec::new();
        let mut i: usize = 0;
        while i < n
            invariant
                i <= n,
                indices@ == index_seq(i as nat),
            decreases n - i,
        {
            indices.push(i);
            i = i + 1;
            assert(indices@ =~= index_seq(i as nat));
        }
        let seed = key_seed(key, "bit-alloc".as_bytes());
        let ghost before = indices@;
        keyed_shuffle(&mut indices, seed.as_slice());
        let width: usize = if bits_per_frame == 0 {
            1
        } else {
            bits_per_frame
        };
        proof {
            assert(indices@ == alloc_order(key@, n as nat));
            before.to_multiset_ensures();
            indices@.to_multiset_ensures();
            assert(indices@.to_multiset() == before.to_multiset());
            assert(indices@.len() == n);
            assert forall|j: usize| j < n implies #[trigger] indices@.contains(j) by {
                assert(before[j as int] == j);
                assert(before.contains(j));
                assert(before.to_multiset().count(j) > 0);
                assert(indices@.to_multiset().count(j) > 0);
            }
        }
        let mut frame_bits: Vec<Vec<usize>> = Vec::new();
        let mut f: usize = 0;
        while f < num_frames
            invariant
                f <= num_frames,
                n == indices@.len(),
                width == slot_width(bits_per_frame as nat),
                frame_bits@.len() == f,
                forall|g: int|
                    0 <= g < f ==> #[trigger] frame_bits@[g]@ == frame_slice(
                        indices@,
                        width as nat,
                        g as nat,
                    ),
            decreases num_frames - f,
        {
            let q = n / width;
            proof {
                assert(q * width <= n && n < (q + 1) * width) by (nonlinear_arith)
                    requires
                        width > 0,
                        q == n / width,
                ;
                assert(f <= q ==> f * width <= q * width) by (nonlinear_arith)
                    requires
                        width > 0,
                ;
                assert(f > q ==> f * width >= (q + 1) * width) by (nonlinear_arith)
                    requires
                        width > 0,
                ;
                assert(f + 1 <= q ==> (f + 1) * width <= q * width) by (nonlinear_arith)
                    requires
                        width > 0,
                ;
                assert(f + 1 > q ==> (f + 1) * width >= (q + 1) * width) by (nonlinear_arith)
                    requires
                        width > 0,
                ;
                assert(f * width <= (f + 1) * width) by (nonlinear_arith);
            }
            let lo = if f <= q {
                f * width
            } else {
                n
            };
            let hi = if f + 1 <= q {
                (f + 1) * width
            } else {
                n
            };
            let slot = slice_subrange(indices.as_slice(), lo, hi);
            let mut v: Vec<usize> = Vec::new();
            let mut k: usize = 0;
            while k < slot.len()
                invariant
                    k <= slot@.len(),
                    v@ == slot@.subrange(0, k as int),
                decreases slot@.len() - k,
            {
                v.push(slot[k]);
                k = k + 1;
                assert(v@ =~= slot@.subrange(0, k as int));
            }
            assert(v@ =~= slot@);
            frame_bits.push(v);
            f = f + 1;
        }
        proof {
            assert(n <= num_frames * width) by (nonlinear_arith)
                requires
                    n <= capacity,
                    (capacity == usize::MAX && num_frames * bits_per_frame > usize::MAX) || capacity
                        == num_frames * bits_per_frame,
                    bits_per_frame == 0 || width == bits_per_frame,
                    width >= 1,
            ;
            let views = frame_bits@.map_values(|v: Vec<usize>| v@);
            assert forall|g: int| 0 <= g < views.len() implies #[trigger] views[g] == frame_slice(
                indices@,
                width as nat,
                g as nat,
            ) by {
                assert(views[g] == frame_bits@[g]@);
            }
            lemma_slices_concat(indices@, width as nat, views, num_frames as nat);
            assert(num_frames * width >= n);
            assert(indices@.take(n as int) =~= indices@);
            assert forall|f: int| 0 <= f < num_frames implies #[trigger] frame_bits@[f]@.len()
                == frame_fill(bits_per_frame as nat, n as nat, f as nat) by {
                lemma_slice_len(indices@, width as nat, f as nat);
                if bits_per_frame == 0 {
                    assert(n == 0);
                    assert(f * 0 == 0) by (nonlinear_arith);
                }
            }
        }
        BitAllocation { frame_bits, total_bits: n }
    }
}

} // verus!
