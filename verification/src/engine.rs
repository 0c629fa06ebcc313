//! The frame layout of an embedding and the placement of payload bits in
//! it: header frames, guard frames and body frames; capacity; how body bits
//! are dealt to frame slots on embed and gathered back on extract; how
//! both-split mode shares them between two channels; and the decisions of
//! extraction (what to read, what the original is needed for, what fits).

use crate::cli::{strategy_name, ChannelMode, StrategyId};
use crate::payload::allocation::{BitAllocation, slot_width};
use crate::payload::capsule::{build_body, build_body_spec, HEADER_BYTES};
use crate::profile::ResolvedParams;
use crate::text::{chars_eq, decimal_str, push_decimal, push_decimal_usize, str_chars};
use vstd::prelude::*;

verus! {

/// Extra STFT frames between the capsule header and the body.
pub const GUARD_FRAMES: usize = 4;

/// The frame layout of an embedding.
#[derive(Debug, Clone, Copy, PartialEq, Eq, Structural)]
pub struct FrameLayout {
    /// Frames that carry the capsule header.
    pub header_frames: usize,
    /// First frame of the body (after the header and the guard frames).
    pub body_start: usize,
    /// Frames that carry the body.
    pub body_frames: usize,
}

/// Frames needed for the header bits at `header_bpf` bits a frame.
pub open spec fn header_frames_spec(header_bpf: nat) -> nat {
    let bpf = if header_bpf == 0 {
        1
    } else {
        header_bpf
    };
    ((HEADER_BYTES * 8 + bpf - 1) / (bpf as int)) as nat
}

pub open spec fn layout_spec(n_frames: nat, header_bpf: nat) -> FrameLayout {
    let hf = header_frames_spec(header_bpf);
    let start = hf + GUARD_FRAMES;
    FrameLayout {
        header_frames: hf as usize,
        body_start: start as usize,
        body_frames: (if n_frames > start {
            n_frames - start
        } else {
            0
        }) as usize,
    }
}

/// The layout of `n_frames` frames when the header takes `header_bpf`
/// bits a frame (at least one).
pub fn frame_layout(n_frames: usize, header_bpf: usize) -> (r: FrameLayout)
    ensures
        r == layout_spec(n_frames as nat, header_bpf as nat),
        r.header_frames >= 1,
        r.body_start == r.header_frames + GUARD_FRAMES,
        r.body_start + r.body_frames >= n_frames,
        r.body_frames > 0 ==> r.body_start + r.body_frames == n_frames,
{
    let bpf = if header_bpf == 0 {
        1
    } else {
        header_bpf
    };
    let header_bits = HEADER_BYTES * 8;
    let header_frames = (header_bits - 1) / bpf + 1;
    assert(header_frames == (header_bits + bpf - 1) / (bpf as int)) by (nonlinear_arith)
        requires
            bpf >= 1,
            header_bits == 384,
            header_frames == (header_bits - 1) / (bpf as int) + 1,
    ;
    assert(header_frames <= 384) by (nonlinear_arith)
        requires
            bpf >= 1,
            header_frames == (384 - 1) / (bpf as int) + 1,
    ;
    let body_start = header_frames + GUARD_FRAMES;
    let body_frames = if n_frames > body_start {
        n_frames - body_start
    } else {
        0
    };
    FrameLayout { header_frames, body_start, body_frames }
}

/// Why an embedding does not fit its carrier.
pub open spec fn embed_layout_error(
    n_frames: nat,
    bits_per_frame: nat,
    header_bpf: nat,
    fft_size: nat,
) -> Option<Seq<char>> {
    if n_frames == 0 {
        Some("carrier too short for FFT size "@ + decimal_str(fft_size))
    } else if bits_per_frame == 0 {
        Some("zero capacity with current band/strategy"@)
    } else if layout_spec(n_frames, header_bpf).body_frames == 0 {
        Some("not enough frames for capsule header + guard"@)
    } else {
        None
    }
}

/// Checks that a carrier of `n_frames` frames holds a header (at
/// `header_bpf` bits a frame), the guard and at least one body frame of
/// `bits_per_frame` bits, and gives its layout.
pub fn plan_embed_layout(n_frames: usize, bits_per_frame: usize, header_bpf: usize, fft_size: u32) -> (r:
    Result<FrameLayout, String>)
    ensures
        r matches Ok(l) ==> l == layout_spec(n_frames as nat, header_bpf as nat)
            && embed_layout_error(
            n_frames as nat,
            bits_per_frame as nat,
            header_bpf as nat,
            fft_size as nat,
        ) is None,
        r matches Err(e) ==> embed_layout_error(
            n_frames as nat,
            bits_per_frame as nat,
            header_bpf as nat,
            fft_size as nat,
        ) == Some(e@),
{
    if n_frames == 0 {
        let mut msg = String::from_str("carrier too short for FFT size ");
        push_decimal(&mut msg, fft_size);
        return Err(msg);
    }
    if bits_per_frame == 0 {
        return Err(String::from_str("zero capacity with current band/strategy"));
    }
    let layout = frame_layout(n_frames, header_bpf);
    if layout.body_frames == 0 {
        return Err(String::from_str("not enough frames for capsule header + guard"));
    }
    Ok(layout)
}

/// Body capacity in bits: every body frame's bits, doubled when both-split
/// mode has two work channels.
pub fn body_capacity(bits_per_frame: usize, body_frames: usize, split_pair: bool) -> (r: usize)
    requires
        bits_per_frame * body_frames * 2 <= usize::MAX,
    ensures
        r == bits_per_frame * body_frames * (if split_pair {
            2int
        } else {
            1int
        }),
{
    assert(bits_per_frame * body_frames <= usize::MAX) by (nonlinear_arith)
        requires
            bits_per_frame * body_frames * 2 <= usize::MAX,
    ;
    let c = bits_per_frame * body_frames;
    if split_pair {
        c * 2
    } else {
        c
    }
}

/// Refuses a body that needs more bits than the capacity.
pub fn check_capacity(needed_bits: usize, capacity_bits: usize) -> (r: Result<(), String>)
    ensures
        r is Ok <==> needed_bits <= capacity_bits,
        r matches Err(e) ==> e@ == "message+ECC needs "@ + decimal_str(needed_bits as nat)
            + " bits but capacity is "@ + decimal_str(capacity_bits as nat) + " bits"@,
{
    if needed_bits > capacity_bits {
        let mut msg = String::from_str("message+ECC needs ");
        push_decimal_usize(&mut msg, needed_bits);
        msg.append(" bits but capacity is ");
        push_decimal_usize(&mut msg, capacity_bits);
        msg.append(" bits");
        return Err(msg);
    }
    Ok(())
}

// ------------------------------------------------------------ bit dealing
/// The bits channel `ch` carries in both-split mode: those at even indices
/// for channel 0, at odd indices for channel 1.
pub open spec fn split_bits_spec(bits: Seq<bool>, ch: nat) -> Seq<bool> {
    Seq::new(
        (if ch == 0 {
            (bits.len() + 1) / 2
        } else {
            bits.len() / 2
        }) as nat,
        |i: int| bits[2 * i + ch],
    )
}

/// The body bits that work channel `ch_i` carries in both-split mode.
pub fn split_channel_bits(bits: &Vec<bool>, ch_i: usize) -> (r: Vec<bool>)
    requires
        ch_i < 2,
    ensures
        r@ == split_bits_spec(bits@, ch_i as nat),
{
    let mut out: Vec<bool> = Vec::new();
    let mut i: usize = 0;
    let ghost target = split_bits_spec(bits@, ch_i as nat);
    while i < bits.len()
        invariant
            ch_i < 2,
            i <= bits@.len(),
            target == split_bits_spec(bits@, ch_i as nat),
            out@ == target.subrange(0, out@.len() as int),
            out@.len() == (if ch_i == 0 {
                (i + 1) / 2
            } else {
                (i / 2) as int
            }),
        decreases bits@.len() - i,
    {
        if i % 2 == ch_i {
            out.push(bits[i]);
            assert(out@ =~= target.subrange(0, out@.len() as int));
        }
        i = i + 1;
    }
    assert(out@ =~= target);
    out
}

/// The bits a body frame carries: slot `s` holds the body bit that the
/// allocation deals to it, unused slots hold `false`.
pub open spec fn scatter_spec(frame: Seq<usize>, bpf: nat, bits: Seq<bool>) -> Seq<bool> {
    Seq::new(
        bpf,
        |s: int|
            if s < frame.len() && frame[s] < bits.len() {
                bits[frame[s] as int]
            } else {
                false
            },
    )
}

/// The bits for body frame `f`.
pub fn frame_bits_for(alloc: &BitAllocation, f: usize, bpf: usize, channel_bits: &Vec<bool>) -> (r:
    Vec<bool>)
    requires
        f < alloc.frame_bits@.len(),
    ensures
        r@ == scatter_spec(alloc.frame_bits@[f as int]@, bpf as nat, channel_bits@),
{
    let frame = &alloc.frame_bits[f];
    let mut out: Vec<bool> = Vec::new();
    let mut s: usize = 0;
    while s < bpf
        invariant
            frame@ == alloc.frame_bits@[f as int]@,
            s <= bpf,
            out@ == scatter_spec(frame@, bpf as nat, channel_bits@).subrange(0, s as int),
        decreases bpf - s,
    {
        let b = if s < frame.len() && frame[s] < channel_bits.len() {
            channel_bits[frame[s]]
        } else {
            false
        };
        out.push(b);
        s = s + 1;
        assert(out@ =~= scatter_spec(frame@, bpf as nat, channel_bits@).subrange(0, s as int));
    }
    assert(out@ =~= scatter_spec(frame@, bpf as nat, channel_bits@));
    out
}

/// Applies the slots `0 .. k` of one frame to the recovered bits: slot `s`
/// stores the extracted bit `ext[s]` at the index the frame deals it.
pub open spec fn apply_slots(acc: Seq<bool>, frame: Seq<usize>, ext: Seq<bool>, k: nat) -> Seq<
    bool,
>
    decreases k,
{
    if k == 0 {
        acc
    } else {
        let a = apply_slots(acc, frame, ext, (k - 1) as nat);
        let s = k - 1;
        if s < ext.len() && s < frame.len() && frame[s] < a.len() {
            a.update(frame[s] as int, ext[s])
        } else {
            a
        }
    }
}

/// The recovered bits after the first `f` body frames.
pub open spec fn gather_spec(total: nat, frames: Seq<Seq<usize>>, exts: Seq<Seq<bool>>, f: nat) -> Seq<
    bool,
>
    decreases f,
{
    if f == 0 {
        Seq::new(total, |i: int| false)
    } else {
        let acc = gather_spec(total, frames, exts, (f - 1) as nat);
        apply_slots(acc, frames[f - 1], exts[f - 1], frames[f - 1].len())
    }
}

pub open spec fn frames_view(alloc: BitAllocation) -> Seq<Seq<usize>> {
    alloc.frame_bits@.map_values(|v: Vec<usize>| v@)
}

pub open spec fn exts_view(exts: Vec<Vec<bool>>) -> Seq<Seq<bool>> {
    exts@.map_values(|v: Vec<bool>| v@)
}

/// Gathers the body bits back from the bits extracted from the body
/// frames (`extracted[f]` for body frame `f`; frames past the end of
/// `extracted` were not available).
pub fn place_extracted_bits(alloc: &BitAllocation, extracted: &Vec<Vec<bool>>) -> (r: Vec<bool>)
    ensures
        r@ == gather_spec(
            alloc.total_bits as nat,
            frames_view(*alloc),
            exts_view(*extracted),
            (if extracted@.len() < alloc.frame_bits@.len() {
                extracted@.len()
            } else {
                alloc.frame_bits@.len()
            }) as nat,
        ),
{
    let total = alloc.total_bits;
    let mut acc: Vec<bool> = Vec::new();
    let mut i: usize = 0;
    while i < total
        invariant
            i <= total,
            acc@ == Seq::new(i as nat, |j: int| false),
        decreases total - i,
    {
        acc.push(false);
        i = i + 1;
        assert(acc@ =~= Seq::new(i as nat, |j: int| false));
    }
    let nframes = if extracted.len() < alloc.frame_bits.len() {
        extracted.len()
    } else {
        alloc.frame_bits.len()
    };
    let ghost fv = frames_view(*alloc);
    let ghost ev = exts_view(*extracted);
    let mut f: usize = 0;
    while f < nframes
        invariant
            nframes <= extracted@.len(),
            nframes <= alloc.frame_bits@.len(),
            fv == frames_view(*alloc),
            ev == exts_view(*extracted),
            f <= nframes,
            acc@ == gather_spec(total as nat, fv, ev, f as nat),
            acc@.len() == total,
        decreases nframes - f,
    {
        let frame = &alloc.frame_bits[f];
        let ext = &extracted[f];
        assert(fv[f as int] == frame@);
        assert(ev[f as int] == ext@);
        let ghost start = acc@;
        let mut s: usize = 0;
        while s < frame.len()
            invariant
                s <= frame@.len(),
                acc@ == apply_slots(start, frame@, ext@, s as nat),
                acc@.len() == start.len(),
            decreases frame@.len() - s,
        {
            let idx = frame[s];
            if s < ext.len() && idx < acc.len() {
                acc.set(idx, ext[s]);
            }
            s = s + 1;
        }
        f = f + 1;
    }
    acc
}

/// On a channel that returns exactly the bits that were embedded, gathering
/// gives back the body bits: every frame slot carries the bit the allocation
/// dealt to it, and every body bit is dealt to some slot.
pub proof fn lemma_gather_scatter(
    frames: Seq<Seq<usize>>,
    bpf: nat,
    bits: Seq<bool>,
)
    requires
        forall|f: int, s: int|
            0 <= f < frames.len() && 0 <= s < frames[f].len() ==> #[trigger] frames[f][s]
                < bits.len(),
        forall|f: int| 0 <= f < frames.len() ==> #[trigger] frames[f].len() <= bpf,
        forall|j: int| 0 <= j < bits.len() ==> #[trigger] written_by(frames, frames.len() as int, j),
    ensures
        gather_spec(
            bits.len(),
            frames,
            Seq::new(frames.len(), |f: int| scatter_spec(frames[f], bpf, bits)),
            frames.len(),
        ) == bits,
{
    let exts = Seq::new(frames.len(), |f: int| scatter_spec(frames[f], bpf, bits));
    lemma_gather_partial(frames, bpf, bits, exts, frames.len());
    let g = gather_spec(bits.len(), frames, exts, frames.len());
    assert forall|j: int| 0 <= j < bits.len() implies g[j] == bits[j] by {
        assert(written_by(frames, frames.len() as int, j));
    }
    assert(g =~= bits);
}

/// Index `j` is dealt to some slot of the first `upto` frames.
pub open spec fn written_by(frames: Seq<Seq<usize>>, upto: int, j: int) -> bool {
    exists|f: int, s: int| 0 <= f < upto && 0 <= s < frames[f].len() && #[trigger] frames[f][s] == j
}

proof fn lemma_gather_partial(
    frames: Seq<Seq<usize>>,
    bpf: nat,
    bits: Seq<bool>,
    exts: Seq<Seq<bool>>,
    k: nat,
)
    requires
        k <= frames.len(),
        exts == Seq::new(frames.len(), |f: int| scatter_spec(frames[f], bpf, bits)),
        forall|f: int, s: int|
            0 <= f < frames.len() && 0 <= s < frames[f].len() ==> #[trigger] frames[f][s]
                < bits.len(),
        forall|f: int| 0 <= f < frames.len() ==> #[trigger] frames[f].len() <= bpf,
    ensures
        ({
            let g = gather_spec(bits.len(), frames, exts, k);
            &&& g.len() == bits.len()
            &&& forall|j: int|
                0 <= j < bits.len() ==> (g[j] == bits[j] || (!g[j] && !written_by(
                    frames,
                    k as int,
                    j,
                )))
            &&& forall|j: int| 0 <= j < bits.len() && written_by(frames, k as int, j) ==> g[j] == bits[j]
        }),
    decreases k,
{
    if k > 0 {
        lemma_gather_partial(frames, bpf, bits, exts, (k - 1) as nat);
        let f = k - 1;
        let acc = gather_spec(bits.len(), frames, exts, (k - 1) as nat);
        lemma_apply_slots(acc, frames[f], exts[f], bpf, bits, frames[f].len(), frames, f);
        let g = gather_spec(bits.len(), frames, exts, k);
        assert forall|j: int| 0 <= j < bits.len() && written_by(frames, k as int, j) implies g[j]
            == bits[j] by {
            let (ff, ss) = choose|ff: int, ss: int|
                0 <= ff < k && 0 <= ss < frames[ff].len() && #[trigger] frames[ff][ss] == j;
            if ff < f {
                assert(written_by(frames, (k - 1) as int, j));
            } else {
                assert(ff == f);
            }
        }
        assert forall|j: int| 0 <= j < bits.len() implies (g[j] == bits[j] || (!g[j]
            && !written_by(frames, k as int, j))) by {
            if written_by(frames, k as int, j) {
            } else {
                if written_by(frames, (k - 1) as int, j) {
                    let (ff, ss) = choose|ff: int, ss: int|
                        0 <= ff < k - 1 && 0 <= ss < frames[ff].len() && #[trigger] frames[ff][ss]
                            == j;
                    assert(written_by(frames, k as int, j));
                }
                assert(forall|s: int| 0 <= s < frames[f].len() ==> frames[f][s] != j);
            }
        }
    }
}

proof fn lemma_apply_slots(
    acc: Seq<bool>,
    frame: Seq<usize>,
    ext: Seq<bool>,
    bpf: nat,
    bits: Seq<bool>,
    k: nat,
    frames: Seq<Seq<usize>>,
    f: int,
)
    requires
        0 <= f < frames.len(),
        frame == frames[f],
        ext == scatter_spec(frame, bpf, bits),
        k <= frame.len(),
        frame.len() <= bpf,
        acc.len() == bits.len(),
        forall|s: int| 0 <= s < frame.len() ==> #[trigger] frame[s] < bits.len(),
    ensures
        ({
            let a = apply_slots(acc, frame, ext, k);
            &&& a.len() == acc.len()
            &&& forall|j: int|
                0 <= j < acc.len() ==> #[trigger] a[j] == (if exists|s: int|
                    0 <= s < k && #[trigger] frame[s] == j {
                    bits[j]
                } else {
                    acc[j]
                })
        }),
    decreases k,
{
    if k > 0 {
        lemma_apply_slots(acc, frame, ext, bpf, bits, (k - 1) as nat, frames, f);
        let a0 = apply_slots(acc, frame, ext, (k - 1) as nat);
        let s = k - 1;
        let a = apply_slots(acc, frame, ext, k);
        assert(s < ext.len());
        assert(ext[s as int] == bits[frame[s as int] as int]);
        assert forall|j: int| 0 <= j < acc.len() implies #[trigger] a[j] == (if exists|t: int|
            0 <= t < k && #[trigger] frame[t] == j {
            bits[j]
        } else {
            acc[j]
        }) by {
            if frame[s as int] == j {
                assert(exists|t: int| 0 <= t < k && #[trigger] frame[t] == j);
            } else {
                if exists|t: int| 0 <= t < k && #[trigger] frame[t] == j {
                    let t = choose|t: int| 0 <= t < k && #[trigger] frame[t] == j;
                    assert(t != s);
                    assert(exists|t2: int| 0 <= t2 < k - 1 && #[trigger] frame[t2] == j);
                } else {
                    assert(!exists|t2: int| 0 <= t2 < k - 1 && #[trigger] frame[t2] == j);
                }
            }
        }
    }
}

// ------------------------------------------------------------ decisions
/// Whether a channel plan shares the body between two channels: both-split
/// mode with two work streams.
pub open spec fn split_pair_spec(mode: ChannelMode, n_work: nat) -> bool {
    mode == ChannelMode::BothSplit && n_work >= 2
}

/// The body bits work channel `ch_i` carries: its half in a both-split pair,
/// all of them otherwise.
pub fn channel_bits(mode: ChannelMode, n_work: usize, bits: &Vec<bool>, ch_i: usize) -> (r: Vec<bool>)
    requires
        ch_i < 2,
    ensures
        r@ == (if split_pair_spec(mode, n_work as nat) {
            split_bits_spec(bits@, ch_i as nat)
        } else {
            bits@
        }),
{
    let split = match mode {
        ChannelMode::BothSplit => n_work >= 2,
        _ => false,
    };
    if split {
        split_channel_bits(bits, ch_i)
    } else {
        let mut out: Vec<bool> = Vec::new();
        let mut i: usize = 0;
        while i < bits.len()
            invariant
                i <= bits@.len(),
                out@ =~= bits@.take(i as int),
            decreases bits@.len() - i,
        {
            out.push(bits[i]);
            i = i + 1;
        }
        out
    }
}

/// Bits to read from each channel of a both-split pair: channel 0 holds the
/// even-indexed half (the larger one when the count is odd).
pub fn split_bit_counts(needed_bits: usize) -> (r: (usize, usize))
    ensures
        r.0 == (needed_bits + 1) / 2,
        r.1 == needed_bits / 2,
        r.0 + r.1 == needed_bits,
{
    (needed_bits / 2 + needed_bits % 2, needed_bits / 2)
}

/// Refuses a strategy that reads against the original when none is given.
pub fn check_original(strategy: StrategyId, has_original: bool) -> (r: Result<(), String>)
    ensures
        r is Ok <==> !(strategy == StrategyId::Differential && !has_original),
        r matches Err(e) ==> e@ == "strategy "@ + strategy_name(strategy) + " requires --original"@,
{
    if strategy.requires_original() && !has_original {
        let mut msg = String::from_str("strategy ");
        msg.append(strategy.as_str());
        msg.append(" requires --original");
        return Err(msg);
    }
    Ok(())
}

/// The recovered body cut to its recorded length (when one is known and
/// shorter).
pub fn trim_body(bytes: Vec<u8>, payload_len: Option<usize>) -> (r: Vec<u8>)
    ensures
        r@ == (match payload_len {
            Some(n) => if n < bytes@.len() {
                bytes@.take(n as int)
            } else {
                bytes@
            },
            None => bytes@,
        }),
{
    match payload_len {
        Some(n) => {
            if n < bytes.len() {
                let mut out: Vec<u8> = Vec::new();
                let mut i: usize = 0;
                while i < n
                    invariant
                        n < bytes@.len(),
                        i <= n,
                        out@ =~= bytes@.take(i as int),
                    decreases n - i,
                {
                    out.push(bytes[i]);
                    i = i + 1;
                }
                out
            } else {
                bytes
            }
        },
        None => bytes,
    }
}

/// Header bits padded with `false` (or cut) to fill `header_frames` frames
/// of `header_bpf` bits.
pub open spec fn padded_header_spec(hbits: Seq<bool>, total: nat) -> Seq<bool> {
    Seq::new(total, |i: int| if i < hbits.len() { hbits[i] } else { false })
}

/// The header bits each header frame carries, frame by frame.
pub fn header_frame_chunks(hbits: &Vec<bool>, header_frames: usize, header_bpf: usize) -> (r: Vec<
    Vec<bool>,
>)
    requires
        header_frames * header_bpf <= usize::MAX,
    ensures
        r@.len() == header_frames,
        forall|f: int|
            0 <= f < header_frames ==> #[trigger] r@[f]@ == padded_header_spec(
                hbits@,
                (header_frames * header_bpf) as nat,
            ).subrange(f * header_bpf, (f + 1) * header_bpf),
{
    let ghost total = (header_frames * header_bpf) as nat;
    let ghost padded = padded_header_spec(hbits@, total);
    let mut out: Vec<Vec<bool>> = Vec::new();
    let mut f: usize = 0;
    while f < header_frames
        invariant
            header_frames * header_bpf <= usize::MAX,
            total == header_frames * header_bpf,
            padded == padded_header_spec(hbits@, total),
            f <= header_frames,
            out@.len() == f,
            forall|g: int|
                0 <= g < f ==> #[trigger] out@[g]@ == padded.subrange(
                    g * header_bpf,
                    (g + 1) * header_bpf,
                ),
        decreases header_frames - f,
    {
        assert((f + 1) * header_bpf <= header_frames * header_bpf) by (nonlinear_arith)
            requires
                f < header_frames,
        ;
        assert(f * header_bpf + header_bpf == (f + 1) * header_bpf) by (nonlinear_arith);
        let start = f * header_bpf;
        let mut chunk: Vec<bool> = Vec::new();
        let mut k: usize = 0;
        while k < header_bpf
            invariant
                start == f * header_bpf,
                start + header_bpf <= total,
                total <= usize::MAX,
                padded == padded_header_spec(hbits@, total),
                k <= header_bpf,
                chunk@ =~= padded.subrange(start as int, start + k),
            decreases header_bpf - k,
        {
            let i = start + k;
            let b = if i < hbits.len() {
                hbits[i]
            } else {
                false
            };
            chunk.push(b);
            k = k + 1;
        }
        out.push(chunk);
        f = f + 1;
    }
    out
}

/// Whether a message of `message_bytes` bytes fits: the bits of its body
/// (for the resolved ECC and encryption) against the capacity. A body that
/// cannot be built, or whose bit count passes `usize::MAX`, counts as
/// `usize::MAX` bits.
pub fn message_fits(params: &ResolvedParams, message_bytes: usize, capacity_bits: usize) -> (r: bool)
    requires
        message_bytes + 64 <= usize::MAX,
    ensures
        r == (match build_body_spec(
            params.encrypt,
            params.key_bytes@,
            params.ecc,
            Seq::new(message_bytes as nat, |_i: int| 0u8),
        ) {
            Ok(b) => if b.len() * 8 > usize::MAX {
                capacity_bits == usize::MAX
            } else {
                b.len() * 8 <= capacity_bits
            },
            Err(_) => capacity_bits == usize::MAX,
        }),
{
    let mut zeros: Vec<u8> = Vec::new();
    let mut i: usize = 0;
    while i < message_bytes
        invariant
            i <= message_bytes,
            zeros@ =~= Seq::new(i as nat, |_i: int| 0u8),
        decreases message_bytes - i,
    {
        zeros.push(0u8);
        i = i + 1;
    }
    let bits = match build_body(params, zeros.as_slice()) {
        Ok(b) => match b.len().checked_mul(8) {
            Some(n) => n,
            None => usize::MAX,
        },
        Err(_) => usize::MAX,
    };
    bits <= capacity_bits
}

/// Bits needed from the body: the recorded body length in bytes, or (when
/// no length is known) every whole byte the body frames hold.
pub fn extract_needed_bits(payload_len: Option<usize>, body_frames: usize, bpf: usize) -> (r: usize)
    requires
        body_frames * bpf <= usize::MAX,
        payload_len matches Some(n) ==> n * 8 <= usize::MAX,
    ensures
        r == (match payload_len {
            Some(n) => n * 8,
            None => (body_frames * bpf / 8) * 8,
        }),
{
    match payload_len {
        Some(n) => n * 8,
        None => {
            assert(body_frames * bpf / 8 * 8 <= body_frames * bpf) by (nonlinear_arith);
            body_frames * bpf / 8 * 8
        },
    }
}

/// The strategy a sidecar names; unknown names fall back to QIM.
pub fn parse_strategy(s: &str) -> (r: StrategyId)
    ensures
        r == (if s@ == "differential"@ {
            StrategyId::Differential
        } else if s@ == "magnitude-lsb"@ {
            StrategyId::MagnitudeLsb
        } else if s@ == "spread-spectrum"@ {
            StrategyId::SpreadSpectrum
        } else {
            StrategyId::Qim
        }),
{
    let c = str_chars(s);
    if chars_eq(&c, "differential") {
        StrategyId::Differential
    } else if chars_eq(&c, "magnitude-lsb") {
        StrategyId::MagnitudeLsb
    } else if chars_eq(&c, "spread-spectrum") {
        StrategyId::SpreadSpectrum
    } else {
        StrategyId::Qim
    }
}

} // verus!
