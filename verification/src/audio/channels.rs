//! Channel mapping: which mono streams carry the payload in each channel
//! mode, how the embedded streams go back into the multichannel output, and
//! how the bits read from two channels are merged.

use crate::cli::ChannelMode;
use crate::text::{decimal_str, push_decimal_usize};
use vstd::prelude::*;

verus! {

/// A mono stream derived from the input channels.
#[derive(Debug, Clone, Copy, PartialEq, Eq, Structural)]
pub enum ChannelSource {
    /// The mean of all channels.
    Downmix,
    /// One input channel as it is.
    Channel(usize),
    /// Half the sum of channels 0 and 1.
    Mid,
    /// Half the difference of channels 0 and 1.
    Side,
}

/// The working set of mono streams that receive the payload.
#[derive(Debug, Clone)]
pub struct ChannelPlan {
    /// One or two streams to embed into.
    pub work: Vec<ChannelSource>,
    /// How the output is put back together.
    pub mode: ChannelMode,
    /// Channels of the input.
    pub num_channels: usize,
}

/// The streams a channel mode embeds into on an input of `nch` channels, or
/// the reason the mode does not apply.
pub open spec fn plan_spec(nch: nat, mode: ChannelMode) -> Result<Seq<ChannelSource>, Seq<char>> {
    if nch == 0 {
        Err("carrier has no channels"@)
    } else {
        match mode {
            ChannelMode::Mono => Ok(seq![ChannelSource::Downmix]),
            ChannelMode::Left => Ok(seq![ChannelSource::Channel(0)]),
            ChannelMode::Right => if nch < 2 {
                Err("right channel requested but audio is mono"@)
            } else {
                Ok(seq![ChannelSource::Channel(1)])
            },
            ChannelMode::Channel(n) => if n >= nch {
                Err("channel:"@ + decimal_str(n as nat) + " out of range (have "@ + decimal_str(nch)
                    + " channels)"@)
            } else {
                Ok(seq![ChannelSource::Channel(n as usize)])
            },
            ChannelMode::Mid => if nch == 1 {
                Ok(seq![ChannelSource::Channel(0)])
            } else {
                Ok(seq![ChannelSource::Mid])
            },
            ChannelMode::Side => if nch < 2 {
                Err("side mode requires stereo"@)
            } else {
                Ok(seq![ChannelSource::Side])
            },
            ChannelMode::BothMirror | ChannelMode::BothSplit => if nch < 2 {
                Ok(seq![ChannelSource::Channel(0)])
            } else {
                Ok(seq![ChannelSource::Channel(0), ChannelSource::Channel(1)])
            },
        }
    }
}

/// A plan that `prepare_for_embed` could have made.
pub open spec fn plan_wf(plan: ChannelPlan) -> bool {
    plan_spec(plan.num_channels as nat, plan.mode) == Ok::<Seq<ChannelSource>, Seq<char>>(
        plan.work@,
    )
}

/// Chooses the streams to embed into for `mode` on an input of
/// `num_channels` channels.
pub fn prepare_for_embed(num_channels: usize, mode: &ChannelMode) -> (r: Result<ChannelPlan, String>)
    ensures
        r is Ok <==> plan_spec(num_channels as nat, *mode) is Ok,
        r matches Ok(p) ==> plan_wf(p) && p.mode == *mode && p.num_channels == num_channels,
        r matches Err(e) ==> plan_spec(num_channels as nat, *mode) == Err::<
            Seq<ChannelSource>,
            Seq<char>,
        >(e@),
{
    let nch = num_channels;
    if nch == 0 {
        return Err(String::from_str("carrier has no channels"));
    }
    let mut work: Vec<ChannelSource> = Vec::new();
    match mode {
        ChannelMode::Mono => {
            work.push(ChannelSource::Downmix);
        },
        ChannelMode::Left => {
            work.push(ChannelSource::Channel(0));
        },
        ChannelMode::Right => {
            if nch < 2 {
                return Err(String::from_str("right channel requested but audio is mono"));
            }
            work.push(ChannelSource::Channel(1));
        },
        ChannelMode::Channel(n) => {
            let idx = *n as usize;
            if idx >= nch {
                let mut msg = String::from_str("channel:");
                push_decimal_usize(&mut msg, idx);
                msg.append(" out of range (have ");
                push_decimal_usize(&mut msg, nch);
                msg.append(" channels)");
                return Err(msg);
            }
            work.push(ChannelSource::Channel(idx));
        },
        ChannelMode::Mid => {
            if nch == 1 {
                work.push(ChannelSource::Channel(0));
            } else {
                work.push(ChannelSource::Mid);
            }
        },
        ChannelMode::Side => {
            if nch < 2 {
                return Err(String::from_str("side mode requires stereo"));
            }
            work.push(ChannelSource::Side);
        },
        ChannelMode::BothMirror | ChannelMode::BothSplit => {
            work.push(ChannelSource::Channel(0));
            if nch >= 2 {
                work.push(ChannelSource::Channel(1));
            }
        },
    }
    proof {
        if let Ok(s) = plan_spec(nch as nat, *mode) {
            assert(s =~= work@);
        }
    }
    let plan = ChannelPlan { work, mode: *mode, num_channels: nch };
    Ok(plan)
}

/// The streams to read the payload from: those `prepare_for_embed` picks.
pub fn extract_work_channels(num_channels: usize, mode: &ChannelMode) -> (r: Result<
    Vec<ChannelSource>,
    String,
>)
    ensures
        r matches Ok(w) ==> plan_spec(num_channels as nat, *mode) == Ok::<
            Seq<ChannelSource>,
            Seq<char>,
        >(w@),
        r matches Err(e) ==> plan_spec(num_channels as nat, *mode) == Err::<
            Seq<ChannelSource>,
            Seq<char>,
        >(e@),
{
    match prepare_for_embed(num_channels, mode) {
        Ok(p) => Ok(p.work),
        Err(e) => Err(e),
    }
}

// ------------------------------------------------------------ reassembly
/// `s` cut to at most `n` items.
pub open spec fn fit<T>(s: Seq<T>, n: nat) -> Seq<T> {
    if s.len() > n {
        s.take(n as int)
    } else {
        s
    }
}

/// `s` behind `pad` copies of `fill`.
pub open spec fn pad_front<T>(s: Seq<T>, pad: nat, fill: T) -> Seq<T> {
    Seq::new(pad, |_i: int| fill) + s
}

/// The stream that replaces output channel `i` in the single-stream modes:
/// the embedded stream for the channel it came from; in mid and side modes
/// on stereo input, the rebuilt left and right channels.
pub open spec fn replacement<T>(mode: ChannelMode, embedded: Seq<Seq<T>>, i: int) -> Option<Seq<T>> {
    match mode {
        ChannelMode::Left => if i == 0 {
            Some(embedded[0])
        } else {
            None
        },
        ChannelMode::Right => if i == 1 {
            Some(embedded[0])
        } else {
            None
        },
        ChannelMode::Channel(k) => if i == k {
            Some(embedded[0])
        } else {
            None
        },
        ChannelMode::Mid | ChannelMode::Side => if i == 0 {
            Some(embedded[0])
        } else if i == 1 {
            Some(embedded[1])
        } else {
            None
        },
        _ => None,
    }
}

/// The output channels. The single-stream modes keep the other input
/// channels, padded in front with `fill` to the embedded length (which the
/// sync preamble lengthens) and cut to it; the two-stream modes cut every
/// channel to the shorter embedded stream.
pub open spec fn reassemble_spec<T>(
    mode: ChannelMode,
    original: Seq<Seq<T>>,
    embedded: Seq<Seq<T>>,
    fill: T,
) -> Result<Seq<Seq<T>>, Seq<char>> {
    let nch = original.len();
    if embedded.len() == 0 {
        Err("no embedded channels"@)
    } else {
        let e0 = embedded[0];
        match mode {
            ChannelMode::Mono => Ok(seq![e0]),
            ChannelMode::BothMirror | ChannelMode::BothSplit => if embedded.len() >= 2 && nch >= 2 {
                let n = if e0.len() < embedded[1].len() {
                    e0.len()
                } else {
                    embedded[1].len()
                };
                Ok(
                    Seq::new(
                        nch,
                        |i: int|
                            if i == 0 {
                                e0.take(n as int)
                            } else if i == 1 {
                                embedded[1].take(n as int)
                            } else {
                                fit(original[i], n)
                            },
                    ),
                )
            } else {
                Ok(Seq::new(nch, |i: int| if i == 0 { e0 } else { fit(original[i], e0.len()) }))
            },
            _ => if mode == ChannelMode::Mid && nch == 1 {
                Ok(seq![e0])
            } else {
                let target = e0.len();
                let pad: nat = if target > original[0].len() {
                    (target - original[0].len()) as nat
                } else {
                    0
                };
                Ok(
                    Seq::new(
                        nch,
                        |i: int|
                            match replacement(mode, embedded, i) {
                                Some(r) => fit(r, target),
                                None => fit(pad_front(original[i], pad, fill), target),
                            },
                    ),
                )
            },
        }
    }
}

/// The views of a list of channels.
pub open spec fn channels_view<T>(chs: Seq<Vec<T>>) -> Seq<Seq<T>> {
    Seq::new(chs.len(), |i: int| chs[i]@)
}

/// The first `min(n, len)` items of `v`.
fn fit_copy<T: Copy>(v: &Vec<T>, n: usize) -> (r: Vec<T>)
    ensures
        r@ == fit(v@, n as nat),
{
    let m = if v.len() > n {
        n
    } else {
        v.len()
    };
    let mut out: Vec<T> = Vec::new();
    let mut i: usize = 0;
    while i < m
        invariant
            m == (if v@.len() > n {
                n as nat
            } else {
                v@.len()
            }),
            i <= m,
            out@ =~= v@.take(i as int),
        decreases m - i,
    {
        out.push(v[i]);
        i = i + 1;
    }
    out
}

/// `v` behind `pad` copies of `fill`, cut to `target` items.
fn pad_fit_copy<T: Copy>(v: &Vec<T>, pad: usize, fill: T, target: usize) -> (r: Vec<T>)
    ensures
        r@ == fit(pad_front(v@, pad as nat, fill), target as nat),
{
    let ghost full = pad_front(v@, pad as nat, fill);
    let mut out: Vec<T> = Vec::new();
    let mut i: usize = 0;
    while i < pad && i < target
        invariant
            full == pad_front(v@, pad as nat, fill),
            i <= pad,
            i <= target,
            out@ =~= full.take(i as int),
        decreases pad - i,
    {
        out.push(fill);
        i = i + 1;
    }
    if i == pad {
        let mut j: usize = 0;
        while j < v.len() && out.len() < target
            invariant
                full == pad_front(v@, pad as nat, fill),
                i == pad,
                pad <= target || j == 0,
                out@.len() == pad + j,
                j <= v@.len(),
                out@.len() <= target || (pad > target),
                out@ =~= full.take(out@.len() as int),
            decreases v@.len() - j,
        {
            out.push(v[j]);
            j = j + 1;
        }
    }
    assert(out@ =~= fit(full, target as nat));
    out
}

/// Puts the embedded streams back into the output channels (see
/// `reassemble_spec`). In mid and side modes on stereo input, `embedded`
/// holds the rebuilt left and right channels, since the mid/side sums are
/// computed on samples by the caller.
pub fn reassemble<T: Copy>(plan: &ChannelPlan, original: &Vec<Vec<T>>, embedded: &Vec<Vec<T>>, fill: T) -> (r:
    Result<Vec<Vec<T>>, String>)
    requires
        plan_wf(*plan),
        original@.len() == plan.num_channels,
        (plan.mode == ChannelMode::Side || (plan.mode == ChannelMode::Mid && plan.num_channels >= 2))
            && embedded@.len() >= 1 ==> embedded@.len() >= 2,
    ensures
        r matches Ok(chs) ==> reassemble_spec(
            plan.mode,
            channels_view(original@),
            channels_view(embedded@),
            fill,
        ) == Ok::<Seq<Seq<T>>, Seq<char>>(channels_view(chs@)),
        r matches Err(e) ==> reassemble_spec(
            plan.mode,
            channels_view(original@),
            channels_view(embedded@),
            fill,
        ) == Err::<Seq<Seq<T>>, Seq<char>>(e@),
        r is Ok <==> embedded@.len() > 0,
{
    let ghost orig_v = channels_view(original@);
    let ghost emb_v = channels_view(embedded@);
    let ghost spec = reassemble_spec(plan.mode, orig_v, emb_v, fill);
    if embedded.len() == 0 {
        return Err(String::from_str("no embedded channels"));
    }
    let nch = original.len();
    let mode = plan.mode;
    let mut out: Vec<Vec<T>> = Vec::new();
    match mode {
        ChannelMode::Mono => {
            out.push(fit_copy(&embedded[0], embedded[0].len()));
            proof {
                assert(channels_view(out@) =~= seq![emb_v[0]]);
            }
            return Ok(out);
        },
        ChannelMode::BothMirror | ChannelMode::BothSplit => {
            let two = embedded.len() >= 2 && nch >= 2;
            let n = if two {
                if embedded[0].len() < embedded[1].len() {
                    embedded[0].len()
                } else {
                    embedded[1].len()
                }
            } else {
                embedded[0].len()
            };
            let ghost want = spec->Ok_0;
            let mut i: usize = 0;
            while i < nch
                invariant
                    nch == original@.len(),
                    orig_v == channels_view(original@),
                    emb_v == channels_view(embedded@),
                    spec == reassemble_spec(plan.mode, orig_v, emb_v, fill),
                    mode == plan.mode,
                    mode is BothMirror || mode is BothSplit,
                    embedded@.len() > 0,
                    two == (embedded@.len() >= 2 && nch >= 2),
                    n == (if two {
                        if embedded@[0]@.len() < embedded@[1]@.len() {
                            embedded@[0]@.len()
                        } else {
                            embedded@[1]@.len()
                        }
                    } else {
                        embedded@[0]@.len()
                    }),
                    spec is Ok,
                    want == spec->Ok_0,
                    want.len() == nch,
                    i <= nch,
                    out@.len() == i,
                    forall|k: int| 0 <= k < i ==> #[trigger] out@[k]@ == want[k],
                decreases nch - i,
            {
                let c = if i == 0 {
                    fit_copy(&embedded[0], n)
                } else if i == 1 && two {
                    fit_copy(&embedded[1], n)
                } else {
                    fit_copy(&original[i], n)
                };
                proof {
                    if i == 0 {
                        assert(embedded@[0]@.take(n as int) =~= fit(embedded@[0]@, n as nat));
                    } else if i == 1 && two {
                        assert(embedded@[1]@.take(n as int) =~= fit(embedded@[1]@, n as nat));
                    }
                }
                out.push(c);
                i = i + 1;
            }
            assert(channels_view(out@) =~= want);
            return Ok(out);
        },
        _ => {},
    }
    if mode == ChannelMode::Mid && nch == 1 {
        out.push(fit_copy(&embedded[0], embedded[0].len()));
        proof {
            assert(channels_view(out@) =~= seq![emb_v[0]]);
        }
        return Ok(out);
    }
    let target = embedded[0].len();
    let pad = if target > original[0].len() {
        target - original[0].len()
    } else {
        0
    };
    let ghost want = spec->Ok_0;
    let mut i: usize = 0;
    while i < nch
        invariant
            nch == original@.len(),
            nch >= 1,
            orig_v == channels_view(original@),
            emb_v == channels_view(embedded@),
            spec == reassemble_spec(plan.mode, orig_v, emb_v, fill),
            mode == plan.mode,
            plan_wf(*plan),
            plan.num_channels == nch,
            !(mode is Mono || mode is BothMirror || mode is BothSplit),
            !(mode == ChannelMode::Mid && nch == 1),
            (mode is Side || mode is Mid) ==> embedded@.len() >= 2,
            embedded@.len() > 0,
            target == embedded@[0]@.len(),
            pad == (if target > original@[0]@.len() {
                target - original@[0]@.len()
            } else {
                0
            }),
            spec is Ok,
            want == spec->Ok_0,
            want.len() == nch,
            i <= nch,
            out@.len() == i,
            forall|k: int| 0 <= k < i ==> #[trigger] out@[k]@ == want[k],
        decreases nch - i,
    {
        let which: Option<usize> = match mode {
            ChannelMode::Left => if i == 0 {
                Some(0)
            } else {
                None
            },
            ChannelMode::Right => if i == 1 {
                Some(0)
            } else {
                None
            },
            ChannelMode::Channel(k) => if i == k as usize {
                Some(0)
            } else {
                None
            },
            ChannelMode::Mid | ChannelMode::Side => if i == 0 {
                Some(0)
            } else if i == 1 {
                Some(1)
            } else {
                None
            },
            _ => None,
        };
        let c = match which {
            Some(w) => fit_copy(&embedded[w], target),
            None => pad_fit_copy(&original[i], pad, fill, target),
        };
        proof {
            let r = replacement(mode, emb_v, i as int);
            match which {
                Some(w) => {
                    assert(r == Some(emb_v[w as int]));
                },
                None => {
                    assert(r is None);
                },
            }
        }
        out.push(c);
        i = i + 1;
    }
    assert(channels_view(out@) =~= want);
    Ok(out)
}

/// Reassembly succeeds on every non-empty embedding of a plan that fits the
/// input. The output has one channel in mono mode (and in mid mode on mono
/// input) and as many as the input otherwise; outside the two-stream modes
/// every output channel is as long as the embedded stream, provided the
/// input channels are of one length and, in mid and side modes on stereo
/// input, the rebuilt right channel is no shorter than the left.
pub proof fn lemma_reassemble_shape<T>(
    plan: ChannelPlan,
    original: Seq<Seq<T>>,
    embedded: Seq<Seq<T>>,
    fill: T,
)
    requires
        plan_wf(plan),
        original.len() == plan.num_channels,
        forall|i: int, j: int|
            0 <= i < original.len() && 0 <= j < original.len() ==> #[trigger] original[i].len()
                == #[trigger] original[j].len(),
        embedded.len() >= 1,
        (plan.mode == ChannelMode::Side || (plan.mode == ChannelMode::Mid && original.len() >= 2))
            ==> embedded.len() >= 2 && embedded[1].len() >= embedded[0].len(),
    ensures
        reassemble_spec(plan.mode, original, embedded, fill) is Ok,
        ({
            let b = reassemble_spec(plan.mode, original, embedded, fill)->Ok_0;
            &&& b.len() == (if plan.mode == ChannelMode::Mono || (plan.mode == ChannelMode::Mid
                && original.len() == 1) {
                1
            } else {
                original.len()
            })
            &&& !(plan.mode is BothMirror || plan.mode is BothSplit) ==> forall|i: int|
                0 <= i < b.len() ==> #[trigger] b[i].len() == embedded[0].len()
        }),
{
    let mode = plan.mode;
    let nch = original.len();
    assert(nch >= 1);
    if !(mode is Mono || mode is BothMirror || mode is BothSplit) && !(mode == ChannelMode::Mid
        && nch == 1) {
        let b = reassemble_spec(mode, original, embedded, fill)->Ok_0;
        let target = embedded[0].len();
        let pad: nat = if target > original[0].len() {
            (target - original[0].len()) as nat
        } else {
            0
        };
        assert forall|i: int| 0 <= i < b.len() implies #[trigger] b[i].len() == target by {
            match replacement(mode, embedded, i) {
                Some(r) => {
                    assert(r.len() >= target);
                },
                None => {
                    assert(original[i].len() == original[0].len());
                    assert(pad_front(original[i], pad, fill).len() == pad + original[i].len());
                },
            }
        }
    }
}

/// The stream each channel mode embeds into: the downmix in mono mode;
/// channel 0, channel 1 or channel `n` in the left, right and indexed
/// modes; on stereo input the mid stream in mid mode and the side stream in
/// side mode; channels 0 and 1 in the two-stream modes. On mono input mid
/// and the two-stream modes fall back to channel 0, and right and side are
/// refused, as is an index past the last channel and an input without
/// channels.
pub proof fn lemma_channel_mode_sources(nch: nat, n: u16)
    ensures
        plan_spec(0, ChannelMode::Mono) is Err,
        nch >= 1 ==> plan_spec(nch, ChannelMode::Mono) == Ok::<Seq<ChannelSource>, Seq<char>>(
            seq![ChannelSource::Downmix],
        ),
        nch >= 1 ==> plan_spec(nch, ChannelMode::Left) == Ok::<Seq<ChannelSource>, Seq<char>>(
            seq![ChannelSource::Channel(0)],
        ),
        nch >= 2 ==> plan_spec(nch, ChannelMode::Right) == Ok::<Seq<ChannelSource>, Seq<char>>(
            seq![ChannelSource::Channel(1)],
        ),
        nch >= 2 ==> plan_spec(nch, ChannelMode::Mid) == Ok::<Seq<ChannelSource>, Seq<char>>(
            seq![ChannelSource::Mid],
        ),
        nch >= 2 ==> plan_spec(nch, ChannelMode::Side) == Ok::<Seq<ChannelSource>, Seq<char>>(
            seq![ChannelSource::Side],
        ),
        nch >= 2 ==> plan_spec(nch, ChannelMode::BothMirror) == Ok::<
            Seq<ChannelSource>,
            Seq<char>,
        >(seq![ChannelSource::Channel(0), ChannelSource::Channel(1)]),
        nch >= 2 ==> plan_spec(nch, ChannelMode::BothSplit) == Ok::<
            Seq<ChannelSource>,
            Seq<char>,
        >(seq![ChannelSource::Channel(0), ChannelSource::Channel(1)]),
        (n as nat) < nch ==> plan_spec(nch, ChannelMode::Channel(n)) == Ok::<
            Seq<ChannelSource>,
            Seq<char>,
        >(seq![ChannelSource::Channel(n as usize)]),
        (n as nat) >= nch ==> plan_spec(nch, ChannelMode::Channel(n)) is Err,
        nch == 1 ==> plan_spec(nch, ChannelMode::Mid) == Ok::<Seq<ChannelSource>, Seq<char>>(
            seq![ChannelSource::Channel(0)],
        ),
        nch == 1 ==> plan_spec(nch, ChannelMode::BothSplit) == Ok::<
            Seq<ChannelSource>,
            Seq<char>,
        >(seq![ChannelSource::Channel(0)]),
        nch == 1 ==> plan_spec(nch, ChannelMode::Right) is Err,
        nch == 1 ==> plan_spec(nch, ChannelMode::Side) is Err,
{
}

/// Where reassembly puts the embedded streams: in mono mode the output is
/// the embedded stream alone; the left, right and indexed modes put it in
/// channel 0, channel 1 or channel `k`; in mid and side modes on stereo
/// input the rebuilt left goes to channel 0 and the rebuilt right to
/// channel 1 (cut to the left's length); the two-stream modes put stream 0
/// in channel 0 and stream 1 in channel 1, both cut to the shorter.
/// Channels that receive no stream keep their samples.
pub proof fn lemma_reassemble_places_streams<T>(
    mode: ChannelMode,
    original: Seq<Seq<T>>,
    embedded: Seq<Seq<T>>,
    fill: T,
    k: int,
)
    requires
        original.len() >= 1,
        embedded.len() >= 1,
    ensures
        ({
            let b = reassemble_spec(mode, original, embedded, fill)->Ok_0;
            let e0 = embedded[0];
            let nch = original.len();
            &&& reassemble_spec(mode, original, embedded, fill) is Ok
            &&& mode == ChannelMode::Mono ==> b == seq![e0]
            &&& mode == ChannelMode::Left ==> b.len() == nch && b[0] == e0
            &&& mode == ChannelMode::Right && nch >= 2 ==> b.len() == nch && b[1] == e0
            &&& mode is Channel && (mode->0 as int) < nch ==> b.len() == nch && b[mode->0 as int]
                == e0
            &&& (mode == ChannelMode::Mid || mode == ChannelMode::Side) && nch >= 2
                && embedded.len() >= 2 ==> b.len() == nch && b[0] == e0 && b[1] == fit(
                embedded[1],
                e0.len(),
            )
            &&& (mode == ChannelMode::Left || mode == ChannelMode::Right) && 2 <= k < nch
                && original[k].len() == original[0].len() && e0.len() <= original[0].len()
                ==> b[k] == original[k].take(e0.len() as int)
            &&& (mode == ChannelMode::BothMirror || mode == ChannelMode::BothSplit)
                && embedded.len() >= 2 && nch >= 2 ==> {
                let n = if e0.len() < embedded[1].len() {
                    e0.len()
                } else {
                    embedded[1].len()
                };
                &&& b.len() == nch
                &&& b[0] == e0.take(n as int)
                &&& b[1] == embedded[1].take(n as int)
                &&& 2 <= k < nch ==> b[k] == fit(original[k], n)
            }
        }),
{
    let b = reassemble_spec(mode, original, embedded, fill)->Ok_0;
    let e0 = embedded[0];
    if mode == ChannelMode::Left || mode == ChannelMode::Right {
        assert(fit(e0, e0.len()) =~= e0);
        if 2 <= k < original.len() && original[k].len() == original[0].len() && e0.len()
            <= original[0].len() {
            assert(pad_front(original[k], 0, fill) =~= original[k]);
        }
    }
    if mode matches ChannelMode::Channel(c) {
        assert(fit(e0, e0.len()) =~= e0);
    }
    if mode == ChannelMode::Mid || mode == ChannelMode::Side {
        assert(fit(e0, e0.len()) =~= e0);
    }
}

// ------------------------------------------------------------ bit merging
/// Both-mirror merge: a bit is set when either channel read it set, over
/// the length of the shorter stream.
pub open spec fn mirror_spec(a: Seq<bool>, b: Seq<bool>) -> Seq<bool> {
    Seq::new(
        if a.len() < b.len() {
            a.len()
        } else {
            b.len()
        },
        |i: int| a[i] || b[i],
    )
}

/// Two copies that agree merge into themselves, and the merge does not
/// depend on which channel is read first.
pub proof fn lemma_mirror_merge(a: Seq<bool>, b: Seq<bool>)
    ensures
        mirror_spec(a, a) == a,
        mirror_spec(a, b) == mirror_spec(b, a),
{
    assert(mirror_spec(a, a) =~= a);
    assert(mirror_spec(a, b) =~= mirror_spec(b, a));
}

/// Combines two recovered copies of the same bitstream (both-mirror mode).
pub fn combine_mirror_bits(a: &[bool], b: &[bool]) -> (r: Vec<bool>)
    ensures
        r@ == mirror_spec(a@, b@),
{
    let n = if a.len() < b.len() {
        a.len()
    } else {
        b.len()
    };
    let mut out: Vec<bool> = Vec::new();
    let mut i: usize = 0;
    while i < n
        invariant
            n == (if a@.len() < b@.len() {
                a@.len()
            } else {
                b@.len()
            }),
            i <= n,
            out@ =~= mirror_spec(a@, b@).take(i as int),
        decreases n - i,
    {
        out.push(a[i] || b[i]);
        i = i + 1;
    }
    out
}

/// The first `i` rounds of interleaving: round `k` contributes `even[k]`
/// and then `odd[k]`, each where it exists.
pub open spec fn interleave_upto(even: Seq<bool>, odd: Seq<bool>, i: nat) -> Seq<bool>
    decreases i,
{
    if i == 0 {
        Seq::empty()
    } else {
        let k = (i - 1) as int;
        let prev = interleave_upto(even, odd, (i - 1) as nat);
        let with_even = if k < even.len() {
            prev.push(even[k])
        } else {
            prev
        };
        if k < odd.len() {
            with_even.push(odd[k])
        } else {
            with_even
        }
    }
}

/// Even and odd streams interleaved, the longer one's rest at the end.
pub open spec fn interleave_spec(even: Seq<bool>, odd: Seq<bool>) -> Seq<bool> {
    interleave_upto(
        even,
        odd,
        if even.len() < odd.len() {
            odd.len()
        } else {
            even.len()
        },
    )
}

/// Puts both-split body bits back in order: even indices from channel 0,
/// odd ones from channel 1.
pub fn interleave_split_bits(even: &[bool], odd: &[bool]) -> (r: Vec<bool>)
    requires
        even@.len() + odd@.len() <= usize::MAX,
    ensures
        r@ == interleave_spec(even@, odd@),
{
    let n = if even.len() < odd.len() {
        odd.len()
    } else {
        even.len()
    };
    let mut out: Vec<bool> = Vec::new();
    let mut i: usize = 0;
    while i < n
        invariant
            n == (if even@.len() < odd@.len() {
                odd@.len()
            } else {
                even@.len()
            }),
            i <= n,
            out@ == interleave_upto(even@, odd@, i as nat),
        decreases n - i,
    {
        if i < even.len() {
            out.push(even[i]);
        }
        if i < odd.len() {
            out.push(odd[i]);
        }
        i = i + 1;
    }
    out
}

proof fn lemma_interleave_split_prefix(bits: Seq<bool>, i: nat)
    requires
        i <= (bits.len() + 1) / 2,
    ensures
        interleave_upto(split_even(bits), split_odd(bits), i) =~= bits.take(
            if 2 * i <= bits.len() {
                (2 * i) as int
            } else {
                bits.len() as int
            },
        ),
    decreases i,
{
    if i > 0 {
        lemma_interleave_split_prefix(bits, (i - 1) as nat);
    }
}

spec fn split_even(bits: Seq<bool>) -> Seq<bool> {
    crate::engine::split_bits_spec(bits, 0)
}

spec fn split_odd(bits: Seq<bool>) -> Seq<bool> {
    crate::engine::split_bits_spec(bits, 1)
}

/// Interleaving the two halves that both-split mode deals to its channels
/// gives back the body bits.
pub proof fn lemma_interleave_split_roundtrip(bits: Seq<bool>)
    ensures
        interleave_spec(
            crate::engine::split_bits_spec(bits, 0),
            crate::engine::split_bits_spec(bits, 1),
        ) == bits,
{
    let n = ((bits.len() + 1) / 2) as nat;
    lemma_interleave_split_prefix(bits, n);
    assert(bits.take(bits.len() as int) =~= bits);
}

} // verus!
