//! Frame layout, capacity, bit dealing and the extraction decisions.

use audiostego::audio::channels::{self, ChannelSource};
use audiostego::cli::{ChannelMode, StrategyId};
use audiostego::engine::{
    body_capacity, channel_bits, check_capacity, check_original, extract_needed_bits,
    frame_bits_for, frame_layout, header_frame_chunks, parse_strategy, place_extracted_bits,
    plan_embed_layout, split_bit_counts, split_channel_bits, trim_body, GUARD_FRAMES,
};
use audiostego::payload::allocation::BitAllocation;

#[test]
fn layout_counts_header_guard_and_body() {
    // 384 header bits at 100 bits a frame take 4 frames.
    let l = frame_layout(100, 100);
    assert_eq!(l.header_frames, 4);
    assert_eq!(l.body_start, 4 + GUARD_FRAMES);
    assert_eq!(l.body_frames, 92);
    let short = frame_layout(5, 100);
    assert_eq!(short.body_frames, 0);
}

#[test]
fn layout_errors_in_order() {
    assert_eq!(
        plan_embed_layout(0, 10, 10, 2048).unwrap_err(),
        "carrier too short for FFT size 2048"
    );
    assert_eq!(
        plan_embed_layout(50, 0, 10, 2048).unwrap_err(),
        "zero capacity with current band/strategy"
    );
    assert_eq!(
        plan_embed_layout(10, 10, 10, 2048).unwrap_err(),
        "not enough frames for capsule header + guard"
    );
    assert!(plan_embed_layout(100, 10, 100, 2048).is_ok());
}

#[test]
fn capacity_doubles_for_split_pair_and_refuses_overflow() {
    assert_eq!(body_capacity(8, 10, false), 80);
    assert_eq!(body_capacity(8, 10, true), 160);
    assert!(check_capacity(80, 80).is_ok());
    assert_eq!(
        check_capacity(81, 80).unwrap_err(),
        "message+ECC needs 81 bits but capacity is 80 bits"
    );
}

#[test]
fn split_then_interleave_gives_bits_back() {
    let bits = vec![true, false, false, true, true, false, true];
    let even = split_channel_bits(&bits, 0);
    let odd = split_channel_bits(&bits, 1);
    assert_eq!(even, vec![true, false, true, true]);
    assert_eq!(odd, vec![false, true, false]);
    assert_eq!(channels::interleave_split_bits(&even, &odd), bits);
    assert_eq!(split_bit_counts(7), (4, 3));
    assert_eq!(channel_bits(ChannelMode::BothSplit, 2, &bits, 1), odd);
    assert_eq!(channel_bits(ChannelMode::BothSplit, 1, &bits, 0), bits);
    assert_eq!(channel_bits(ChannelMode::Mid, 2, &bits, 1), bits);
}

#[test]
fn scatter_then_gather_gives_bits_back() {
    let bits: Vec<bool> = (0..37).map(|i| i % 3 == 0 || i % 5 == 1).collect();
    let alloc = BitAllocation::plan(6, 8, bits.len(), b"gather-key");
    assert_eq!(alloc.total_bits, 37);
    let frames: Vec<Vec<bool>> = (0..6).map(|f| frame_bits_for(&alloc, f, 8, &bits)).collect();
    assert!(frames.iter().all(|f| f.len() == 8));
    assert_eq!(place_extracted_bits(&alloc, &frames), bits);
}

#[test]
fn allocation_is_a_keyed_permutation() {
    let alloc = BitAllocation::plan(4, 8, 32, b"perm-key");
    let mut all: Vec<usize> = alloc.frame_bits.iter().flatten().copied().collect();
    let dealt = all.clone();
    all.sort();
    assert_eq!(all, (0..32).collect::<Vec<usize>>());
    // The shuffle moves indices: the dealing order is not the identity.
    assert_ne!(dealt, (0..32).collect::<Vec<usize>>());
    let other = BitAllocation::plan(4, 8, 32, b"other-key");
    assert_ne!(other.frame_bits, alloc.frame_bits);
}

#[test]
fn needed_bits_from_length_or_capacity() {
    assert_eq!(extract_needed_bits(Some(12), 10, 8), 96);
    assert_eq!(extract_needed_bits(None, 10, 7), 64);
}

#[test]
fn differential_requires_original() {
    assert!(check_original(StrategyId::Differential, true).is_ok());
    assert!(check_original(StrategyId::Qim, false).is_ok());
    assert_eq!(
        check_original(StrategyId::Differential, false).unwrap_err(),
        "strategy differential requires --original"
    );
}

#[test]
fn body_trimmed_to_recorded_length() {
    assert_eq!(trim_body(vec![1, 2, 3, 4], Some(2)), vec![1, 2]);
    assert_eq!(trim_body(vec![1, 2], Some(5)), vec![1, 2]);
    assert_eq!(trim_body(vec![1, 2], None), vec![1, 2]);
}

#[test]
fn header_bits_padded_into_frames() {
    let h = vec![true, true, true, false, true];
    let chunks = header_frame_chunks(&h, 3, 2);
    assert_eq!(
        chunks,
        vec![vec![true, true], vec![true, false], vec![true, false]]
    );
}

#[test]
fn strategy_names_from_sidecar() {
    assert_eq!(parse_strategy("differential"), StrategyId::Differential);
    assert_eq!(parse_strategy("spread-spectrum"), StrategyId::SpreadSpectrum);
    assert_eq!(parse_strategy("whatever"), StrategyId::Qim);
}

#[test]
fn reassemble_modes() {
    let original: Vec<Vec<i32>> = vec![vec![1, 2, 3], vec![4, 5, 6], vec![7, 8, 9]];
    // Right: the embedded stream (one sample longer) replaces channel 1; the
    // others are padded in front.
    let plan = channels::prepare_for_embed(3, &ChannelMode::Right).unwrap();
    let out = channels::reassemble(&plan, &original, &vec![vec![0, 10, 20, 30]], -1).unwrap();
    assert_eq!(out, vec![vec![-1, 1, 2, 3], vec![0, 10, 20, 30], vec![-1, 7, 8, 9]]);
    // Both-mirror: every channel cut to the shorter embedded stream.
    let plan = channels::prepare_for_embed(3, &ChannelMode::BothMirror).unwrap();
    assert_eq!(plan.work, vec![ChannelSource::Channel(0), ChannelSource::Channel(1)]);
    let out = channels::reassemble(&plan, &original, &vec![vec![10, 11], vec![20, 21, 22]], 0)
        .unwrap();
    assert_eq!(out, vec![vec![10, 11], vec![20, 21], vec![7, 8]]);
    // Mono gives one channel.
    let plan = channels::prepare_for_embed(3, &ChannelMode::Mono).unwrap();
    assert_eq!(plan.work, vec![ChannelSource::Downmix]);
    let out = channels::reassemble(&plan, &original, &vec![vec![5, 5]], 0).unwrap();
    assert_eq!(out, vec![vec![5, 5]]);
    // No embedded stream.
    assert_eq!(
        channels::reassemble(&plan, &original, &Vec::new(), 0).unwrap_err(),
        "no embedded channels"
    );
}

#[test]
fn channel_errors_name_the_problem() {
    assert_eq!(
        channels::prepare_for_embed(2, &ChannelMode::Channel(9)).unwrap_err(),
        "channel:9 out of range (have 2 channels)"
    );
    assert_eq!(
        channels::prepare_for_embed(0, &ChannelMode::Mono).unwrap_err(),
        "carrier has no channels"
    );
    assert_eq!(
        channels::extract_work_channels(1, &ChannelMode::Mid).unwrap(),
        vec![ChannelSource::Channel(0)]
    );
}

#[test]
fn mirror_merge_is_symmetric_and_idempotent() {
    let a = vec![true, false, false, true];
    let b = vec![false, false, true];
    assert_eq!(channels::combine_mirror_bits(&a, &a), a);
    assert_eq!(
        channels::combine_mirror_bits(&a, &b),
        channels::combine_mirror_bits(&b, &a)
    );
}

#[test]
fn allocation_fills_frames_in_order() {
    let alloc = BitAllocation::plan(5, 8, 27, b"fill-key");
    let lens: Vec<usize> = alloc.frame_bits.iter().map(|f| f.len()).collect();
    assert_eq!(lens, vec![8, 8, 8, 3, 0]);
    let mut all: Vec<usize> = alloc.frame_bits.concat();
    all.sort();
    assert_eq!(all, (0..27).collect::<Vec<usize>>());
}
