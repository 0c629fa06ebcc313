//! Channel mapping without audio I/O.

use audiostego::audio::channels::{self, ChannelPlan, ChannelSource};
use audiostego::cli::ChannelMode;

fn tone_stereo(seconds: f32, sr: u32) -> Vec<Vec<f32>> {
    let n = (seconds * sr as f32) as usize;
    let mut left = vec![0.0f32; n];
    let mut right = vec![0.0f32; n];
    for i in 0..n {
        let t = i as f32 / sr as f32;
        left[i] = 0.4 * (2.0 * std::f32::consts::PI * 440.0 * t).sin()
            + 0.2 * (2.0 * std::f32::consts::PI * 660.0 * t).sin();
        right[i] = 0.35 * (2.0 * std::f32::consts::PI * 550.0 * t).sin()
            + 0.15 * (2.0 * std::f32::consts::PI * 770.0 * t).sin();
    }
    vec![left, right]
}

fn max_abs_diff(a: &[f32], b: &[f32]) -> f32 {
    a.iter()
        .zip(b.iter())
        .map(|(x, y)| (x - y).abs())
        .fold(0.0f32, f32::max)
}

#[test]
fn prepare_work_channel_counts() {
    let stereo = tone_stereo(0.5, 44100);
    let cases: &[(ChannelMode, usize)] = &[
        (ChannelMode::Mono, 1),
        (ChannelMode::Left, 1),
        (ChannelMode::Right, 1),
        (ChannelMode::Channel(0), 1),
        (ChannelMode::Channel(1), 1),
        (ChannelMode::Mid, 1),
        (ChannelMode::Side, 1),
        (ChannelMode::BothMirror, 2),
        (ChannelMode::BothSplit, 2),
    ];
    for (mode, expected) in cases {
        let plan = channels::prepare_for_embed(stereo.len(), mode).unwrap();
        assert_eq!(plan.work.len(), *expected, "mode={mode:?}");
    }
}

#[test]
fn prepare_reassemble_left_replaces_only_left() {
    let original = tone_stereo(0.25, 44100);
    let plan = channels::prepare_for_embed(original.len(), &ChannelMode::Left).unwrap();
    assert_eq!(plan.work, vec![ChannelSource::Channel(0)]);
    let mut embedded = vec![original[0].clone()];
    for s in &mut embedded[0] {
        *s = 0.123;
    }
    let out = channels::reassemble(&plan, &original, &embedded, 0.0f32).unwrap();
    assert!(out[0].iter().all(|&s| (s - 0.123).abs() < 1e-6));
    assert!(max_abs_diff(&out[1], &original[1]) < 1e-5);
}

#[test]
fn prepare_errors_on_mono_and_oob() {
    assert!(channels::prepare_for_embed(1, &ChannelMode::Right).is_err());
    assert!(channels::prepare_for_embed(1, &ChannelMode::Side).is_err());
    assert!(channels::prepare_for_embed(2, &ChannelMode::Channel(9)).is_err());
}

#[test]
fn combine_mirror_bits_or_and_truncate() {
    let a = vec![true, false, true, false];
    let b = vec![false, false, true];
    let got = channels::combine_mirror_bits(&a, &b);
    assert_eq!(got, vec![true, false, true]);
}

#[test]
fn interleave_split_bits_even_odd() {
    let even = vec![true, true, false];
    let odd = vec![false, true];
    let got = channels::interleave_split_bits(&even, &odd);
    assert_eq!(got, vec![true, false, true, true, false]);
}

#[test]
fn channel_plan_debug_smoke() {
    let stereo = tone_stereo(0.1, 44100);
    let plan: ChannelPlan = channels::prepare_for_embed(stereo.len(), &ChannelMode::Mid).unwrap();
    assert_eq!(plan.work.len(), 1);
}
