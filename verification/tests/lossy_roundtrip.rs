//! Lossy-profile parameter resolution.

use audiostego::cli::{
    ChannelMode, CommonEmbedParams, EccMode, LossyProfile, OutputFormat, Shaping, StrategyId,
};
use audiostego::profile::{self, ResolvedParams};

fn lossy_common(lossy: LossyProfile) -> CommonEmbedParams {
    CommonEmbedParams {
        strategy: StrategyId::Qim,
        channel_mode: ChannelMode::Mid,
        lossy,
        output_format: OutputFormat::Auto,
        bitrate: 192,
        fft_size: None,
        hop_div: None,
        band: None,
        strength: None,
        shaping: Shaping::Masked,
        ecc: None,
        key: Some("lossy-key".into()),
        encrypt: false,
    }
}

fn base_common(strategy: StrategyId, channel_mode: ChannelMode) -> CommonEmbedParams {
    CommonEmbedParams {
        strategy,
        channel_mode,
        lossy: LossyProfile::Off,
        output_format: OutputFormat::Wav,
        bitrate: 192,
        fft_size: None,
        hop_div: None,
        band: None,
        strength: None,
        shaping: Shaping::Masked,
        ecc: None,
        key: Some("test-key".into()),
        encrypt: false,
    }
}

/// Resolves with the lossy default band (1000 Hz to 8000 Hz at 44.1 kHz).
fn resolve_lossy(common: &CommonEmbedParams, strict: bool) -> Result<ResolvedParams, String> {
    let key = common.key.clone().unwrap_or_default().into_bytes();
    profile::resolve(
        common,
        44100,
        None,
        strict,
        Ok((1000.0f32.to_bits(), 8000.0f32.to_bits())),
        Ok(key),
    )
}

#[test]
fn lossy_profiles_retune_like_mp3() {
    let cases = [
        (LossyProfile::Mp3, OutputFormat::Mp3),
        (LossyProfile::Aac, OutputFormat::Aac),
        (LossyProfile::Opus, OutputFormat::Opus),
        (LossyProfile::Vorbis, OutputFormat::Vorbis),
    ];
    for (lossy, expected_fmt) in cases {
        let common = lossy_common(lossy);
        let resolved = resolve_lossy(&common, false).unwrap();
        assert_eq!(resolved.strategy, StrategyId::SpreadSpectrum, "{lossy:?}");
        assert_eq!(resolved.output_format, expected_fmt, "{lossy:?}");
        assert!(resolved.fft_size >= 4096, "{lossy:?}");
        assert!(
            matches!(resolved.ecc, EccMode::ReedSolomon { parity: 16 }),
            "{lossy:?} ecc={:?}",
            resolved.ecc
        );
        assert!(!resolved.upgraded.is_empty(), "{lossy:?}");
    }
}

#[test]
fn strict_rejects_fragile_aac() {
    let mut common = base_common(StrategyId::Qim, ChannelMode::Mid);
    common.lossy = LossyProfile::Aac;
    let msg = resolve_lossy(&common, true).unwrap_err();
    assert!(
        msg.contains("strict") || msg.contains("fragile") || msg.contains("spread-spectrum"),
        "unexpected error: {msg}"
    );
}
