//! Input checks of parameter resolution and message loading.

use audiostego::cli::{
    ChannelMode, CommonEmbedParams, LossyProfile, OutputFormat, Shaping, StrategyId,
};
use audiostego::profile;

fn default_common(strategy: StrategyId, channel_mode: ChannelMode) -> CommonEmbedParams {
    CommonEmbedParams {
        strategy,
        channel_mode,
        lossy: LossyProfile::Off,
        output_format: OutputFormat::Wav,
        bitrate: 192,
        fft_size: None,
        hop_div: None,
        band: None,
        strength: None,
        shaping: Shaping::Masked,
        ecc: None,
        key: Some("test-key".into()),
        encrypt: false,
    }
}

#[test]
fn encrypt_without_key_errors() {
    let mut common = default_common(StrategyId::Qim, ChannelMode::Mid);
    common.encrypt = true;
    common.key = None;
    let err = profile::resolve(
        &common,
        44100,
        None,
        false,
        Ok((500.0f32.to_bits(), 12000.0f32.to_bits())),
        Ok(b"audiostego-default-key".to_vec()),
    );
    let msg = err.unwrap_err();
    assert!(msg.contains("--encrypt requires --key") || msg.contains("encrypt"));
}

#[test]
fn missing_message_load_errors() {
    let err = profile::load_message(false, None);
    assert!(err.is_err());
}
