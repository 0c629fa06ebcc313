//! Extraction settings, the sidecar record and the input arguments.

use audiostego::audio::ffmpeg::{require_ffmpeg, transcode_codec_args};
use audiostego::cli::{
    ChannelMode, CommonEmbedParams, EccMode, LossyProfile, OutputFormat, Shaping, StrategyId,
};
use audiostego::dsp::metrics::bit_errors;
use audiostego::dsp::stft::StftConfig;
use audiostego::dsp::sync::{default_preamble_len, search_limit};
use audiostego::engine::message_fits;
use audiostego::payload::capsule::CapsuleHeader;
use audiostego::profile::{self, load_message, resolve_key, split_band, KeySource, MessageSource};
use audiostego::sidecar::{
    extract_settings, lossy_retry, with_header, ResolvedParamsPublic, Sidecar,
};
use audiostego::strategy::{
    band_bins, capacity_for, header_strategy, spread_bit_span, total_capacity, Qim,
    SpreadSpectrum,
};

fn params(encrypt: bool) -> profile::ResolvedParams {
    let common = CommonEmbedParams {
        strategy: StrategyId::MagnitudeLsb,
        channel_mode: ChannelMode::Side,
        lossy: LossyProfile::Off,
        output_format: OutputFormat::Flac,
        bitrate: 128,
        fft_size: Some(1024),
        hop_div: Some(2),
        band: None,
        strength: None,
        shaping: Shaping::Fixed,
        ecc: Some("rs:8".into()),
        key: Some("k".into()),
        encrypt,
    };
    profile::resolve(
        &common,
        48000,
        None,
        false,
        Ok((500.0f32.to_bits(), 12000.0f32.to_bits())),
        Ok(b"k".to_vec()),
    )
    .unwrap()
}

#[test]
fn public_record_names_everything() {
    let p = params(true);
    let r = ResolvedParamsPublic::from(&p);
    assert_eq!(r.strategy, "magnitude-lsb");
    assert_eq!(r.channel_mode, "side");
    assert_eq!(r.lossy, "off");
    assert_eq!(r.output_format, "flac");
    assert_eq!(r.shaping, "fixed");
    assert_eq!(r.ecc, "rs:8");
    assert_eq!(r.fft_size, 1024);
    assert_eq!(r.hop, 512);
    assert!(r.encrypt);
}

#[test]
fn settings_prefer_cli_then_sidecar_then_defaults() {
    let d = extract_settings(None, None, None, None, false, None, None);
    assert_eq!(d.strategy, StrategyId::Qim);
    assert_eq!(d.channel_mode, ChannelMode::Mid);
    assert_eq!(d.fft_size, 2048);
    assert_eq!(d.hop_div, 1);
    assert_eq!(d.strength, 0.05f32.to_bits());
    assert_eq!(d.ecc, EccMode::Crc);
    assert_eq!(d.shaping, Shaping::Masked);
    assert_eq!(d.payload_len, None);
    assert!(d.stft_unset);
    assert_eq!(d.preamble_len, 4096);

    let sc = Sidecar {
        params: ResolvedParamsPublic::from(&params(false)),
        scale_factor: 1.0f32.to_bits(),
        message_bytes: 5,
        body_bytes: 40,
        sync_preamble_len: 0,
    };
    let s = extract_settings(None, None, None, None, false, None, Some(&sc));
    assert_eq!(s.strategy, StrategyId::MagnitudeLsb);
    assert_eq!(s.channel_mode, ChannelMode::Side);
    assert_eq!(s.fft_size, 1024);
    assert_eq!(s.hop_div, 2);
    assert_eq!(s.ecc, EccMode::ReedSolomon { parity: 8 });
    assert_eq!(s.shaping, Shaping::Fixed);
    assert_eq!(s.payload_len, Some(40));
    assert!(!s.stft_unset);
    assert_eq!(s.preamble_len, 4096);

    let c = extract_settings(
        Some(StrategyId::Differential),
        Some(ChannelMode::Left),
        Some(4096),
        Some(4),
        true,
        Some(0.3f32.to_bits()),
        Some(&sc),
    );
    assert_eq!(c.strategy, StrategyId::Differential);
    assert_eq!(c.channel_mode, ChannelMode::Left);
    assert_eq!(c.fft_size, 4096);
    assert_eq!(c.hop_div, 4);
    assert_eq!(c.strength, 0.3f32.to_bits());
}

#[test]
fn header_overrides_and_lossy_retry() {
    let p = params(true);
    let h = CapsuleHeader::from_params(&p, 77, 0.5f32.to_bits());
    let s = extract_settings(None, None, None, None, false, None, None);
    let r = lossy_retry(s);
    assert_eq!((r.fft_size, r.hop_div, r.strength), (4096, 2, 0.15f32.to_bits()));
    let w = with_header(r, &h);
    assert_eq!(w.strategy, StrategyId::MagnitudeLsb);
    assert_eq!(w.channel_mode, ChannelMode::Side);
    assert_eq!(w.fft_size, 1024);
    assert_eq!(w.hop_div, 2);
    assert_eq!(w.ecc, EccMode::ReedSolomon { parity: 8 });
    assert!(w.encrypt);
    assert_eq!(w.payload_len, Some(77));
    assert_eq!(w.preamble_len, r.preamble_len);
}

#[test]
fn key_and_message_sources() {
    assert!(matches!(resolve_key(None), KeySource::Bytes(b) if b == b"audiostego-default-key"));
    assert!(matches!(resolve_key(Some("@/tmp/k.bin")), KeySource::File(p) if p == "/tmp/k.bin"));
    assert!(matches!(resolve_key(Some("plain")), KeySource::Bytes(b) if b == b"plain"));
    assert!(matches!(load_message(true, None), Ok(MessageSource::File)));
    assert!(matches!(load_message(false, Some("hi")), Ok(MessageSource::Text(b)) if b == b"hi"));
    assert_eq!(
        load_message(true, Some("x")).unwrap_err(),
        "provide only one of --message or --message-text"
    );
}

#[test]
fn band_text_split_at_its_colon() {
    assert_eq!(split_band("1000:6000").unwrap(), ("1000".to_string(), "6000".to_string()));
    assert_eq!(split_band("1:2:3").unwrap_err(), "band must be LO:HI Hz, got '1:2:3'");
    assert!(split_band("1000").is_err());
}

#[test]
fn strategies_capacity_and_spans() {
    assert_eq!(capacity_for(StrategyId::Qim, &(10..74)), 64);
    assert_eq!(Qim.capacity_bits(&(10..74)), 64);
    assert_eq!(SpreadSpectrum.capacity_bits(&(10..74)), 2);
    assert_eq!(SpreadSpectrum.capacity_bits(&(0..10)), 1);
    assert_eq!(header_strategy().capacity_bits(&(0..1000)), 8);
    assert_eq!(capacity_for(StrategyId::Differential, &(20..10)), 0);
    assert_eq!(total_capacity(StrategyId::Qim, 3, &(0..5)), 15);
    assert_eq!(total_capacity(StrategyId::Qim, usize::MAX, &(0..5)), usize::MAX);
    assert_eq!(band_bins(&(3..6)), vec![3, 4, 5]);
    assert_eq!(spread_bit_span(10, 3, 0), (0, 3));
    assert_eq!(spread_bit_span(10, 3, 1), (3, 6));
    assert_eq!(spread_bit_span(10, 3, 2), (6, 10));
}

#[test]
fn transcode_arguments() {
    assert_eq!(
        transcode_codec_args(OutputFormat::Opus, 96).unwrap(),
        vec!["-c:a", "libopus", "-b:a", "96k", "-ar", "48000"]
    );
    assert_eq!(transcode_codec_args(OutputFormat::Flac, 96).unwrap(), vec!["-c:a", "flac"]);
    assert_eq!(
        transcode_codec_args(OutputFormat::Wav, 96).unwrap_err(),
        "transcode called for wav/auto"
    );
    assert!(require_ffmpeg(true).is_ok());
    assert_eq!(
        require_ffmpeg(false).unwrap_err(),
        "ffmpeg not found on PATH (required for non-WAV formats)"
    );
}

#[test]
fn bit_errors_count_differing_bits() {
    assert_eq!(bit_errors(&[0xff], &[0x0f]), 4);
    assert_eq!(bit_errors(&[0x01, 0x03], &[0x01]), 2);
    assert_eq!(bit_errors(&[], &[]), 0);
}

#[test]
fn stft_and_sync_arithmetic() {
    let c = StftConfig::new(1024, 512).unwrap();
    assert_eq!(c.spectrum_len(), 513);
    assert_eq!(c.num_frames(1024 + 512 * 3), 4);
    assert_eq!(c.num_frames(100), 0);
    assert!(StftConfig::new(1000, 500).is_err());
    assert_eq!(StftConfig::new(1024, 300).unwrap_err(), "hop must divide fft_size");
    assert_eq!(default_preamble_len(1024), 4096);
    assert_eq!(search_limit(100, 10, 1000), Some(90));
    assert_eq!(search_limit(100, 10, 5), Some(5));
    assert_eq!(search_limit(5, 10, 5), None);
}

#[test]
fn message_fit_against_capacity() {
    let p = params(false);
    // A 10-byte message under rs:8: 1 + (2 + 10 + 4) + 8 = 25 bytes.
    assert!(message_fits(&p, 10, 200));
    assert!(!message_fits(&p, 10, 199));
}

#[test]
fn capsule_bits_restore_embedded_params() {
    let p = params(true);
    let h = CapsuleHeader::from_params(&p, 123, 0.75f32.to_bits());
    let bits = audiostego::payload::capsule::header_bits(&h);
    assert_eq!(bits.len(), audiostego::payload::capsule::HEADER_BYTES * 8);
    let back = audiostego::payload::capsule::header_from_bits(&bits).unwrap();
    assert_eq!(back, h);
    let w = with_header(extract_settings(None, None, None, None, false, None, None), &back);
    assert_eq!(w.strategy, p.strategy);
    assert_eq!(w.channel_mode, p.channel_mode);
    assert_eq!(w.fft_size, p.fft_size);
    assert_eq!(w.hop_div, p.hop_div);
    assert_eq!(w.strength, p.strength);
    assert_eq!(w.ecc, p.ecc);
    assert!(w.encrypt);
    assert_eq!(w.payload_len, Some(123));
    // A flipped bit spoils the header.
    let mut bad = bits.clone();
    bad[100] = !bad[100];
    assert!(audiostego::payload::capsule::header_from_bits(&bad).is_none());
}

#[test]
fn sidecar_restores_embedded_params() {
    let p = params(false);
    let sc = Sidecar {
        params: ResolvedParamsPublic::from(&p),
        scale_factor: 1.0f32.to_bits(),
        message_bytes: 3,
        body_bytes: 27,
        sync_preamble_len: 2048,
    };
    let s = extract_settings(None, None, None, None, false, None, Some(&sc));
    assert_eq!(s.strategy, p.strategy);
    assert_eq!(s.channel_mode, p.channel_mode);
    assert_eq!(s.fft_size, p.fft_size);
    assert_eq!(s.hop_div, p.hop_div);
    assert_eq!(s.strength, p.strength);
    assert_eq!(s.ecc, p.ecc);
    assert_eq!(s.encrypt, p.encrypt);
    assert_eq!(s.shaping, p.shaping);
    assert_eq!(s.payload_len, Some(27));
    assert_eq!(s.preamble_len, 2048);
}

#[test]
fn body_size_depends_on_message_length_only() {
    for enc in [false, true] {
        let p = params(enc);
        let a = audiostego::payload::capsule::build_body(&p, b"aaaaaaaaaa").unwrap();
        let b = audiostego::payload::capsule::build_body(&p, b"0123456789").unwrap();
        assert_eq!(a.len(), b.len());
        assert!(message_fits(&p, 10, a.len() * 8));
        assert!(!message_fits(&p, 10, a.len() * 8 - 1));
    }
}
