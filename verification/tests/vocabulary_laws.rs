//! The command vocabulary: names, codes and their round trips.

use audiostego::cli::{parse_channel_mode, ChannelMode, EccMode, OutputFormat, StrategyId};
use audiostego::profile::guess_format_from_path;

#[test]
fn strategy_codes_roundtrip() {
    for s in [
        StrategyId::Differential,
        StrategyId::MagnitudeLsb,
        StrategyId::Qim,
        StrategyId::SpreadSpectrum,
    ] {
        assert_eq!(StrategyId::from_u8(s.to_u8()), Some(s));
    }
    assert_eq!(StrategyId::from_u8(200), None);
    assert_eq!(StrategyId::SpreadSpectrum.as_str(), "spread-spectrum");
    assert!(StrategyId::Differential.requires_original());
    assert!(!StrategyId::Qim.requires_original());
}

#[test]
fn channel_mode_codes_and_names_roundtrip() {
    let modes = [
        ChannelMode::Mono,
        ChannelMode::Left,
        ChannelMode::Right,
        ChannelMode::Channel(3),
        ChannelMode::Mid,
        ChannelMode::Side,
        ChannelMode::BothMirror,
        ChannelMode::BothSplit,
    ];
    for m in modes {
        assert_eq!(ChannelMode::from_code(m.to_code()), Some(m));
        assert_eq!(parse_channel_mode(&m.as_str()), Ok(m));
    }
    assert_eq!(ChannelMode::Channel(3).as_str(), "channel:3");
    assert_eq!(parse_channel_mode("MID"), Ok(ChannelMode::Mid));
    assert!(parse_channel_mode("centre").is_err());
    assert!(ChannelMode::Side.warns_mono_fragile());
    assert!(!ChannelMode::Mid.warns_mono_fragile());
}

#[test]
fn ecc_names_and_codes_roundtrip() {
    for e in [EccMode::NoEcc, EccMode::Crc, EccMode::ReedSolomon { parity: 16 }] {
        assert_eq!(EccMode::parse(&e.as_str()), Ok(e));
        assert_eq!(EccMode::from_code(e.to_code()), Some(e));
    }
    assert_eq!(EccMode::ReedSolomon { parity: 32 }.as_str(), "rs:32");
    assert!(EccMode::parse("rs:0").is_err());
    assert!(EccMode::parse("hamming").is_err());
}

#[test]
fn formats_by_extension() {
    assert_eq!(guess_format_from_path(Some("MP3")), Some(OutputFormat::Mp3));
    assert_eq!(guess_format_from_path(Some("oga")), Some(OutputFormat::Vorbis));
    assert_eq!(guess_format_from_path(Some("txt")), None);
    assert_eq!(guess_format_from_path(None), None);
    assert_eq!(OutputFormat::Vorbis.extension(), "ogg");
    assert!(OutputFormat::Opus.is_lossy());
    assert!(!OutputFormat::Flac.is_lossy());
}
