//! The parameters an embedding records for the reader (reports and the
//! sidecar), and how extraction settles its settings: command line first,
//! then the sidecar, then the defaults; a recovered capsule header
//! overrides them all.

use crate::cli::{
    channel_mode_name, channel_mode_parse_spec, ecc_name, ecc_parse_spec, format_name,
    lemma_channel_mode_name_parses, lemma_ecc_name_parses, lossy_name, parse_channel_mode,
    strategy_name, ChannelMode, CommonEmbedParams, EccMode, LossyProfile, Shaping, StrategyId,
};
use crate::dsp::sync::default_preamble_len;
use crate::engine::parse_strategy;
use crate::payload::bits::{bits_bytes_spec, bytes_bits_spec};
use crate::payload::capsule::{
    header_bytes_spec, header_for, header_parse_spec, lemma_from_params_wf,
    lemma_header_bits_roundtrip, CapsuleHeader, HEADER_BYTES,
};
use crate::profile::{
    default_fft_size, default_hop_div, default_strength, ecc_choice, fft_size_ok, hop_div_ok, is_pow2,
    params_wf, ResolvedParams, STRENGTH_LOSSLESS_BITS, STRENGTH_LOSSY_BITS,
};
use vstd::prelude::*;

verus! {

/// The name reports give a shaping.
pub open spec fn shaping_name(s: Shaping) -> Seq<char> {
    match s {
        Shaping::Fixed => "fixed"@,
        Shaping::Masked => "masked"@,
    }
}

/// The views of a list of strings.
pub open spec fn strings_view(v: Seq<String>) -> Seq<Seq<char>> {
    Seq::new(v.len(), |i: int| v[i]@)
}

/// Resolved parameters as reports and sidecars record them: enums by name,
/// floats by bit pattern.
#[derive(Debug, Clone)]
pub struct ResolvedParamsPublic {
    pub strategy: String,
    pub channel_mode: String,
    pub lossy: String,
    pub output_format: String,
    pub bitrate: u32,
    pub fft_size: usize,
    pub hop: usize,
    /// Bit pattern of the lower band edge in Hz.
    pub band_lo_hz: u32,
    /// Bit pattern of the upper band edge in Hz.
    pub band_hi_hz: u32,
    /// Bit pattern of the strength.
    pub strength: u32,
    pub shaping: String,
    pub ecc: String,
    pub encrypt: bool,
    pub upgraded: Vec<String>,
}

/// `r` records `p`.
pub open spec fn public_record(r: ResolvedParamsPublic, p: ResolvedParams) -> bool {
    &&& r.strategy@ == strategy_name(p.strategy)
    &&& r.channel_mode@ == channel_mode_name(p.channel_mode)
    &&& r.lossy@ == lossy_name(p.lossy)
    &&& r.output_format@ == format_name(p.output_format)
    &&& r.bitrate == p.bitrate
    &&& r.fft_size == p.fft_size
    &&& r.hop == p.hop
    &&& r.band_lo_hz == p.band_lo_hz
    &&& r.band_hi_hz == p.band_hi_hz
    &&& r.strength == p.strength
    &&& r.shaping@ == shaping_name(p.shaping)
    &&& r.ecc@ == ecc_name(p.ecc)
    &&& r.encrypt == p.encrypt
    &&& strings_view(r.upgraded@) == strings_view(p.upgraded@)
}

/// A copy of a list of strings.
fn copy_strings(v: &Vec<String>) -> (r: Vec<String>)
    ensures
        strings_view(r@) == strings_view(v@),
{
    let mut out: Vec<String> = Vec::new();
    let mut i: usize = 0;
    while i < v.len()
        invariant
            i <= v@.len(),
            out@.len() == i,
            forall|k: int| 0 <= k < i ==> #[trigger] out@[k]@ == v@[k]@,
        decreases v@.len() - i,
    {
        let s = v[i].clone();
        out.push(s);
        i = i + 1;
    }
    assert(strings_view(out@) =~= strings_view(v@));
    out
}

impl ResolvedParamsPublic {
    /// The public record of resolved parameters.
    pub fn from(p: &ResolvedParams) -> (r: Self)
        ensures
            public_record(r, *p),
    {
        let shaping = match p.shaping {
            Shaping::Fixed => String::from_str("fixed"),
            Shaping::Masked => String::from_str("masked"),
        };
        ResolvedParamsPublic {
            strategy: String::from_str(p.strategy.as_str()),
            channel_mode: p.channel_mode.as_str(),
            lossy: String::from_str(p.lossy.as_str()),
            output_format: String::from_str(p.output_format.as_str()),
            bitrate: p.bitrate,
            fft_size: p.fft_size,
            hop: p.hop,
            band_lo_hz: p.band_lo_hz,
            band_hi_hz: p.band_hi_hz,
            strength: p.strength,
            shaping,
            ecc: p.ecc.as_str(),
            encrypt: p.encrypt,
            upgraded: copy_strings(&p.upgraded),
        }
    }
}

/// What an embedding writes beside the output for the reader.
#[derive(Debug, Clone)]
pub struct Sidecar {
    pub params: ResolvedParamsPublic,
    /// Bit pattern of the output scale factor.
    pub scale_factor: u32,
    pub message_bytes: usize,
    pub body_bytes: usize,
    pub sync_preamble_len: usize,
}

/// The settings extraction starts from (before any capsule header is read).
#[derive(Debug, Clone, Copy, PartialEq, Eq, Structural)]
pub struct ExtractSettings {
    pub strategy: StrategyId,
    pub channel_mode: ChannelMode,
    pub fft_size: usize,
    pub hop_div: u32,
    /// Bit pattern of the strength.
    pub strength: u32,
    pub ecc: EccMode,
    pub encrypt: bool,
    /// Body length in bytes, when known.
    pub payload_len: Option<usize>,
    pub shaping: Shaping,
    /// No STFT setting came from the command line or a sidecar, so a
    /// missing header may be retried with the lossy preset.
    pub stft_unset: bool,
    /// Length of the sync preamble.
    pub preamble_len: usize,
}

/// The strategy: command line, else the sidecar's (by name), else QIM.
pub open spec fn settled_strategy(cli: Option<StrategyId>, sidecar_name: Option<Seq<char>>) -> StrategyId {
    match cli {
        Some(s) => s,
        None => match sidecar_name {
            Some(n) => if n == "differential"@ {
                StrategyId::Differential
            } else if n == "magnitude-lsb"@ {
                StrategyId::MagnitudeLsb
            } else if n == "spread-spectrum"@ {
                StrategyId::SpreadSpectrum
            } else {
                StrategyId::Qim
            },
            None => StrategyId::Qim,
        },
    }
}

/// The channel mode: command line, else the sidecar's when it parses, else
/// mid.
pub open spec fn settled_channel_mode(cli: Option<ChannelMode>, sidecar_name: Option<Seq<char>>) -> ChannelMode {
    match cli {
        Some(m) => m,
        None => match sidecar_name {
            Some(n) => match channel_mode_parse_spec(n) {
                Ok(m) => m,
                Err(_) => ChannelMode::Mid,
            },
            None => ChannelMode::Mid,
        },
    }
}

/// Settings extraction starts from, given the command-line values and the
/// sidecar (if one was read). Its `hop` must not be zero: the hop divisor
/// is recomputed from it.
pub open spec fn settings_spec(
    cli_strategy: Option<StrategyId>,
    cli_channel_mode: Option<ChannelMode>,
    cli_fft_size: Option<usize>,
    cli_hop_div: Option<u32>,
    cli_band_set: bool,
    cli_strength: Option<u32>,
    sidecar: Option<Sidecar>,
) -> ExtractSettings {
    let fft_size: usize = match cli_fft_size {
        Some(n) => n,
        None => match sidecar {
            Some(s) => s.params.fft_size,
            None => 2048,
        },
    };
    ExtractSettings {
        strategy: settled_strategy(
            cli_strategy,
            match sidecar {
                Some(s) => Some(s.params.strategy@),
                None => None,
            },
        ),
        channel_mode: settled_channel_mode(
            cli_channel_mode,
            match sidecar {
                Some(s) => Some(s.params.channel_mode@),
                None => None,
            },
        ),
        fft_size,
        hop_div: match cli_hop_div {
            Some(d) => d,
            None => match sidecar {
                Some(s) => (s.params.fft_size / s.params.hop) as u32,
                None => 1,
            },
        },
        strength: match cli_strength {
            Some(b) => b,
            None => match sidecar {
                Some(s) => s.params.strength,
                None => STRENGTH_LOSSLESS_BITS,
            },
        },
        ecc: match sidecar {
            Some(s) => match ecc_parse_spec(s.params.ecc@) {
                Ok(e) => e,
                Err(_) => EccMode::Crc,
            },
            None => EccMode::Crc,
        },
        encrypt: match sidecar {
            Some(s) => s.params.encrypt,
            None => false,
        },
        payload_len: match sidecar {
            Some(s) => Some(s.body_bytes),
            None => None,
        },
        shaping: match sidecar {
            Some(s) => if s.params.shaping@ == "fixed"@ {
                Shaping::Fixed
            } else {
                Shaping::Masked
            },
            None => Shaping::Masked,
        },
        stft_unset: cli_fft_size is None && cli_hop_div is None && !cli_band_set && sidecar is None,
        preamble_len: match sidecar {
            Some(s) => if s.sync_preamble_len > 0 {
                s.sync_preamble_len
            } else {
                capped_preamble(fft_size)
            },
            None => capped_preamble(fft_size),
        },
    }
}

/// The default preamble length for an FFT size: four frames of at most
/// 1024 samples.
pub open spec fn capped_preamble(fft_size: usize) -> usize {
    ((if fft_size < 1024 {
        fft_size
    } else {
        1024
    }) * 4) as usize
}

/// Settles the settings extraction starts from.
pub fn extract_settings(
    cli_strategy: Option<StrategyId>,
    cli_channel_mode: Option<ChannelMode>,
    cli_fft_size: Option<usize>,
    cli_hop_div: Option<u32>,
    cli_band_set: bool,
    cli_strength: Option<u32>,
    sidecar: Option<&Sidecar>,
) -> (r: ExtractSettings)
    requires
        sidecar matches Some(s) ==> s.params.hop > 0,
    ensures
        r == settings_spec(
            cli_strategy,
            cli_channel_mode,
            cli_fft_size,
            cli_hop_div,
            cli_band_set,
            cli_strength,
            match sidecar {
                Some(s) => Some(*s),
                None => None,
            },
        ),
{
    let strategy = match cli_strategy {
        Some(s) => s,
        None => match sidecar {
            Some(s) => parse_strategy(s.params.strategy.as_str()),
            None => StrategyId::Qim,
        },
    };
    let channel_mode = match cli_channel_mode {
        Some(m) => m,
        None => match sidecar {
            Some(s) => match parse_channel_mode(s.params.channel_mode.as_str()) {
                Ok(m) => m,
                Err(_) => ChannelMode::Mid,
            },
            None => ChannelMode::Mid,
        },
    };
    let fft_size = match cli_fft_size {
        Some(n) => n,
        None => match sidecar {
            Some(s) => s.params.fft_size,
            None => 2048,
        },
    };
    let hop_div = match cli_hop_div {
        Some(d) => d,
        None => match sidecar {
            Some(s) => (s.params.fft_size / s.params.hop) as u32,
            None => 1,
        },
    };
    let strength = match cli_strength {
        Some(b) => b,
        None => match sidecar {
            Some(s) => s.params.strength,
            None => STRENGTH_LOSSLESS_BITS,
        },
    };
    let ecc = match sidecar {
        Some(s) => match EccMode::parse(s.params.ecc.as_str()) {
            Ok(e) => e,
            Err(_) => EccMode::Crc,
        },
        None => EccMode::Crc,
    };
    let shaping = match sidecar {
        Some(s) => if crate::text::chars_eq(&crate::text::str_chars(s.params.shaping.as_str()), "fixed") {
            Shaping::Fixed
        } else {
            Shaping::Masked
        },
        None => Shaping::Masked,
    };
    let capped = if fft_size < 1024 {
        fft_size
    } else {
        1024
    };
    let preamble_len = match sidecar {
        Some(s) => if s.sync_preamble_len > 0 {
            s.sync_preamble_len
        } else {
            default_preamble_len(capped)
        },
        None => default_preamble_len(capped),
    };
    ExtractSettings {
        strategy,
        channel_mode,
        fft_size,
        hop_div,
        strength,
        ecc,
        encrypt: match sidecar {
            Some(s) => s.params.encrypt,
            None => false,
        },
        payload_len: match sidecar {
            Some(s) => Some(s.body_bytes),
            None => None,
        },
        shaping,
        stft_unset: cli_fft_size.is_none() && cli_hop_div.is_none() && !cli_band_set
            && sidecar.is_none(),
        preamble_len,
    }
}

/// The settings of the lossy retry.
pub open spec fn lossy_retry_spec(s: ExtractSettings) -> ExtractSettings {
    ExtractSettings { fft_size: 4096, hop_div: 2, strength: STRENGTH_LOSSY_BITS, ..s }
}

/// The settings after the retry with the lossy preset of `resolve`:
/// 4096-point frames, hop divisor 2, strength 0.15 (the band is reset by the
/// caller).
pub fn lossy_retry(s: ExtractSettings) -> (r: ExtractSettings)
    ensures
        r == lossy_retry_spec(s),
{
    ExtractSettings { fft_size: 4096, hop_div: 2, strength: STRENGTH_LOSSY_BITS, ..s }
}

/// The settings that a recovered header `h` gives.
pub open spec fn with_header_spec(s: ExtractSettings, h: CapsuleHeader) -> ExtractSettings {
    ExtractSettings {
        strategy: h.strategy,
        channel_mode: h.channel_mode,
        fft_size: h.fft_size as usize,
        hop_div: h.hop_div as u32,
        strength: h.strength,
        ecc: h.ecc,
        encrypt: h.flags & 1u8 != 0u8,
        payload_len: Some(h.payload_len as usize),
        ..s
    }
}

/// The settings once a capsule header was recovered: the header's values
/// replace everything it records.
pub fn with_header(s: ExtractSettings, h: &CapsuleHeader) -> (r: ExtractSettings)
    ensures
        r == with_header_spec(s, *h),
{
    ExtractSettings {
        strategy: h.strategy,
        channel_mode: h.channel_mode,
        fft_size: h.fft_size as usize,
        hop_div: h.hop_div as u32,
        strength: h.strength,
        ecc: h.ecc,
        encrypt: h.encrypted(),
        payload_len: Some(h.payload_len as usize),
        ..s
    }
}

// ------------------------------------------------------------------ laws
proof fn lemma_strategy_name_settles(st: StrategyId)
    ensures
        settled_strategy(None, Some(strategy_name(st))) == st,
{
    reveal_strlit("differential");
    reveal_strlit("magnitude-lsb");
    reveal_strlit("qim");
    reveal_strlit("spread-spectrum");
    let n = strategy_name(st);
    if st != StrategyId::Differential {
        assert(n.len() != "differential"@.len());
    }
    if st != StrategyId::MagnitudeLsb {
        assert(n.len() != "magnitude-lsb"@.len());
    }
    if st != StrategyId::SpreadSpectrum {
        assert(n.len() != "spread-spectrum"@.len());
    }
}

proof fn lemma_hop_div_recovered(fft: usize, d: u32)
    requires
        fft_size_ok(fft as nat),
        hop_div_ok(d),
    ensures
        fft / (fft / (d as usize)) == d as usize,
        fft / (d as usize) > 0,
{
    assert(fft % 2 == 0 && is_pow2((fft / 2) as nat));
    assert((fft / 2) % 2 == 0);
    assert(fft % 4 == 0);
    let q = fft / (d as usize);
    assert(q * (d as usize) == fft && q > 0) by (nonlinear_arith)
        requires
            fft % 4 == 0,
            d == 1 || d == 2 || d == 4,
            q == fft / (d as usize),
            fft >= 256,
    ;
    assert(fft / q == d as usize) by (nonlinear_arith)
        requires
            q * (d as usize) == fft,
            q > 0,
    ;
}

/// A sidecar written for resolved parameters gives them back to an
/// extraction that sets nothing on the command line: strategy, channel
/// mode, FFT size, hop divisor, strength, error correction, encryption,
/// shaping and the body length.
pub proof fn lemma_sidecar_restores_params(p: ResolvedParams, s: Sidecar)
    requires
        params_wf(p),
        public_record(s.params, p),
    ensures
        ({
            let st = settings_spec(None, None, None, None, false, None, Some(s));
            &&& st.strategy == p.strategy
            &&& st.channel_mode == p.channel_mode
            &&& st.fft_size == p.fft_size
            &&& st.hop_div == p.hop_div
            &&& st.strength == p.strength
            &&& st.ecc == p.ecc
            &&& st.encrypt == p.encrypt
            &&& st.shaping == p.shaping
            &&& st.payload_len == Some(s.body_bytes)
            &&& !st.stft_unset
        }),
{
    lemma_strategy_name_settles(p.strategy);
    lemma_channel_mode_name_parses(p.channel_mode);
    lemma_ecc_name_parses(p.ecc);
    lemma_hop_div_recovered(p.fft_size, p.hop_div);
    reveal_strlit("fixed");
    reveal_strlit("masked");
    assert(p.shaping == Shaping::Masked ==> shaping_name(p.shaping).len() != "fixed"@.len());
}

/// A capsule header written for resolved parameters reads back from its
/// own embedded bits, and extraction then takes from it the strategy,
/// channel mode, FFT size, hop divisor, strength, error correction,
/// encryption and body length that were embedded (channel indices up to
/// 12, the largest the header encodes).
pub proof fn lemma_capsule_restores_params(
    p: ResolvedParams,
    h: CapsuleHeader,
    payload_len: u32,
    scale: u32,
    s: ExtractSettings,
)
    requires
        params_wf(p),
        p.channel_mode matches ChannelMode::Channel(n) ==> n <= 12,
        header_for(h, p, payload_len, scale),
    ensures
        header_parse_spec(
            bits_bytes_spec(bytes_bits_spec(header_bytes_spec(h)).take(HEADER_BYTES * 8)),
        ) == Ok::<CapsuleHeader, Seq<char>>(h),
        ({
            let w = with_header_spec(s, h);
            &&& w.strategy == p.strategy
            &&& w.channel_mode == p.channel_mode
            &&& w.fft_size == p.fft_size
            &&& w.hop_div == p.hop_div
            &&& w.strength == p.strength
            &&& w.ecc == p.ecc
            &&& w.encrypt == p.encrypt
            &&& w.payload_len == Some(payload_len as usize)
        }),
{
    lemma_from_params_wf(h);
    lemma_header_bits_roundtrip(h);
    assert(1u8 & 1u8 != 0u8) by (bit_vector);
    assert(0u8 & 1u8 == 0u8) by (bit_vector);
}

/// With nothing on the command line and no sidecar, extraction starts from
/// the STFT settings and strength that `resolve` gives the lossless profile
/// by default, so a default embedding needs no sidecar.
pub proof fn lemma_extract_defaults_match_lossless_preset()
    ensures
        ({
            let st = settings_spec(None, None, None, None, false, None, None);
            &&& st.fft_size == default_fft_size(LossyProfile::Off)
            &&& st.hop_div == default_hop_div(LossyProfile::Off)
            &&& st.strength == default_strength(LossyProfile::Off)
            &&& st.stft_unset
        }),
{
}

/// The lossy retry reads with the STFT settings and strength that `resolve`
/// gives every lossy profile by default, so a default lossy embedding is
/// read back from its capsule without a sidecar.
pub proof fn lemma_lossy_retry_matches_lossy_preset(s: ExtractSettings, lossy: LossyProfile)
    requires
        lossy != LossyProfile::Off,
    ensures
        ({
            let r = lossy_retry_spec(s);
            &&& r.fft_size == default_fft_size(lossy)
            &&& r.hop_div == default_hop_div(lossy)
            &&& r.strength == default_strength(lossy)
        }),
{
}

/// Without `--ecc`, a lossless embedding protects its body with a CRC-32
/// and a lossy one with Reed-Solomon of parity 16; the error correction
/// that extraction assumes when nothing tells it otherwise is the lossless
/// default.
pub proof fn lemma_default_ecc(c: CommonEmbedParams)
    requires
        c.ecc is None,
    ensures
        c.lossy == LossyProfile::Off ==> ecc_choice(c) == Ok::<EccMode, Seq<char>>(EccMode::Crc),
        c.lossy != LossyProfile::Off ==> ecc_choice(c) == Ok::<EccMode, Seq<char>>(
            EccMode::ReedSolomon { parity: 16 },
        ),
        c.lossy == LossyProfile::Off ==> settings_spec(None, None, None, None, false, None, None).ecc
            == ecc_choice(c)->Ok_0,
{
}

} // verus!
