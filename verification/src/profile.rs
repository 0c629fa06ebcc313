//! Profile-driven parameter resolution and strict validation.
//!
//! Frequencies and strengths are `f32` values in the program; here they are
//! carried as their bit patterns (`f32::to_bits`) and never computed on.

use crate::cli::{
    ecc_parse_spec, format_is_lossy, format_name, lossy_name, strategy_name, ChannelMode,
    CommonEmbedParams, EccMode, LossyProfile, OutputFormat, Shaping, StrategyId,
};
use crate::text::{ascii_lower, ascii_lowercase_chars, chars_eq, str_chars};
use vstd::prelude::*;
use vstd::string::{StrSliceExecFns, StringSliceAdditionalSpecFns};

verus! {

/// The bit pattern of the `f32` 0.05, the lossless default strength.
pub const STRENGTH_LOSSLESS_BITS: u32 = 0x3D4C_CCCD;

/// The bit pattern of the `f32` 0.15, the lossy-profile default strength.
pub const STRENGTH_LOSSY_BITS: u32 = 0x3E19_999A;

/// Fully resolved embedding parameters.
#[derive(Debug, Clone)]
pub struct ResolvedParams {
    pub strategy: StrategyId,
    pub channel_mode: ChannelMode,
    pub lossy: LossyProfile,
    pub output_format: OutputFormat,
    pub bitrate: u32,
    pub fft_size: usize,
    pub hop: usize,
    pub hop_div: u32,
    /// Bit pattern of the lower band edge in Hz.
    pub band_lo_hz: u32,
    /// Bit pattern of the upper band edge in Hz.
    pub band_hi_hz: u32,
    /// Bit pattern of the embedding strength.
    pub strength: u32,
    pub shaping: Shaping,
    pub ecc: EccMode,
    pub key_bytes: Vec<u8>,
    pub encrypt: bool,
    pub sample_rate: u32,
    pub upgraded: Vec<String>,
}

impl ResolvedParams {
    pub fn hop_div(&self) -> (r: u32)
        ensures
            r == self.hop_div,
    {
        self.hop_div
    }
}

pub open spec fn is_pow2(n: nat) -> bool
    decreases n,
{
    if n <= 1 {
        n == 1
    } else {
        n % 2 == 0 && is_pow2(n / 2)
    }
}

pub open spec fn fft_size_ok(n: nat) -> bool {
    is_pow2(n) && 256 <= n <= 65536
}

pub open spec fn hop_div_ok(h: u32) -> bool {
    h == 1 || h == 2 || h == 4
}

/// What holds of every parameter set `resolve` gives: a valid FFT size and
/// hop divisor, the hop they make, and a Reed-Solomon parity in 1..=64.
pub open spec fn params_wf(p: ResolvedParams) -> bool {
    &&& fft_size_ok(p.fft_size as nat)
    &&& hop_div_ok(p.hop_div)
    &&& p.hop == p.fft_size / (p.hop_div as usize)
    &&& (p.ecc matches EccMode::ReedSolomon { parity } ==> 1 <= parity <= 64)
}

pub open spec fn default_fft_size(lossy: LossyProfile) -> usize {
    if lossy == LossyProfile::Off {
        2048
    } else {
        4096
    }
}

pub open spec fn default_hop_div(lossy: LossyProfile) -> u32 {
    if lossy == LossyProfile::Off {
        1
    } else {
        2
    }
}

pub open spec fn default_strength(lossy: LossyProfile) -> u32 {
    if lossy == LossyProfile::Off {
        STRENGTH_LOSSLESS_BITS
    } else {
        STRENGTH_LOSSY_BITS
    }
}

pub open spec fn requested_fft_size(c: CommonEmbedParams) -> usize {
    match c.fft_size {
        Some(n) => n,
        None => default_fft_size(c.lossy),
    }
}

pub open spec fn requested_hop_div(c: CommonEmbedParams) -> u32 {
    match c.hop_div {
        Some(h) => h,
        None => default_hop_div(c.lossy),
    }
}

/// The error-correction mode asked for, or the profile's default.
pub open spec fn ecc_choice(c: CommonEmbedParams) -> Result<EccMode, Seq<char>> {
    match c.ecc {
        Some(s) => ecc_parse_spec(s@),
        None => if c.lossy == LossyProfile::Off {
            Ok(EccMode::Crc)
        } else {
            Ok(EccMode::ReedSolomon { parity: 16 })
        },
    }
}

/// Under a lossy profile every strategy becomes spread-spectrum.
pub open spec fn resolved_strategy(c: CommonEmbedParams) -> StrategyId {
    if c.lossy != LossyProfile::Off {
        StrategyId::SpreadSpectrum
    } else {
        c.strategy
    }
}

/// The format an output-path extension names.
pub open spec fn format_for_extension(ext: Seq<char>) -> Option<OutputFormat> {
    let l = ascii_lower(ext);
    if l == "wav"@ {
        Some(OutputFormat::Wav)
    } else if l == "flac"@ {
        Some(OutputFormat::Flac)
    } else if l == "mp3"@ {
        Some(OutputFormat::Mp3)
    } else if l == "opus"@ {
        Some(OutputFormat::Opus)
    } else if l == "aac"@ || l == "m4a"@ {
        Some(OutputFormat::Aac)
    } else if l == "ogg"@ || l == "oga"@ {
        Some(OutputFormat::Vorbis)
    } else {
        None
    }
}

/// `Auto` becomes the lossy profile's codec, or (lossless) the format that
/// the output path's extension names, else WAV.
pub open spec fn resolved_format(c: CommonEmbedParams, ext: Option<Seq<char>>) -> OutputFormat {
    if c.output_format != OutputFormat::Auto {
        c.output_format
    } else {
        match c.lossy {
            LossyProfile::Off => match ext {
                Some(e) => match format_for_extension(e) {
                    Some(f) => f,
                    None => OutputFormat::Wav,
                },
                None => OutputFormat::Wav,
            },
            LossyProfile::Mp3 => OutputFormat::Mp3,
            LossyProfile::Aac => OutputFormat::Aac,
            LossyProfile::Opus => OutputFormat::Opus,
            LossyProfile::Vorbis => OutputFormat::Vorbis,
        }
    }
}

/// The first reason `resolve` refuses its inputs, in the order the checks run.
pub open spec fn resolve_error(
    c: CommonEmbedParams,
    ext: Option<Seq<char>>,
    strict: bool,
    band: Result<(u32, u32), Seq<char>>,
    key: Result<Seq<u8>, Seq<char>>,
) -> Option<Seq<char>> {
    if !hop_div_ok(requested_hop_div(c)) {
        Some("hop_div must be 1, 2, or 4"@)
    } else if !fft_size_ok(requested_fft_size(c) as nat) {
        Some("fft_size must be a power of two in 256..=65536"@)
    } else if band is Err {
        Some(band->Err_0)
    } else if ecc_choice(c) is Err {
        Some(ecc_choice(c)->Err_0)
    } else if c.lossy != LossyProfile::Off && c.strategy != StrategyId::SpreadSpectrum && strict {
        Some("strict: strategy "@ + strategy_name(c.strategy) + " is fragile under --lossy "@
            + lossy_name(c.lossy) + "; use spread-spectrum"@)
    } else if strict && format_is_lossy(resolved_format(c, ext)) && resolved_strategy(c)
        != StrategyId::SpreadSpectrum {
        Some("strict: refusing "@ + strategy_name(resolved_strategy(c)) + " embedding into lossy "@
            + format_name(resolved_format(c, ext)))
    } else if c.encrypt && c.key is None {
        Some("--encrypt requires --key"@)
    } else if key is Err {
        Some(key->Err_0)
    } else {
        None
    }
}

/// The notes that `resolve` records for what the lossy profile changed.
pub open spec fn upgrade_notes(c: CommonEmbedParams) -> Seq<Seq<char>> {
    let strategy_note = if c.lossy != LossyProfile::Off && c.strategy
        != StrategyId::SpreadSpectrum {
        seq!["strategy "@ + strategy_name(c.strategy) + " -> spread-spectrum for lossy profile"@]
    } else {
        Seq::empty()
    };
    let fft_note = if c.lossy != LossyProfile::Off && c.fft_size is None && requested_fft_size(c)
        < 4096 {
        seq!["fft_size raised to 4096 for lossy profile"@]
    } else {
        Seq::empty()
    };
    strategy_note + fft_note
}

fn is_power_of_two(n: usize) -> (r: bool)
    ensures
        r == is_pow2(n as nat),
{
    let mut m = n;
    while m > 1 && m % 2 == 0
        invariant
            is_pow2(n as nat) == is_pow2(m as nat),
        decreases m,
    {
        m = m / 2;
    }
    m == 1
}

/// The output format that a path's extension names (case-insensitive).
pub fn guess_format_from_path(extension: Option<&str>) -> (r: Option<OutputFormat>)
    ensures
        r == (match extension {
            Some(e) => format_for_extension(e@),
            None => None,
        }),
{
    let e = match extension {
        Some(e) => e,
        None => {
            return None;
        },
    };
    let l = ascii_lowercase_chars(e);
    if chars_eq(&l, "wav") {
        Some(OutputFormat::Wav)
    } else if chars_eq(&l, "flac") {
        Some(OutputFormat::Flac)
    } else if chars_eq(&l, "mp3") {
        Some(OutputFormat::Mp3)
    } else if chars_eq(&l, "opus") {
        Some(OutputFormat::Opus)
    } else if chars_eq(&l, "aac") || chars_eq(&l, "m4a") {
        Some(OutputFormat::Aac)
    } else if chars_eq(&l, "ogg") || chars_eq(&l, "oga") {
        Some(OutputFormat::Vorbis)
    } else {
        None
    }
}

fn concat3(a: &str, b: &str, c: &str) -> (r: String)
    ensures
        r@ == a@ + b@ + c@,
{
    let mut out = String::from_str(a);
    out.append(b);
    out.append(c);
    out
}

/// Resolves the embedding parameters from the command line and the
/// carrier's sample rate.
///
/// `output_extension` is the extension of the output path, if any.  `band`
/// is the band the caller resolved for the profile (the parse of
/// `common.band`, or the profile's default band when that is `None`), as
/// `f32` bit patterns.  `key` is the key material that `common.key` names
/// (its bytes, or the contents of the file after `@`).  Their errors are
/// reported at the point of the check sequence where each is consulted.
pub fn resolve(
    common: &CommonEmbedParams,
    sample_rate: u32,
    output_extension: Option<&str>,
    strict: bool,
    band: Result<(u32, u32), String>,
    key: Result<Vec<u8>, String>,
) -> (r: Result<ResolvedParams, String>)
    ensures
        ({
            let band_v = match band {
                Ok(b) => Ok::<(u32, u32), Seq<char>>(b),
                Err(e) => Err::<(u32, u32), Seq<char>>(e@),
            };
            let key_v = match key {
                Ok(k) => Ok::<Seq<u8>, Seq<char>>(k@),
                Err(e) => Err::<Seq<u8>, Seq<char>>(e@),
            };
            let ext_v = match output_extension {
                Some(e) => Some(e@),
                None => None,
            };
            let err = resolve_error(*common, ext_v, strict, band_v, key_v);
            &&& r is Err <==> err is Some
            &&& r matches Err(e) ==> err == Some(e@)
            &&& r matches Ok(p) ==> {
                let fft = requested_fft_size(*common);
                &&& p.strategy == resolved_strategy(*common)
                &&& p.channel_mode == common.channel_mode
                &&& p.lossy == common.lossy
                &&& p.output_format == resolved_format(*common, ext_v)
                &&& p.bitrate == common.bitrate
                &&& p.fft_size == (if common.lossy != LossyProfile::Off && common.fft_size is None
                    && fft < 4096 {
                    4096
                } else {
                    fft
                })
                &&& p.hop_div == requested_hop_div(*common)
                &&& p.hop == fft / (p.hop_div as usize)
                &&& band_v == Ok::<(u32, u32), Seq<char>>((p.band_lo_hz, p.band_hi_hz))
                &&& p.strength == (match common.strength {
                    Some(s) => s,
                    None => default_strength(common.lossy),
                })
                &&& p.shaping == common.shaping
                &&& ecc_choice(*common) == Ok::<EccMode, Seq<char>>(p.ecc)
                &&& key_v == Ok::<Seq<u8>, Seq<char>>(p.key_bytes@)
                &&& p.encrypt == common.encrypt
                &&& p.sample_rate == sample_rate
                &&& p.upgraded@.map_values(|s: String| s@) == upgrade_notes(*common)
                &&& fft_size_ok(p.fft_size as nat)
                &&& hop_div_ok(p.hop_div)
                &&& params_wf(p)
            }
        }),
{
    let ghost ext_v = match output_extension {
        Some(e) => Some(e@),
        None => None,
    };
    let lossy_off = common.lossy.is_off();
    let mut upgraded: Vec<String> = Vec::new();
    let mut strategy = common.strategy;
    let mut fft_size: usize = match common.fft_size {
        Some(n) => n,
        None => if lossy_off {
            2048
        } else {
            4096
        },
    };
    let hop_div: u32 = match common.hop_div {
        Some(h) => h,
        None => if lossy_off {
            1
        } else {
            2
        },
    };
    if hop_div != 1 && hop_div != 2 && hop_div != 4 {
        return Err(String::from_str("hop_div must be 1, 2, or 4"));
    }
    if !is_power_of_two(fft_size) || fft_size < 256 || fft_size > 65536 {
        return Err(String::from_str("fft_size must be a power of two in 256..=65536"));
    }
    let hop = fft_size / hop_div as usize;
    let (band_lo_hz, band_hi_hz) = match band {
        Ok(b) => b,
        Err(e) => {
            return Err(e);
        },
    };
    let strength: u32 = match common.strength {
        Some(s) => s,
        None => if lossy_off {
            STRENGTH_LOSSLESS_BITS
        } else {
            STRENGTH_LOSSY_BITS
        },
    };
    let ecc = match &common.ecc {
        Some(s) => match EccMode::parse(s.as_str()) {
            Ok(m) => m,
            Err(e) => {
                return Err(e);
            },
        },
        None => if lossy_off {
            EccMode::Crc
        } else {
            EccMode::ReedSolomon { parity: 16 }
        },
    };
    if !lossy_off {
        if strategy != StrategyId::SpreadSpectrum {
            if strict {
                let mut msg = concat3(
                    "strict: strategy ",
                    strategy.as_str(),
                    " is fragile under --lossy ",
                );
                msg.append(common.lossy.as_str());
                msg.append("; use spread-spectrum");
                return Err(msg);
            }
            upgraded.push(concat3(
                "strategy ",
                strategy.as_str(),
                " -> spread-spectrum for lossy profile",
            ));
            strategy = StrategyId::SpreadSpectrum;
        }
        if common.fft_size.is_none() && fft_size < 4096 {
            fft_size = 4096;
            upgraded.push(String::from_str("fft_size raised to 4096 for lossy profile"));
        }
        // The strength default of a lossy profile is already 0.15, so the
        // raise to 0.15 that an unset strength would get never applies.
    }
    let mut output_format = common.output_format;
    if output_format == OutputFormat::Auto {
        output_format = match common.lossy {
            LossyProfile::Off => match guess_format_from_path(output_extension) {
                Some(f) => f,
                None => OutputFormat::Wav,
            },
            LossyProfile::Mp3 => OutputFormat::Mp3,
            LossyProfile::Aac => OutputFormat::Aac,
            LossyProfile::Opus => OutputFormat::Opus,
            LossyProfile::Vorbis => OutputFormat::Vorbis,
        };
    }
    if strict && output_format.is_lossy() && strategy != StrategyId::SpreadSpectrum {
        let mut msg = concat3("strict: refusing ", strategy.as_str(), " embedding into lossy ");
        msg.append(output_format.as_str());
        return Err(msg);
    }
    if common.encrypt && common.key.is_none() {
        return Err(String::from_str("--encrypt requires --key"));
    }
    let key_bytes = match key {
        Ok(k) => k,
        Err(e) => {
            return Err(e);
        },
    };
    proof {
        assert(upgraded@.map_values(|s: String| s@) =~= upgrade_notes(*common));
    }
    Ok(
        ResolvedParams {
            strategy,
            channel_mode: common.channel_mode,
            lossy: common.lossy,
            output_format,
            bitrate: common.bitrate,
            fft_size,
            hop,
            hop_div,
            band_lo_hz,
            band_hi_hz,
            strength,
            shaping: common.shaping,
            ecc,
            key_bytes,
            encrypt: common.encrypt,
            sample_rate,
            upgraded,
        },
    )
}

/// Under a lossy profile the resolved strategy is always spread-spectrum,
/// whatever was asked for.
pub proof fn lemma_lossy_profile_forces_spread_spectrum(c: CommonEmbedParams)
    requires
        c.lossy != LossyProfile::Off,
    ensures
        resolved_strategy(c) == StrategyId::SpreadSpectrum,
{
}

// ------------------------------------------------------------ inputs
/// Where the shared secret comes from.
#[derive(Debug, Clone)]
pub enum KeySource {
    /// The secret itself.
    Bytes(Vec<u8>),
    /// A file that holds the secret (`@path` on the command line).
    File(String),
}

/// The secret used when no key is given.
pub open spec fn default_key() -> Seq<u8> {
    "audiostego-default-key".spec_bytes()
}

/// Settles the key argument: none gives the built-in default, `@path`
/// names a file to read, anything else is the secret's own bytes.
pub fn resolve_key(key: Option<&str>) -> (r: KeySource)
    ensures
        match key {
            None => r matches KeySource::Bytes(b) && b@ == default_key(),
            Some(s) => if s@.len() > 0 && s@[0] == '@' {
                r matches KeySource::File(p) && p@ == s@.skip(1)
            } else {
                r matches KeySource::Bytes(b) && b@ == s.spec_bytes()
            },
        },
{
    match key {
        None => KeySource::Bytes(slice_to_vec("audiostego-default-key".as_bytes())),
        Some(s) => {
            let c = str_chars(s);
            if c.len() > 0 && c[0] == '@' {
                let path = String::from_str(s.substring_char(1, c.len()));
                KeySource::File(path)
            } else {
                KeySource::Bytes(slice_to_vec(s.as_bytes()))
            }
        },
    }
}

/// A copy of a byte slice.
fn slice_to_vec(b: &[u8]) -> (r: Vec<u8>)
    ensures
        r@ == b@,
{
    let mut out: Vec<u8> = Vec::new();
    let mut i: usize = 0;
    while i < b.len()
        invariant
            i <= b@.len(),
            out@ =~= b@.take(i as int),
        decreases b@.len() - i,
    {
        out.push(b[i]);
        i = i + 1;
    }
    out
}

/// Where the message comes from.
#[derive(Debug, Clone)]
pub enum MessageSource {
    /// The message is the content of the file given.
    File,
    /// The message is this text.
    Text(Vec<u8>),
}

/// Exactly one of a message file and a message text must be given.
pub fn load_message(has_file: bool, message_text: Option<&str>) -> (r: Result<MessageSource, String>)
    ensures
        match (has_file, message_text) {
            (true, None) => r matches Ok(MessageSource::File),
            (false, Some(t)) => r matches Ok(MessageSource::Text(b)) && b@ == t.spec_bytes(),
            (false, None) => r matches Err(e) && e@ == "provide --message or --message-text"@,
            (true, Some(_)) => r matches Err(e) && e@
                == "provide only one of --message or --message-text"@,
        },
{
    match (has_file, message_text) {
        (true, None) => Ok(MessageSource::File),
        (false, Some(t)) => Ok(MessageSource::Text(slice_to_vec(t.as_bytes()))),
        (false, None) => Err(String::from_str("provide --message or --message-text")),
        (true, Some(_)) => Err(String::from_str("provide only one of --message or --message-text")),
    }
}

/// The positions of ':' in a string.
pub open spec fn colon_count(s: Seq<char>) -> nat
    decreases s.len(),
{
    if s.len() == 0 {
        0
    } else {
        colon_count(s.drop_last()) + if s.last() == ':' {
            1nat
        } else {
            0nat
        }
    }
}

/// Splits a band `LO:HI` at its one colon into the two number texts; any
/// other count of colons is refused.
pub fn split_band(s: &str) -> (r: Result<(String, String), String>)
    ensures
        r is Ok <==> colon_count(s@) == 1,
        r matches Ok((lo, hi)) ==> s@ == lo@ + ":"@ + hi@ && colon_count(lo@) == 0,
        r matches Err(e) ==> e@ == "band must be LO:HI Hz, got '"@ + s@ + "'"@,
{
    let c = str_chars(s);
    let mut colons: usize = 0;
    let mut pos: usize = 0;
    let mut i: usize = 0;
    while i < c.len()
        invariant
            c@ == s@,
            i <= c@.len(),
            colons == colon_count(c@.take(i as int)),
            colons <= i,
            colons >= 1 ==> pos < i && c@[pos as int] == ':' && colon_count(c@.take(pos as int))
                == 0,
        decreases c@.len() - i,
    {
        assert(c@.take(i + 1).drop_last() =~= c@.take(i as int));
        if c[i] == ':' {
            if colons == 0 {
                pos = i;
            }
            colons = colons + 1;
        }
        i = i + 1;
    }
    assert(c@.take(c@.len() as int) =~= c@);
    if colons != 1 {
        let mut msg = String::from_str("band must be LO:HI Hz, got '");
        msg.append(s);
        msg.append("'");
        return Err(msg);
    }
    let lo = String::from_str(s.substring_char(0, pos));
    let hi = String::from_str(s.substring_char(pos + 1, c.len()));
    assert(s@ =~= lo@ + ":"@ + hi@) by {
        reveal_strlit(":");
    }
    Ok((lo, hi))
}

} // verus!
