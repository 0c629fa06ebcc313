//! The command-line vocabulary: strategies, channel modes, lossy profiles,
//! output formats, shaping and error-correction modes, with their textual
//! names and their one-byte codes in the capsule header.

use crate::text::{
    all_digits, ascii_lower, ascii_lowercase_chars, chars_eq, chars_start_with, decimal_str,
    lemma_decimal_str_parses, lemma_parse_decimal_roundtrip, parse_uint_from, parse_uint_spec,
    push_decimal,
};
use vstd::prelude::*;

verus! {

/// Embedding strategy.
#[derive(Debug, Clone, Copy, PartialEq, Eq, Structural)]
pub enum StrategyId {
    Differential,
    MagnitudeLsb,
    Qim,
    SpreadSpectrum,
}

/// Stereo / channel handling.
#[derive(Debug, Clone, Copy, PartialEq, Eq, Structural)]
pub enum ChannelMode {
    Mono,
    Left,
    Right,
    Channel(u16),
    Mid,
    Side,
    BothMirror,
    BothSplit,
}

/// Lossy robustness profile.
#[derive(Debug, Clone, Copy, PartialEq, Eq, Structural)]
pub enum LossyProfile {
    Off,
    Mp3,
    Aac,
    Opus,
    Vorbis,
}

/// Output container / codec.
#[derive(Debug, Clone, Copy, PartialEq, Eq, Structural)]
pub enum OutputFormat {
    Auto,
    Wav,
    Flac,
    Mp3,
    Opus,
    Aac,
    Vorbis,
}

/// Perturbation shaping.
#[derive(Debug, Clone, Copy, PartialEq, Eq, Structural)]
pub enum Shaping {
    Fixed,
    Masked,
}

/// Error-correction mode.
#[derive(Debug, Clone, Copy, PartialEq, Eq, Structural)]
pub enum EccMode {
    NoEcc,
    Crc,
    ReedSolomon { parity: u8 },
}

pub open spec fn strategy_name(s: StrategyId) -> Seq<char> {
    match s {
        StrategyId::Differential => "differential"@,
        StrategyId::MagnitudeLsb => "magnitude-lsb"@,
        StrategyId::Qim => "qim"@,
        StrategyId::SpreadSpectrum => "spread-spectrum"@,
    }
}

pub open spec fn strategy_code(s: StrategyId) -> u8 {
    match s {
        StrategyId::Differential => 0,
        StrategyId::MagnitudeLsb => 1,
        StrategyId::Qim => 2,
        StrategyId::SpreadSpectrum => 3,
    }
}

pub open spec fn strategy_from_code(v: u8) -> Option<StrategyId> {
    if v == 0 {
        Some(StrategyId::Differential)
    } else if v == 1 {
        Some(StrategyId::MagnitudeLsb)
    } else if v == 2 {
        Some(StrategyId::Qim)
    } else if v == 3 {
        Some(StrategyId::SpreadSpectrum)
    } else {
        None
    }
}

impl StrategyId {
    pub fn as_str(self) -> (r: &'static str)
        ensures
            r@ == strategy_name(self),
    {
        match self {
            StrategyId::Differential => "differential",
            StrategyId::MagnitudeLsb => "magnitude-lsb",
            StrategyId::Qim => "qim",
            StrategyId::SpreadSpectrum => "spread-spectrum",
        }
    }

    pub fn requires_original(self) -> (r: bool)
        ensures
            r == (self == StrategyId::Differential),
    {
        matches!(self, StrategyId::Differential)
    }

    pub fn from_u8(v: u8) -> (r: Option<StrategyId>)
        ensures
            r == strategy_from_code(v),
    {
        match v {
            0 => Some(StrategyId::Differential),
            1 => Some(StrategyId::MagnitudeLsb),
            2 => Some(StrategyId::Qim),
            3 => Some(StrategyId::SpreadSpectrum),
            _ => None,
        }
    }

    pub fn to_u8(self) -> (r: u8)
        ensures
            r == strategy_code(self),
    {
        match self {
            StrategyId::Differential => 0,
            StrategyId::MagnitudeLsb => 1,
            StrategyId::Qim => 2,
            StrategyId::SpreadSpectrum => 3,
        }
    }
}

pub open spec fn channel_mode_name(m: ChannelMode) -> Seq<char> {
    match m {
        ChannelMode::Mono => "mono"@,
        ChannelMode::Left => "left"@,
        ChannelMode::Right => "right"@,
        ChannelMode::Channel(n) => "channel:"@ + decimal_str(n as nat),
        ChannelMode::Mid => "mid"@,
        ChannelMode::Side => "side"@,
        ChannelMode::BothMirror => "both-mirror"@,
        ChannelMode::BothSplit => "both-split"@,
    }
}

pub open spec fn channel_mode_code(m: ChannelMode) -> u8 {
    match m {
        ChannelMode::Mono => 0,
        ChannelMode::Left => 1,
        ChannelMode::Right => 2,
        ChannelMode::Channel(n) => (3 + (if n < 12 { n } else { 12 })) as u8,
        ChannelMode::Mid => 20,
        ChannelMode::Side => 21,
        ChannelMode::BothMirror => 22,
        ChannelMode::BothSplit => 23,
    }
}

pub open spec fn channel_mode_from_code(c: u8) -> Option<ChannelMode> {
    if c == 0 {
        Some(ChannelMode::Mono)
    } else if c == 1 {
        Some(ChannelMode::Left)
    } else if c == 2 {
        Some(ChannelMode::Right)
    } else if 3 <= c <= 15 {
        Some(ChannelMode::Channel((c - 3) as u16))
    } else if c == 20 {
        Some(ChannelMode::Mid)
    } else if c == 21 {
        Some(ChannelMode::Side)
    } else if c == 22 {
        Some(ChannelMode::BothMirror)
    } else if c == 23 {
        Some(ChannelMode::BothSplit)
    } else {
        None
    }
}

/// What `parse_channel_mode` gives for a string: the mode named by its
/// ASCII-lower-cased form, or the error message.
pub open spec fn channel_mode_parse_spec(s: Seq<char>) -> Result<ChannelMode, Seq<char>> {
    let l = ascii_lower(s);
    let prefix = "channel:"@;
    if l == "mono"@ {
        Ok(ChannelMode::Mono)
    } else if l == "left"@ {
        Ok(ChannelMode::Left)
    } else if l == "right"@ {
        Ok(ChannelMode::Right)
    } else if l == "mid"@ {
        Ok(ChannelMode::Mid)
    } else if l == "side"@ {
        Ok(ChannelMode::Side)
    } else if l == "both-mirror"@ || l == "both_mirror"@ {
        Ok(ChannelMode::BothMirror)
    } else if l == "both-split"@ || l == "both_split"@ {
        Ok(ChannelMode::BothSplit)
    } else if prefix.len() <= l.len() && l.subrange(0, prefix.len() as int) == prefix {
        match parse_uint_spec(l.subrange(prefix.len() as int, l.len() as int), 65535) {
            Some(n) => Ok(ChannelMode::Channel(n as u16)),
            None => Err("invalid channel index in '"@ + s + "'"@),
        }
    } else {
        Err("unknown channel mode '"@ + s + "'"@)
    }
}

impl ChannelMode {
    pub fn as_str(&self) -> (r: String)
        ensures
            r@ == channel_mode_name(*self),
    {
        match self {
            ChannelMode::Mono => String::from_str("mono"),
            ChannelMode::Left => String::from_str("left"),
            ChannelMode::Right => String::from_str("right"),
            ChannelMode::Channel(n) => {
                let mut out = String::from_str("channel:");
                push_decimal(&mut out, *n as u32);
                out
            },
            ChannelMode::Mid => String::from_str("mid"),
            ChannelMode::Side => String::from_str("side"),
            ChannelMode::BothMirror => String::from_str("both-mirror"),
            ChannelMode::BothSplit => String::from_str("both-split"),
        }
    }

    pub fn warns_mono_fragile(&self) -> (r: bool)
        ensures
            r == (*self == ChannelMode::Side),
    {
        matches!(self, ChannelMode::Side)
    }

    pub fn to_code(&self) -> (r: u8)
        ensures
            r == channel_mode_code(*self),
    {
        match self {
            ChannelMode::Mono => 0,
            ChannelMode::Left => 1,
            ChannelMode::Right => 2,
            ChannelMode::Channel(n) => {
                let m: u16 = if *n < 12 {
                    *n
                } else {
                    12
                };
                3 + m as u8
            },
            ChannelMode::Mid => 20,
            ChannelMode::Side => 21,
            ChannelMode::BothMirror => 22,
            ChannelMode::BothSplit => 23,
        }
    }

    pub fn from_code(c: u8) -> (r: Option<ChannelMode>)
        ensures
            r == channel_mode_from_code(c),
    {
        if c == 0 {
            Some(ChannelMode::Mono)
        } else if c == 1 {
            Some(ChannelMode::Left)
        } else if c == 2 {
            Some(ChannelMode::Right)
        } else if 3 <= c && c <= 15 {
            Some(ChannelMode::Channel((c - 3) as u16))
        } else if c == 20 {
            Some(ChannelMode::Mid)
        } else if c == 21 {
            Some(ChannelMode::Side)
        } else if c == 22 {
            Some(ChannelMode::BothMirror)
        } else if c == 23 {
            Some(ChannelMode::BothSplit)
        } else {
            None
        }
    }
}

fn quoted_message(head: &str, s: &str, tail: &str) -> (r: String)
    ensures
        r@ == head@ + s@ + tail@,
{
    let mut out = String::from_str(head);
    out.append(s);
    out.append(tail);
    out
}

/// Parses a channel mode name (case-insensitive), `channel:N` included.
pub fn parse_channel_mode(s: &str) -> (r: Result<ChannelMode, String>)
    ensures
        r matches Ok(m) ==> channel_mode_parse_spec(s@) == Ok::<ChannelMode, Seq<char>>(m),
        r matches Err(e) ==> channel_mode_parse_spec(s@) == Err::<ChannelMode, Seq<char>>(e@),
{
    let lower = ascii_lowercase_chars(s);
    if chars_eq(&lower, "mono") {
        Ok(ChannelMode::Mono)
    } else if chars_eq(&lower, "left") {
        Ok(ChannelMode::Left)
    } else if chars_eq(&lower, "right") {
        Ok(ChannelMode::Right)
    } else if chars_eq(&lower, "mid") {
        Ok(ChannelMode::Mid)
    } else if chars_eq(&lower, "side") {
        Ok(ChannelMode::Side)
    } else if chars_eq(&lower, "both-mirror") || chars_eq(&lower, "both_mirror") {
        Ok(ChannelMode::BothMirror)
    } else if chars_eq(&lower, "both-split") || chars_eq(&lower, "both_split") {
        Ok(ChannelMode::BothSplit)
    } else if chars_start_with(&lower, "channel:") {
        let start = "channel:".unicode_len();
        match parse_uint_from(&lower, start, 65535) {
            Some(n) => Ok(ChannelMode::Channel(n as u16)),
            None => Err(quoted_message("invalid channel index in '", s, "'")),
        }
    } else {
        Err(quoted_message("unknown channel mode '", s, "'"))
    }
}

impl std::str::FromStr for ChannelMode {
    type Err = String;

    fn from_str(s: &str) -> (r: Result<Self, Self::Err>)
        ensures
            r matches Ok(m) ==> channel_mode_parse_spec(s@) == Ok::<ChannelMode, Seq<char>>(m),
            r matches Err(e) ==> channel_mode_parse_spec(s@) == Err::<ChannelMode, Seq<char>>(e@),
    {
        parse_channel_mode(s)
    }
}

pub open spec fn lossy_name(p: LossyProfile) -> Seq<char> {
    match p {
        LossyProfile::Off => "off"@,
        LossyProfile::Mp3 => "mp3"@,
        LossyProfile::Aac => "aac"@,
        LossyProfile::Opus => "opus"@,
        LossyProfile::Vorbis => "vorbis"@,
    }
}

impl LossyProfile {
    pub fn is_off(self) -> (r: bool)
        ensures
            r == (self == LossyProfile::Off),
    {
        matches!(self, LossyProfile::Off)
    }

    pub fn as_str(self) -> (r: &'static str)
        ensures
            r@ == lossy_name(self),
    {
        match self {
            LossyProfile::Off => "off",
            LossyProfile::Mp3 => "mp3",
            LossyProfile::Aac => "aac",
            LossyProfile::Opus => "opus",
            LossyProfile::Vorbis => "vorbis",
        }
    }
}

pub open spec fn format_name(f: OutputFormat) -> Seq<char> {
    match f {
        OutputFormat::Auto => "auto"@,
        OutputFormat::Wav => "wav"@,
        OutputFormat::Flac => "flac"@,
        OutputFormat::Mp3 => "mp3"@,
        OutputFormat::Opus => "opus"@,
        OutputFormat::Aac => "aac"@,
        OutputFormat::Vorbis => "vorbis"@,
    }
}

pub open spec fn format_extension(f: OutputFormat) -> Seq<char> {
    match f {
        OutputFormat::Auto => "wav"@,
        OutputFormat::Wav => "wav"@,
        OutputFormat::Flac => "flac"@,
        OutputFormat::Mp3 => "mp3"@,
        OutputFormat::Opus => "opus"@,
        OutputFormat::Aac => "aac"@,
        OutputFormat::Vorbis => "ogg"@,
    }
}

pub open spec fn format_is_lossy(f: OutputFormat) -> bool {
    f == OutputFormat::Mp3 || f == OutputFormat::Opus || f == OutputFormat::Aac || f
        == OutputFormat::Vorbis
}

impl OutputFormat {
    pub fn as_str(self) -> (r: &'static str)
        ensures
            r@ == format_name(self),
    {
        match self {
            OutputFormat::Auto => "auto",
            OutputFormat::Wav => "wav",
            OutputFormat::Flac => "flac",
            OutputFormat::Mp3 => "mp3",
            OutputFormat::Opus => "opus",
            OutputFormat::Aac => "aac",
            OutputFormat::Vorbis => "vorbis",
        }
    }

    pub fn extension(self) -> (r: &'static str)
        ensures
            r@ == format_extension(self),
    {
        match self {
            OutputFormat::Auto => "wav",
            OutputFormat::Wav => "wav",
            OutputFormat::Flac => "flac",
            OutputFormat::Mp3 => "mp3",
            OutputFormat::Opus => "opus",
            OutputFormat::Aac => "aac",
            OutputFormat::Vorbis => "ogg",
        }
    }

    pub fn is_lossy(self) -> (r: bool)
        ensures
            r == format_is_lossy(self),
    {
        matches!(self, OutputFormat::Mp3 | OutputFormat::Opus | OutputFormat::Aac | OutputFormat::Vorbis)
    }
}

pub open spec fn ecc_name(e: EccMode) -> Seq<char> {
    match e {
        EccMode::NoEcc => "none"@,
        EccMode::Crc => "crc"@,
        EccMode::ReedSolomon { parity } => "rs:"@ + decimal_str(parity as nat),
    }
}

pub open spec fn ecc_code(e: EccMode) -> u8 {
    match e {
        EccMode::NoEcc => 0,
        EccMode::Crc => 1,
        EccMode::ReedSolomon { parity } => (2 + (if parity < 64 { parity } else { 64 })) as u8,
    }
}

pub open spec fn ecc_from_code(c: u8) -> Option<EccMode> {
    if c == 0 {
        Some(EccMode::NoEcc)
    } else if c == 1 {
        Some(EccMode::Crc)
    } else if 2 <= c <= 66 {
        Some(EccMode::ReedSolomon { parity: (c - 2) as u8 })
    } else {
        None
    }
}

/// What `EccMode::parse` gives for a string: the mode, or the error message.
pub open spec fn ecc_parse_spec(s: Seq<char>) -> Result<EccMode, Seq<char>> {
    let l = ascii_lower(s);
    let prefix = "rs:"@;
    if l == "none"@ {
        Ok(EccMode::NoEcc)
    } else if l == "crc"@ {
        Ok(EccMode::Crc)
    } else if prefix.len() <= l.len() && l.subrange(0, prefix.len() as int) == prefix {
        match parse_uint_spec(l.subrange(prefix.len() as int, l.len() as int), 255) {
            None => Err("invalid reed-solomon parity in '"@ + s + "'"@),
            Some(n) => if n == 0 || n > 64 {
                Err("reed-solomon parity must be 1..=64"@)
            } else {
                Ok(EccMode::ReedSolomon { parity: n as u8 })
            },
        }
    } else {
        Err("unknown ecc mode '"@ + s + "' (expected none|crc|rs:N)"@)
    }
}

impl EccMode {
    pub fn parse(s: &str) -> (r: Result<EccMode, String>)
        ensures
            r matches Ok(m) ==> ecc_parse_spec(s@) == Ok::<EccMode, Seq<char>>(m),
            r matches Err(e) ==> ecc_parse_spec(s@) == Err::<EccMode, Seq<char>>(e@),
    {
        let lower = ascii_lowercase_chars(s);
        if chars_eq(&lower, "none") {
            return Ok(EccMode::NoEcc);
        }
        if chars_eq(&lower, "crc") {
            return Ok(EccMode::Crc);
        }
        if chars_start_with(&lower, "rs:") {
            let start = "rs:".unicode_len();
            let n = match parse_uint_from(&lower, start, 255) {
                Some(n) => n,
                None => {
                    return Err(quoted_message("invalid reed-solomon parity in '", s, "'"));
                },
            };
            if n == 0 || n > 64 {
                return Err(String::from_str("reed-solomon parity must be 1..=64"));
            }
            return Ok(EccMode::ReedSolomon { parity: n as u8 });
        }
        Err(quoted_message("unknown ecc mode '", s, "' (expected none|crc|rs:N)"))
    }

    pub fn as_str(self) -> (r: String)
        ensures
            r@ == ecc_name(self),
    {
        match self {
            EccMode::NoEcc => String::from_str("none"),
            EccMode::Crc => String::from_str("crc"),
            EccMode::ReedSolomon { parity } => {
                let mut out = String::from_str("rs:");
                push_decimal(&mut out, parity as u32);
                out
            },
        }
    }

    pub fn to_code(self) -> (r: u8)
        ensures
            r == ecc_code(self),
    {
        match self {
            EccMode::NoEcc => 0,
            EccMode::Crc => 1,
            EccMode::ReedSolomon { parity } => {
                let p: u8 = if parity < 64 {
                    parity
                } else {
                    64
                };
                2 + p
            },
        }
    }

    pub fn from_code(c: u8) -> (r: Option<EccMode>)
        ensures
            r == ecc_from_code(c),
    {
        if c == 0 {
            Some(EccMode::NoEcc)
        } else if c == 1 {
            Some(EccMode::Crc)
        } else if 2 <= c && c <= 66 {
            Some(EccMode::ReedSolomon { parity: c - 2 })
        } else {
            None
        }
    }
}

/// Shared embedding / profile parameters.  The strength is carried as the
/// bit pattern of the `f32` the user gave (`f32::to_bits`).
#[derive(Debug, Clone)]
pub struct CommonEmbedParams {
    pub strategy: StrategyId,
    pub channel_mode: ChannelMode,
    pub lossy: LossyProfile,
    pub output_format: OutputFormat,
    pub bitrate: u32,
    pub fft_size: Option<usize>,
    pub hop_div: Option<u32>,
    pub band: Option<String>,
    pub strength: Option<u32>,
    pub shaping: Shaping,
    pub ecc: Option<String>,
    pub key: Option<String>,
    pub encrypt: bool,
}

// ---------------------------------------------------------------------------
// Laws of the vocabulary.
/// Decoding the code of a strategy gives the strategy back.
pub proof fn lemma_strategy_code_roundtrip(s: StrategyId)
    ensures
        strategy_from_code(strategy_code(s)) == Some(s),
{
}

/// Decoding the header code of a channel mode gives it back, for every mode
/// whose code is exact (a channel index above 12 is stored as 12).
pub proof fn lemma_channel_mode_code_roundtrip(m: ChannelMode)
    requires
        m matches ChannelMode::Channel(n) ==> n <= 12,
    ensures
        channel_mode_from_code(channel_mode_code(m)) == Some(m),
{
}

/// Decoding the header code of an ECC mode gives it back when the parity
/// fits the code (at most 64).
pub proof fn lemma_ecc_code_roundtrip(e: EccMode)
    requires
        e matches EccMode::ReedSolomon { parity } ==> parity <= 64,
    ensures
        ecc_from_code(ecc_code(e)) == Some(e),
{
}

proof fn lemma_channel_index_name_parses(n: u16)
    ensures
        channel_mode_parse_spec(channel_mode_name(ChannelMode::Channel(n))) == Ok::<
            ChannelMode,
            Seq<char>,
        >(ChannelMode::Channel(n)),
{
    reveal_strlit("mono");
    reveal_strlit("left");
    reveal_strlit("right");
    reveal_strlit("mid");
    reveal_strlit("side");
    reveal_strlit("both-mirror");
    reveal_strlit("both_mirror");
    reveal_strlit("both-split");
    reveal_strlit("both_split");
    reveal_strlit("channel:");
    let name = channel_mode_name(ChannelMode::Channel(n));
    let l = ascii_lower(name);
    lemma_decimal_str_parses(n as nat);
    lemma_lower_digits(decimal_str(n as nat));
    assert(l =~= "channel:"@ + decimal_str(n as nat));
    assert(l.subrange(0, 8) =~= "channel:"@);
    assert(l.subrange(8, l.len() as int) =~= decimal_str(n as nat));
    lemma_parse_decimal_roundtrip(n as nat, 65535);
    assert(l[0] == 'c');
    assert(l.len() >= 9);
    assert(((n as nat) as u16) == n);
}

/// Parsing the name of a channel mode gives the mode back.
pub proof fn lemma_channel_mode_name_parses(m: ChannelMode)
    ensures
        channel_mode_parse_spec(channel_mode_name(m)) == Ok::<ChannelMode, Seq<char>>(m),
{
    reveal_strlit("mono");
    reveal_strlit("left");
    reveal_strlit("right");
    reveal_strlit("mid");
    reveal_strlit("side");
    reveal_strlit("both-mirror");
    reveal_strlit("both_mirror");
    reveal_strlit("both-split");
    reveal_strlit("both_split");
    let name = channel_mode_name(m);
    if let ChannelMode::Channel(n) = m {
        lemma_channel_index_name_parses(n);
    } else {
        assert(ascii_lower(name) =~= name);
        assert("mono"@[0] == 'm' && "mono"@[1] == 'o');
        assert("left"@[0] == 'l');
        assert("right"@[0] == 'r');
        assert("mid"@[0] == 'm' && "mid"@[1] == 'i');
        assert("side"@[0] == 's');
        assert("both-mirror"@[0] == 'b' && "both-mirror"@[4] == '-' && "both-mirror"@[5] == 'm');
        assert("both_mirror"@[4] == '_');
        if m == ChannelMode::Mono {
            assert(channel_mode_parse_spec(name) == Ok::<ChannelMode, Seq<char>>(m));
        } else if m == ChannelMode::Left {
            assert(name != "mono"@);
            assert(channel_mode_parse_spec(name) == Ok::<ChannelMode, Seq<char>>(m));
        } else if m == ChannelMode::Right {
            assert(name != "mono"@ && name != "left"@);
            assert(channel_mode_parse_spec(name) == Ok::<ChannelMode, Seq<char>>(m));
        } else if m == ChannelMode::Mid {
            assert(name[1] == 'i');
            assert(name != "mono"@ && name != "left"@ && name != "right"@);
            assert(channel_mode_parse_spec(name) == Ok::<ChannelMode, Seq<char>>(m));
        } else if m == ChannelMode::Side {
            assert(name != "mono"@ && name != "left"@ && name != "right"@ && name != "mid"@);
            assert(channel_mode_parse_spec(name) == Ok::<ChannelMode, Seq<char>>(m));
        } else if m == ChannelMode::BothMirror {
            assert(name != "mono"@ && name != "left"@ && name != "right"@ && name != "mid"@ && name
                != "side"@);
            assert(channel_mode_parse_spec(name) == Ok::<ChannelMode, Seq<char>>(m));
        } else {
            assert(name[5] == 's');
            assert(name != "mono"@ && name != "left"@ && name != "right"@ && name != "mid"@ && name
                != "side"@ && name != "both-mirror"@ && name != "both_mirror"@);
            assert(channel_mode_parse_spec(name) == Ok::<ChannelMode, Seq<char>>(m));
        }
    }
}

/// ASCII lower-casing leaves digits unchanged.
proof fn lemma_lower_digits(s: Seq<char>)
    requires
        all_digits(s),
    ensures
        ascii_lower(s) == s,
{
    assert(ascii_lower(s) =~= s);
}

/// Parsing the name of an ECC mode gives the mode back, for every parity
/// that the parser accepts (1 to 64).
pub proof fn lemma_ecc_name_parses(e: EccMode)
    requires
        e matches EccMode::ReedSolomon { parity } ==> 1 <= parity <= 64,
    ensures
        ecc_parse_spec(ecc_name(e)) == Ok::<EccMode, Seq<char>>(e),
{
    reveal_strlit("none");
    reveal_strlit("crc");
    reveal_strlit("rs:");
    let name = ecc_name(e);
    let l = ascii_lower(name);
    match e {
        EccMode::ReedSolomon { parity } => {
            lemma_decimal_str_parses(parity as nat);
            lemma_lower_digits(decimal_str(parity as nat));
            assert(l =~= "rs:"@ + decimal_str(parity as nat));
            assert(l.subrange(0, 3) =~= "rs:"@);
            assert(l.subrange(3, l.len() as int) =~= decimal_str(parity as nat));
            lemma_parse_decimal_roundtrip(parity as nat, 255);
            assert(l[0] == 'r');
            assert(l != "none"@ && l != "crc"@);
        },
        _ => {
            assert(l =~= name);
        },
    }
}

} // verus!
