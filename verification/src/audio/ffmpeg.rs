//! The requirement of an `ffmpeg` binary for formats other than WAV.

use crate::cli::OutputFormat;
use crate::text::{
    decimal_str, lemma_decimal_str_parses, lemma_parse_decimal_roundtrip, parse_uint_spec,
    push_decimal_usize,
};
use vstd::prelude::*;

verus! {

/// Succeeds when `ffmpeg` was found; otherwise the error that asks for it.
/// Whether it is on the PATH is probed by the caller.
pub fn require_ffmpeg(available: bool) -> (r: Result<(), String>)
    ensures
        r is Ok <==> available,
        r matches Err(e) ==> e@ == "ffmpeg not found on PATH (required for non-WAV formats)"@,
{
    if available {
        Ok(())
    } else {
        Err(String::from_str("ffmpeg not found on PATH (required for non-WAV formats)"))
    }
}

/// The codec arguments `ffmpeg` gets for an output format (between the
/// input and the output path), at `bitrate_kbps` where the codec takes a
/// bitrate; WAV and auto are not transcoded.
pub open spec fn codec_args_spec(format: OutputFormat, bitrate_kbps: u32) -> Result<Seq<Seq<char>>, Seq<char>> {
    let br = decimal_str(bitrate_kbps as nat) + "k"@;
    match format {
        OutputFormat::Flac => Ok(seq!["-c:a"@, "flac"@]),
        OutputFormat::Mp3 => Ok(seq!["-c:a"@, "libmp3lame"@, "-b:a"@, br]),
        OutputFormat::Opus => Ok(seq!["-c:a"@, "libopus"@, "-b:a"@, br, "-ar"@, "48000"@]),
        OutputFormat::Aac => Ok(seq!["-c:a"@, "aac"@, "-b:a"@, br]),
        OutputFormat::Vorbis => Ok(seq!["-c:a"@, "libvorbis"@, "-b:a"@, br]),
        OutputFormat::Wav | OutputFormat::Auto => Err("transcode called for wav/auto"@),
    }
}

/// Every lossy format is encoded at the requested bitrate: its codec
/// arguments name the encoder after `-c:a` and give `-b:a` followed by the
/// bitrate in decimal kilobits with a `k`; Opus also resamples to 48 kHz.
/// FLAC takes no bitrate, and WAV and auto are not transcoded.
pub proof fn lemma_codec_args_carry_bitrate(format: OutputFormat, bitrate_kbps: u32)
    ensures
        format is Mp3 || format is Opus || format is Aac || format is Vorbis ==> {
            let a = codec_args_spec(format, bitrate_kbps)->Ok_0;
            &&& codec_args_spec(format, bitrate_kbps) is Ok
            &&& a.len() >= 4
            &&& a[0] == "-c:a"@
            &&& a[2] == "-b:a"@
            &&& a[3].len() >= 2
            &&& a[3].last() == 'k'
            &&& parse_uint_spec(a[3].drop_last(), 0xFFFF_FFFF) == Some(bitrate_kbps as nat)
        },
        format is Mp3 ==> codec_args_spec(format, bitrate_kbps)->Ok_0[1] == "libmp3lame"@,
        format is Opus ==> codec_args_spec(format, bitrate_kbps)->Ok_0[1] == "libopus"@
            && codec_args_spec(format, bitrate_kbps)->Ok_0.subrange(4, 6) == seq![
            "-ar"@,
            "48000"@,
        ],
        format is Aac ==> codec_args_spec(format, bitrate_kbps)->Ok_0[1] == "aac"@,
        format is Vorbis ==> codec_args_spec(format, bitrate_kbps)->Ok_0[1] == "libvorbis"@,
        format is Flac ==> codec_args_spec(format, bitrate_kbps) == Ok::<
            Seq<Seq<char>>,
            Seq<char>,
        >(seq!["-c:a"@, "flac"@]),
        format is Wav || format is Auto ==> codec_args_spec(format, bitrate_kbps) is Err,
{
    reveal_strlit("k");
    lemma_parse_decimal_roundtrip(bitrate_kbps as nat, 0xFFFF_FFFF);
    lemma_decimal_str_parses(bitrate_kbps as nat);
    let br = decimal_str(bitrate_kbps as nat) + "k"@;
    assert(br.drop_last() =~= decimal_str(bitrate_kbps as nat));
    if format is Opus {
        let a = codec_args_spec(format, bitrate_kbps)->Ok_0;
        assert(a.subrange(4, 6) =~= seq!["-ar"@, "48000"@]);
    }
}

/// The views of a list of strings.
pub open spec fn args_view(v: Seq<String>) -> Seq<Seq<char>> {
    Seq::new(v.len(), |i: int| v[i]@)
}

/// The codec arguments for encoding to `format`.
pub fn transcode_codec_args(format: OutputFormat, bitrate_kbps: u32) -> (r: Result<Vec<String>, String>)
    ensures
        r matches Ok(v) ==> codec_args_spec(format, bitrate_kbps) == Ok::<
            Seq<Seq<char>>,
            Seq<char>,
        >(args_view(v@)),
        r matches Err(e) ==> codec_args_spec(format, bitrate_kbps) == Err::<
            Seq<Seq<char>>,
            Seq<char>,
        >(e@),
{
    let mut br = String::new();
    push_decimal_usize(&mut br, bitrate_kbps as usize);
    br.append("k");
    let mut v: Vec<String> = Vec::new();
    match format {
        OutputFormat::Wav | OutputFormat::Auto => {
            return Err(String::from_str("transcode called for wav/auto"));
        },
        _ => {},
    }
    v.push(String::from_str("-c:a"));
    match format {
        OutputFormat::Flac => {
            v.push(String::from_str("flac"));
        },
        OutputFormat::Mp3 => {
            v.push(String::from_str("libmp3lame"));
            v.push(String::from_str("-b:a"));
            v.push(br);
        },
        OutputFormat::Opus => {
            v.push(String::from_str("libopus"));
            v.push(String::from_str("-b:a"));
            v.push(br);
            v.push(String::from_str("-ar"));
            v.push(String::from_str("48000"));
        },
        OutputFormat::Aac => {
            v.push(String::from_str("aac"));
            v.push(String::from_str("-b:a"));
            v.push(br);
        },
        _ => {
            v.push(String::from_str("libvorbis"));
            v.push(String::from_str("-b:a"));
            v.push(br);
        },
    }
    proof {
        if let Ok(want) = codec_args_spec(format, bitrate_kbps) {
            assert(args_view(v@) =~= want);
        }
    }
    Ok(v)
}

} // verus!
