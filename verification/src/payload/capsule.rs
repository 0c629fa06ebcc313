//! The self-describing capsule: a fixed 48-byte header (magic, version,
//! parameters, payload length, CRC32) and the protected, optionally
//! encrypted body.

use crate::cli::{
    channel_mode_code, channel_mode_from_code, ecc_code, ecc_from_code, strategy_code,
    strategy_from_code, ChannelMode, EccMode, Shaping, StrategyId,
};
use crate::outside::{crc32, crc32_spec};
use crate::payload::bits::{
    bits_bytes_spec, bools_to_bytes, bytes_bits_spec, bytes_to_bools, lemma_bit_capacity, lemma_bits_bytes_roundtrip,
    lemma_bytes_bits_roundtrip, padded_bit,
};
use crate::payload::crypto::{decrypt, decrypt_spec, encrypt, encrypt_spec};
use crate::payload::ecc::{
    append_slice, protect, protect_spec, protectable, recover, recover_checked, recover_defined,
    lemma_protected_recover_defined, recover_spec, rs_block_data, rs_chunks, rs_frame_body,
};
use crate::payload::error::PayloadError;
use crate::profile::ResolvedParams;
use crate::text::{decimal_str, push_decimal};
use vstd::bytes::{
    lemma_auto_spec_u32_to_from_le_bytes, spec_u32_from_le_bytes, spec_u32_to_le_bytes,
    u32_from_le_bytes, u32_to_le_bytes,
};
use vstd::prelude::*;
use vstd::slice::slice_subrange;

verus! {

/// Format version written into every header.
pub const VERSION: u8 = 1;

/// Size of the binary header embedded ahead of the body.
pub const HEADER_BYTES: usize = 48;

/// The magic bytes `ASTG` that open every header.
pub open spec fn magic() -> Seq<u8> {
    seq![0x41u8, 0x53u8, 0x54u8, 0x47u8]
}

/// The capsule header.  The band edges, strength and scale factor are the
/// bit patterns of the `f32` values (as `to_le_bytes` of the float writes them).
#[derive(Debug, Clone, Copy, PartialEq, Eq, Structural)]
pub struct CapsuleHeader {
    pub version: u8,
    pub strategy: StrategyId,
    pub channel_mode: ChannelMode,
    pub fft_size: u32,
    pub hop_div: u8,
    pub band_lo_hz: u32,
    pub band_hi_hz: u32,
    pub strength: u32,
    pub shaping: Shaping,
    pub ecc: EccMode,
    pub scale_factor: u32,
    pub sample_rate: u32,
    pub payload_len: u32,
    /// Bit 0: the body is encrypted.
    pub flags: u8,
    pub header_crc: u32,
}

pub open spec fn shaping_code(s: Shaping) -> u8 {
    match s {
        Shaping::Fixed => 0,
        Shaping::Masked => 1,
    }
}

/// The first 44 bytes of a header: everything the CRC covers.
pub open spec fn header_body_spec(h: CapsuleHeader) -> Seq<u8> {
    magic() + seq![
        h.version,
        strategy_code(h.strategy),
        channel_mode_code(h.channel_mode),
        h.hop_div,
    ] + spec_u32_to_le_bytes(h.fft_size) + spec_u32_to_le_bytes(h.band_lo_hz)
        + spec_u32_to_le_bytes(h.band_hi_hz) + spec_u32_to_le_bytes(h.strength) + seq![
        shaping_code(h.shaping),
        ecc_code(h.ecc),
        h.flags,
        0u8,
    ] + spec_u32_to_le_bytes(h.scale_factor) + spec_u32_to_le_bytes(h.sample_rate)
        + spec_u32_to_le_bytes(h.payload_len) + seq![0u8, 0u8, 0u8, 0u8]
}

/// The 48 header bytes: the covered bytes, then the stored CRC.
pub open spec fn header_bytes_spec(h: CapsuleHeader) -> Seq<u8> {
    header_body_spec(h) + spec_u32_to_le_bytes(h.header_crc)
}

/// A header that reads back as itself: current version, a CRC over its
/// bytes, and codes that its fields map to exactly.
pub open spec fn header_wf(h: CapsuleHeader) -> bool {
    &&& h.version == VERSION
    &&& h.header_crc == crc32_spec(header_body_spec(h))
    &&& (h.channel_mode matches ChannelMode::Channel(n) ==> n <= 12)
    &&& (h.ecc matches EccMode::ReedSolomon { parity } ==> parity <= 64)
}

pub open spec fn le32_at(b: Seq<u8>, at: int) -> u32 {
    spec_u32_from_le_bytes(b.subrange(at, at + 4))
}

/// What `from_bytes` gives for a byte string.
pub open spec fn header_parse_spec(b: Seq<u8>) -> Result<CapsuleHeader, Seq<char>> {
    if b.len() < HEADER_BYTES {
        Err("capsule header too short"@)
    } else if b.take(4) != magic() {
        Err("bad capsule magic"@)
    } else if le32_at(b, 44) != crc32_spec(b.take(44)) {
        Err("capsule header CRC mismatch"@)
    } else if b[4] != VERSION {
        Err("unsupported capsule version "@ + decimal_str(b[4] as nat))
    } else if strategy_from_code(b[5]) is None {
        Err("bad strategy id"@)
    } else if channel_mode_from_code(b[6]) is None {
        Err("bad channel mode"@)
    } else if ecc_from_code(b[25]) is None {
        Err("bad ecc"@)
    } else {
        Ok(
            CapsuleHeader {
                version: b[4],
                strategy: strategy_from_code(b[5])->Some_0,
                channel_mode: channel_mode_from_code(b[6])->Some_0,
                fft_size: le32_at(b, 8),
                hop_div: b[7],
                band_lo_hz: le32_at(b, 12),
                band_hi_hz: le32_at(b, 16),
                strength: le32_at(b, 20),
                shaping: if b[24] == 0 {
                    Shaping::Fixed
                } else {
                    Shaping::Masked
                },
                ecc: ecc_from_code(b[25])->Some_0,
                scale_factor: le32_at(b, 28),
                sample_rate: le32_at(b, 32),
                payload_len: le32_at(b, 36),
                flags: b[26],
                header_crc: le32_at(b, 44),
            },
        )
    }
}

fn push_le32(out: &mut Vec<u8>, x: u32)
    ensures
        final(out)@ == old(out)@ + spec_u32_to_le_bytes(x),
{
    let b = u32_to_le_bytes(x);
    append_slice(out, b.as_slice());
}

fn read_le32(b: &[u8], at: usize) -> (r: u32)
    requires
        at + 4 <= b@.len(),
    ensures
        r == le32_at(b@, at as int),
{
    let _len = b.len();
    u32_from_le_bytes(slice_subrange(b, at, at + 4))
}

/// `h` is the header for `p`, a body of `payload_len` bytes and the scale
/// factor `scale_factor`, with its CRC.
pub open spec fn header_for(h: CapsuleHeader, p: ResolvedParams, payload_len: u32, scale_factor: u32) -> bool {
    &&& h.version == VERSION
    &&& h.strategy == p.strategy
    &&& h.channel_mode == p.channel_mode
    &&& h.fft_size == p.fft_size as u32
    &&& h.hop_div == p.hop_div as u8
    &&& h.band_lo_hz == p.band_lo_hz
    &&& h.band_hi_hz == p.band_hi_hz
    &&& h.strength == p.strength
    &&& h.shaping == p.shaping
    &&& h.ecc == p.ecc
    &&& h.scale_factor == scale_factor
    &&& h.sample_rate == p.sample_rate
    &&& h.payload_len == payload_len
    &&& h.flags == (if p.encrypt {
        1u8
    } else {
        0u8
    })
    &&& h.header_crc == crc32_spec(header_body_spec(h))
}

impl CapsuleHeader {
    /// The header for `params`, a body of `payload_len` bytes and the
    /// applied scale factor (an `f32` bit pattern), with its CRC.
    pub fn from_params(params: &ResolvedParams, payload_len: u32, scale_factor: u32) -> (r: Self)
        ensures
            header_for(r, *params, payload_len, scale_factor),
    {
        let mut h = CapsuleHeader {
            version: VERSION,
            strategy: params.strategy,
            channel_mode: params.channel_mode,
            fft_size: params.fft_size as u32,
            hop_div: params.hop_div as u8,
            band_lo_hz: params.band_lo_hz,
            band_hi_hz: params.band_hi_hz,
            strength: params.strength,
            shaping: params.shaping,
            ecc: params.ecc,
            scale_factor,
            sample_rate: params.sample_rate,
            payload_len,
            flags: if params.encrypt {
                1
            } else {
                0
            },
            header_crc: 0,
        };
        let bytes = h.to_bytes_uncrcd();
        h.header_crc = crc32(bytes.as_slice());
        h
    }

    /// The 44 bytes that the CRC covers.
    fn to_bytes_uncrcd(&self) -> (r: Vec<u8>)
        ensures
            r@ == header_body_spec(*self),
    {
        let mut b: Vec<u8> = Vec::new();
        b.push(0x41);
        b.push(0x53);
        b.push(0x54);
        b.push(0x47);
        b.push(self.version);
        b.push(self.strategy.to_u8());
        b.push(self.channel_mode.to_code());
        b.push(self.hop_div);
        push_le32(&mut b, self.fft_size);
        push_le32(&mut b, self.band_lo_hz);
        push_le32(&mut b, self.band_hi_hz);
        push_le32(&mut b, self.strength);
        b.push(
            match self.shaping {
                Shaping::Fixed => 0,
                Shaping::Masked => 1,
            },
        );
        b.push(self.ecc.to_code());
        b.push(self.flags);
        b.push(0);
        push_le32(&mut b, self.scale_factor);
        push_le32(&mut b, self.sample_rate);
        push_le32(&mut b, self.payload_len);
        b.push(0);
        b.push(0);
        b.push(0);
        b.push(0);
        assert(b@ =~= header_body_spec(*self));
        b
    }

    /// The 48 header bytes.
    pub fn to_bytes(&self) -> (r: Vec<u8>)
        ensures
            r@ == header_bytes_spec(*self),
            r@.len() == HEADER_BYTES,
    {
        proof {
            lemma_auto_spec_u32_to_from_le_bytes();
        }
        let mut b = self.to_bytes_uncrcd();
        push_le32(&mut b, self.header_crc);
        b
    }

    /// Reads a header from the first 48 bytes of `b`.
    pub fn from_bytes(b: &[u8]) -> (r: Result<Self, String>)
        ensures
            r matches Ok(h) ==> header_parse_spec(b@) == Ok::<CapsuleHeader, Seq<char>>(h),
            r matches Err(e) ==> header_parse_spec(b@) == Err::<CapsuleHeader, Seq<char>>(e@),
    {
        if b.len() < HEADER_BYTES {
            return Err(String::from_str("capsule header too short"));
        }
        if !(b[0] == 0x41 && b[1] == 0x53 && b[2] == 0x54 && b[3] == 0x47) {
            proof {
                assert(b@.take(4) != magic() <== !(b@[0] == 0x41 && b@[1] == 0x53 && b@[2] == 0x54
                    && b@[3] == 0x47));
            }
            return Err(String::from_str("bad capsule magic"));
        }
        assert(b@.take(4) =~= magic());
        let crc_stored = read_le32(b, 44);
        let covered = slice_subrange(b, 0, 44);
        let crc_got = crc32(covered);
        assert(covered@ =~= b@.take(44));
        if crc_stored != crc_got {
            return Err(String::from_str("capsule header CRC mismatch"));
        }
        let version = b[4];
        if version != VERSION {
            let mut msg = String::from_str("unsupported capsule version ");
            push_decimal(&mut msg, version as u32);
            return Err(msg);
        }
        let strategy = match StrategyId::from_u8(b[5]) {
            Some(s) => s,
            None => {
                return Err(String::from_str("bad strategy id"));
            },
        };
        let channel_mode = match ChannelMode::from_code(b[6]) {
            Some(m) => m,
            None => {
                return Err(String::from_str("bad channel mode"));
            },
        };
        let hop_div = b[7];
        let fft_size = read_le32(b, 8);
        let band_lo_hz = read_le32(b, 12);
        let band_hi_hz = read_le32(b, 16);
        let strength = read_le32(b, 20);
        let shaping = if b[24] == 0 {
            Shaping::Fixed
        } else {
            Shaping::Masked
        };
        let ecc = match EccMode::from_code(b[25]) {
            Some(e) => e,
            None => {
                return Err(String::from_str("bad ecc"));
            },
        };
        let flags = b[26];
        let scale_factor = read_le32(b, 28);
        let sample_rate = read_le32(b, 32);
        let payload_len = read_le32(b, 36);
        Ok(
            CapsuleHeader {
                version,
                strategy,
                channel_mode,
                fft_size,
                hop_div,
                band_lo_hz,
                band_hi_hz,
                strength,
                shaping,
                ecc,
                scale_factor,
                sample_rate,
                payload_len,
                flags,
                header_crc: crc_stored,
            },
        )
    }

    pub fn encrypted(&self) -> (r: bool)
        ensures
            r == (self.flags & 1u8 != 0u8),
    {
        self.flags & 1 != 0
    }
}

/// A well-formed header reads back as itself from its bytes.
pub proof fn lemma_header_bytes_roundtrip(h: CapsuleHeader)
    requires
        header_wf(h),
    ensures
        header_parse_spec(header_bytes_spec(h)) == Ok::<CapsuleHeader, Seq<char>>(h),
{
    lemma_auto_spec_u32_to_from_le_bytes();
    let b = header_bytes_spec(h);
    assert(b.len() == 48);
    assert(b.take(4) =~= magic());
    assert(b.take(44) =~= header_body_spec(h));
    assert(b.subrange(44, 48) =~= spec_u32_to_le_bytes(h.header_crc));
    assert(b.subrange(8, 12) =~= spec_u32_to_le_bytes(h.fft_size));
    assert(b.subrange(12, 16) =~= spec_u32_to_le_bytes(h.band_lo_hz));
    assert(b.subrange(16, 20) =~= spec_u32_to_le_bytes(h.band_hi_hz));
    assert(b.subrange(20, 24) =~= spec_u32_to_le_bytes(h.strength));
    assert(b.subrange(28, 32) =~= spec_u32_to_le_bytes(h.scale_factor));
    assert(b.subrange(32, 36) =~= spec_u32_to_le_bytes(h.sample_rate));
    assert(b.subrange(36, 40) =~= spec_u32_to_le_bytes(h.payload_len));
    assert(b[5] == strategy_code(h.strategy));
    assert(b[6] == channel_mode_code(h.channel_mode));
    assert(b[24] == shaping_code(h.shaping));
    assert(b[25] == ecc_code(h.ecc));
}

/// The header that `from_params` builds is well formed whenever its
/// channel index and parity fit their codes.
pub proof fn lemma_from_params_wf(h: CapsuleHeader)
    requires
        h.version == VERSION,
        h.header_crc == crc32_spec(header_body_spec(h)),
        h.channel_mode matches ChannelMode::Channel(n) ==> n <= 12,
        h.ecc matches EccMode::ReedSolomon { parity } ==> parity <= 64,
    ensures
        header_wf(h),
{
}

/// The plaintext that goes into error protection.
pub open spec fn body_plain_spec(encrypt: bool, key: Seq<u8>, message: Seq<u8>) -> Result<
    Seq<u8>,
    PayloadError,
> {
    if encrypt {
        encrypt_spec(key, message)
    } else {
        Ok(message)
    }
}

/// What `build_body` produces.
pub open spec fn build_body_spec(encrypt: bool, key: Seq<u8>, ecc: EccMode, message: Seq<u8>) -> Result<
    Seq<u8>,
    PayloadError,
> {
    match body_plain_spec(encrypt, key, message) {
        Ok(plain) => protect_spec(plain, ecc),
        Err(e) => Err(e),
    }
}

proof fn lemma_rs_chunks_len(a: Seq<u8>, b: Seq<u8>, p: u8)
    requires
        a.len() == b.len(),
    ensures
        rs_chunks(a, p).len() == rs_chunks(b, p).len(),
    decreases a.len(),
{
    if a.len() > 0 && p < 255 {
        let k = if a.len() < rs_block_data(p) {
            a.len()
        } else {
            rs_block_data(p)
        };
        lemma_rs_chunks_len(a.skip(k as int), b.skip(k as int), p);
    }
}

/// Whether a body can be built, and how long it is, depends on the
/// message's length alone (not on its bytes): so the fit that `info`
/// reports for a length is the verdict that embedding any message of that
/// length gets.
pub proof fn lemma_body_size_depends_on_length(
    encrypt: bool,
    key: Seq<u8>,
    ecc: EccMode,
    m1: Seq<u8>,
    m2: Seq<u8>,
)
    requires
        m1.len() == m2.len(),
    ensures
        build_body_spec(encrypt, key, ecc, m1) is Ok <==> build_body_spec(encrypt, key, ecc, m2) is Ok,
        build_body_spec(encrypt, key, ecc, m1) is Ok ==> build_body_spec(encrypt, key, ecc, m1)->Ok_0.len()
            == build_body_spec(encrypt, key, ecc, m2)->Ok_0.len(),
{
    vstd::bytes::lemma_auto_spec_u16_to_from_le_bytes();
    vstd::bytes::lemma_auto_spec_u32_to_from_le_bytes();
    let p1 = body_plain_spec(encrypt, key, m1);
    let p2 = body_plain_spec(encrypt, key, m2);
    assert(p1 is Ok <==> p2 is Ok);
    if p1 is Ok {
        let a = p1->Ok_0;
        let b = p2->Ok_0;
        assert(a.len() == b.len());
        if let EccMode::ReedSolomon { parity } = ecc {
            if parity != 255 {
                lemma_rs_chunks_len(rs_frame_body(a), rs_frame_body(b), parity);
            }
        }
    }
}

/// A body that `build_body` produces can always be handed to `decode_body`.
pub proof fn lemma_built_body_decodable(encrypt: bool, key: Seq<u8>, ecc: EccMode, m: Seq<u8>)
    requires
        build_body_spec(encrypt, key, ecc, m) is Ok,
    ensures
        recover_defined(build_body_spec(encrypt, key, ecc, m)->Ok_0, ecc),
{
    lemma_protected_recover_defined(body_plain_spec(encrypt, key, m)->Ok_0, ecc);
}

/// What `decode_body` gives.
pub open spec fn decode_body_spec(encrypt: bool, key: Seq<u8>, ecc: EccMode, body: Seq<u8>) -> Result<
    Seq<u8>,
    PayloadError,
> {
    match recover_spec(body, ecc) {
        Ok(recovered) => if encrypt {
            decrypt_spec(key, recovered)
        } else {
            Ok(recovered)
        },
        Err(e) => Err(e),
    }
}

/// Messages whose body fits the error protection's framing: under
/// Reed-Solomon the (encrypted) message and its CRC must fit a 16-bit length.
pub open spec fn body_fits(encrypt: bool, ecc: EccMode, message_len: nat) -> bool {
    let plain_len = if encrypt {
        message_len + 28
    } else {
        message_len
    };
    match ecc {
        EccMode::ReedSolomon { parity } => parity < 255 && plain_len + 4 <= 65535,
        _ => true,
    }
}

/// The full body: the message, encrypted when the parameters ask for it,
/// then protected by the parameters' error correction.
pub fn build_body(params: &ResolvedParams, message: &[u8]) -> (r: Result<Vec<u8>, PayloadError>)
    requires
        message@.len() + 64 <= usize::MAX,
    ensures
        r matches Ok(v) ==> build_body_spec(
            params.encrypt,
            params.key_bytes@,
            params.ecc,
            message@,
        ) == Ok::<Seq<u8>, PayloadError>(v@),
        r matches Err(e) ==> build_body_spec(
            params.encrypt,
            params.key_bytes@,
            params.ecc,
            message@,
        ) == Err::<Seq<u8>, PayloadError>(e),
        r matches Ok(v) ==> recover_defined(v@, params.ecc),
{
    proof {
        if build_body_spec(params.encrypt, params.key_bytes@, params.ecc, message@) is Ok {
            lemma_built_body_decodable(params.encrypt, params.key_bytes@, params.ecc, message@);
        }
    }
    let plain = if params.encrypt {
        match encrypt(params.key_bytes.as_slice(), message) {
            Ok(p) => p,
            Err(e) => {
                return Err(e);
            },
        }
    } else {
        let mut p: Vec<u8> = Vec::new();
        append_slice(&mut p, message);
        assert(p@ =~= message@);
        p
    };
    protect(plain.as_slice(), params.ecc)
}

/// Recovers the message from a body: error correction, then decryption
/// when `params_encrypt` is set.  A body that `build_body` made from a
/// message with the same key and modes decodes to that message.
pub fn decode_body(params_encrypt: bool, key: &[u8], ecc_mode: EccMode, body: &[u8]) -> (r: Result<
    Vec<u8>,
    PayloadError,
>)
    requires
        recover_defined(body@, ecc_mode),
    ensures
        r matches Ok(v) ==> decode_body_spec(params_encrypt, key@, ecc_mode, body@) == Ok::<
            Seq<u8>,
            PayloadError,
        >(v@),
        r matches Err(e) ==> decode_body_spec(params_encrypt, key@, ecc_mode, body@) == Err::<
            Seq<u8>,
            PayloadError,
        >(e),
        forall|m: Seq<u8>|
            #![trigger build_body_spec(params_encrypt, key@, ecc_mode, m)]
            build_body_spec(params_encrypt, key@, ecc_mode, m) == Ok::<Seq<u8>, PayloadError>(
                body@,
            ) && body_fits(params_encrypt, ecc_mode, m.len()) ==> r is Ok && r.unwrap()@ == m,
{
    match decode_body_checked(params_encrypt, key, ecc_mode, body) {
        Some(res) => res,
        None => {
            proof {
                assert(false);
            }
            Err(PayloadError::RsDecode)
        },
    }
}

/// `decode_body`, defined on every input: `None` exactly where error
/// correction would hand the decoder a block of 256 bytes or more.
pub fn decode_body_checked(params_encrypt: bool, key: &[u8], ecc_mode: EccMode, body: &[u8]) -> (r:
    Option<Result<Vec<u8>, PayloadError>>)
    ensures
        r is None <==> !recover_defined(body@, ecc_mode),
        r matches Some(Ok(v)) ==> decode_body_spec(params_encrypt, key@, ecc_mode, body@) == Ok::<
            Seq<u8>,
            PayloadError,
        >(v@),
        r matches Some(Err(e)) ==> decode_body_spec(params_encrypt, key@, ecc_mode, body@)
            == Err::<Seq<u8>, PayloadError>(e),
        forall|m: Seq<u8>|
            #![trigger build_body_spec(params_encrypt, key@, ecc_mode, m)]
            build_body_spec(params_encrypt, key@, ecc_mode, m) == Ok::<Seq<u8>, PayloadError>(
                body@,
            ) && body_fits(params_encrypt, ecc_mode, m.len()) ==> r is Some && r.unwrap() is Ok
                && r.unwrap().unwrap()@ == m,
{
    let recovered = match recover_checked(body, ecc_mode) {
        None => {
            return None;
        },
        Some(Err(e)) => {
            proof {
                assert forall|m: Seq<u8>|
                    #![trigger build_body_spec(params_encrypt, key@, ecc_mode, m)]
                    !(build_body_spec(params_encrypt, key@, ecc_mode, m) == Ok::<
                        Seq<u8>,
                        PayloadError,
                    >(body@) && body_fits(params_encrypt, ecc_mode, m.len())) by {
                    if build_body_spec(params_encrypt, key@, ecc_mode, m) == Ok::<
                        Seq<u8>,
                        PayloadError,
                    >(body@) && body_fits(params_encrypt, ecc_mode, m.len()) {
                        let plain = body_plain_spec(params_encrypt, key@, m)->Ok_0;
                        assert(protect_spec(plain, ecc_mode) == Ok::<Seq<u8>, PayloadError>(body@));
                        assert(protectable(plain, ecc_mode));
                    }
                }
            }
            return Some(Err(e));
        },
        Some(Ok(v)) => v,
    };
    proof {
        assert forall|m: Seq<u8>|
            #![trigger build_body_spec(params_encrypt, key@, ecc_mode, m)]
            build_body_spec(params_encrypt, key@, ecc_mode, m) == Ok::<Seq<u8>, PayloadError>(
                body@,
            ) && body_fits(params_encrypt, ecc_mode, m.len()) implies recovered@
            == body_plain_spec(params_encrypt, key@, m)->Ok_0 by {
            let plain = body_plain_spec(params_encrypt, key@, m)->Ok_0;
            assert(protect_spec(plain, ecc_mode) == Ok::<Seq<u8>, PayloadError>(body@));
            assert(protectable(plain, ecc_mode));
        }
    }
    if params_encrypt {
        Some(decrypt(key, recovered.as_slice()))
    } else {
        Some(Ok(recovered))
    }
}

/// The bits of a header, as they are embedded.
pub fn header_bits(header: &CapsuleHeader) -> (r: Vec<bool>)
    ensures
        r@ == bytes_bits_spec(header_bytes_spec(*header)),
        r@.len() == HEADER_BYTES * 8,
{
    let bytes = header.to_bytes();
    proof {
        lemma_bit_capacity();
    }
    bytes_to_bools(bytes.as_slice())
}

/// The bits of a body, as they are embedded.
pub fn body_bits(body: &[u8]) -> (r: Vec<bool>)
    requires
        body@.len() * 8 <= usize::MAX >> 3,
    ensures
        r@ == bytes_bits_spec(body@),
{
    bytes_to_bools(body)
}

/// Reads a header back from demodulated bits: the first `HEADER_BYTES * 8`
/// bits packed into bytes and parsed; `None` when they do not form a header.
pub fn header_from_bits(bits: &Vec<bool>) -> (r: Option<CapsuleHeader>)
    requires
        bits@.len() <= usize::MAX >> 3,
    ensures
        r == (match header_parse_spec(
            bits_bytes_spec(bits@.take(if bits@.len() < HEADER_BYTES * 8 {
                bits@.len() as int
            } else {
                HEADER_BYTES * 8
            })),
        ) {
            Ok(h) => Some(h),
            Err(_) => None,
        }),
{
    let n = if bits.len() < HEADER_BYTES * 8 {
        bits.len()
    } else {
        HEADER_BYTES * 8
    };
    let head = slice_subrange(bits.as_slice(), 0, n);
    assert(head@ =~= bits@.take(n as int));
    let bytes = bools_to_bytes(head);
    match CapsuleHeader::from_bytes(bytes.as_slice()) {
        Ok(h) => Some(h),
        Err(_) => None,
    }
}

/// A well-formed header read back from its own embedded bits is itself.
pub proof fn lemma_header_bits_roundtrip(h: CapsuleHeader)
    requires
        header_wf(h),
    ensures
        ({
            let bits = bytes_bits_spec(header_bytes_spec(h));
            header_parse_spec(bits_bytes_spec(bits.take(HEADER_BYTES * 8))) == Ok::<
                CapsuleHeader,
                Seq<char>,
            >(h)
        }),
{
    lemma_auto_spec_u32_to_from_le_bytes();
    let bytes = header_bytes_spec(h);
    assert(bytes.len() == 48);
    let bits = bytes_bits_spec(bytes);
    assert(bits.take(HEADER_BYTES * 8) =~= bits);
    lemma_bytes_bits_roundtrip(bytes);
    lemma_header_bytes_roundtrip(h);
}

} // verus!
