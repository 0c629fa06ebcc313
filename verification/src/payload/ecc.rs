//! Error protection of the payload body: none, a CRC32 trailer, or a
//! length-prefixed, CRC-checked body cut into Reed-Solomon blocks.

use crate::cli::EccMode;
use crate::outside::{
    crc32, crc32_spec, rs_codeword, rs_correct, rs_correct_spec, rs_encode, rs_parity_spec,
};
use crate::payload::error::PayloadError;
use vstd::bytes::{
    lemma_auto_spec_u16_to_from_le_bytes, lemma_auto_spec_u32_to_from_le_bytes,
    spec_u16_from_le_bytes, spec_u16_to_le_bytes, spec_u32_from_le_bytes, spec_u32_to_le_bytes,
    u16_from_le_bytes, u16_to_le_bytes, u32_from_le_bytes, u32_to_le_bytes,
};
use vstd::prelude::*;
use vstd::slice::slice_subrange;

verus! {

/// `data` followed by the little-endian CRC32 of `data`.
pub open spec fn crc_append(d: Seq<u8>) -> Seq<u8> {
    d + spec_u32_to_le_bytes(crc32_spec(d))
}

/// The Reed-Solomon stream before blocking: a little-endian `u16` length
/// (the length modulo 2^16, as the cast gives it) and the CRC-trailed body.
pub open spec fn rs_frame_body(d: Seq<u8>) -> Seq<u8> {
    let body = crc_append(d);
    spec_u16_to_le_bytes((body.len() % 65536) as u16) + body
}

/// The data bytes that one Reed-Solomon block carries.
pub open spec fn rs_block_data(p: u8) -> nat {
    (255 - p) as nat
}

/// The stream cut into blocks of at most `255 - p` bytes; each block is
/// stored as its length byte followed by its codeword.
pub open spec fn rs_chunks(framed: Seq<u8>, p: u8) -> Seq<u8>
    decreases framed.len(),
{
    if framed.len() == 0 || p >= 255 {
        Seq::empty()
    } else {
        let k = if framed.len() < rs_block_data(p) {
            framed.len()
        } else {
            rs_block_data(p)
        };
        seq![k as u8] + rs_codeword(p, framed.take(k as int)) + rs_chunks(
            framed.skip(k as int),
            p,
        )
    }
}

/// What `protect` produces.
pub open spec fn protect_spec(d: Seq<u8>, mode: EccMode) -> Result<Seq<u8>, PayloadError> {
    match mode {
        EccMode::NoEcc => Ok(d),
        EccMode::Crc => Ok(crc_append(d)),
        EccMode::ReedSolomon { parity } => if parity == 255 {
            Err(PayloadError::RsParityTooLarge)
        } else {
            Ok(rs_chunks(rs_frame_body(d), parity))
        },
    }
}

/// The Reed-Solomon blocks of `data` decoded and concatenated (each block
/// contributes its first `length byte` corrected bytes), or the first failure.
pub open spec fn rs_unframe(data: Seq<u8>, p: u8) -> Result<Seq<u8>, PayloadError>
    decreases data.len(),
{
    if data.len() == 0 {
        Ok(Seq::empty())
    } else {
        let c = data[0] as int;
        let bl = c + p;
        if 1 + bl > data.len() {
            Err(PayloadError::RsTruncated)
        } else {
            match rs_correct_spec(p, data.subrange(1, 1 + bl)) {
                None => Err(PayloadError::RsDecode),
                Some(cb) => match rs_unframe(data.subrange(1 + bl, data.len() as int), p) {
                    Ok(rest) => Ok(cb.take(c) + rest),
                    Err(e) => Err(e),
                },
            }
        }
    }
}

/// The decoder is only handed blocks shorter than 256 bytes: every block
/// that decoding reaches (all earlier blocks decoded) is that short.
pub open spec fn rs_walk_safe(data: Seq<u8>, p: u8) -> bool
    decreases data.len(),
{
    if data.len() == 0 {
        true
    } else {
        let c = data[0] as int;
        let bl = c + p;
        if 1 + bl > data.len() {
            true
        } else {
            bl < 256 && (rs_correct_spec(p, data.subrange(1, 1 + bl)) is None || rs_walk_safe(
                data.subrange(1 + bl, data.len() as int),
                p,
            ))
        }
    }
}

/// The length-prefixed, CRC-checked message inside the decoded stream.
pub open spec fn rs_unpack_spec(framed: Seq<u8>) -> Result<Seq<u8>, PayloadError> {
    if framed.len() < 2 {
        Err(PayloadError::RsFramedTooShort)
    } else {
        let n = spec_u16_from_le_bytes(framed.take(2)) as int;
        if framed.len() < 2 + n {
            Err(PayloadError::RsLengthExceeds)
        } else if n < 4 {
            Err(PayloadError::RsBodyTooShort)
        } else {
            let msg = framed.subrange(2, 2 + n - 4);
            if spec_u32_from_le_bytes(framed.subrange(2 + n - 4, 2 + n)) != crc32_spec(msg) {
                Err(PayloadError::RsCrcMismatch)
            } else {
                Ok(msg)
            }
        }
    }
}

/// What `recover` gives.
pub open spec fn recover_spec(data: Seq<u8>, mode: EccMode) -> Result<Seq<u8>, PayloadError> {
    match mode {
        EccMode::NoEcc => Ok(data),
        EccMode::Crc => if data.len() < 4 {
            Err(PayloadError::CrcTooShort)
        } else {
            let body = data.take(data.len() - 4);
            let expected = spec_u32_from_le_bytes(data.skip(data.len() - 4));
            let got = crc32_spec(body);
            if expected != got {
                Err(PayloadError::CrcMismatch { expected, got })
            } else {
                Ok(body)
            }
        },
        EccMode::ReedSolomon { parity } => match rs_unframe(data, parity) {
            Err(e) => Err(e),
            Ok(framed) => rs_unpack_spec(framed),
        },
    }
}

/// `recover` is defined on `data`: under Reed-Solomon the decoder is never
/// handed a block of 256 bytes or more.
pub open spec fn recover_defined(data: Seq<u8>, mode: EccMode) -> bool {
    match mode {
        EccMode::ReedSolomon { parity } => rs_walk_safe(data, parity),
        _ => true,
    }
}

/// The payloads that `protect` can frame so that `recover` gives them back:
/// under Reed-Solomon the CRC-trailed body must fit the 16-bit length prefix.
pub open spec fn protectable(d: Seq<u8>, mode: EccMode) -> bool {
    match mode {
        EccMode::ReedSolomon { parity } => parity < 255 && d.len() + 4 <= 65535,
        _ => true,
    }
}

pub fn append_slice(out: &mut Vec<u8>, s: &[u8])
    ensures
        final(out)@ == old(out)@ + s@,
{
    let mut i: usize = 0;
    while i < s.len()
        invariant
            i <= s@.len(),
            out@ == old(out)@ + s@.subrange(0, i as int),
        decreases s@.len() - i,
    {
        out.push(s[i]);
        i = i + 1;
        assert(out@ =~= old(out)@ + s@.subrange(0, i as int));
    }
    assert(s@.subrange(0, i as int) =~= s@);
}

fn copy_slice(s: &[u8]) -> (r: Vec<u8>)
    ensures
        r@ == s@,
{
    let mut out: Vec<u8> = Vec::new();
    append_slice(&mut out, s);
    assert(out@ =~= s@);
    out
}

fn rs_blocks(framed: &Vec<u8>, parity: u8) -> (r: Vec<u8>)
    requires
        parity < 255,
    ensures
        r@ == rs_chunks(framed@, parity),
{
    let max_data: usize = 255 - parity as usize;
    let n = framed.len();
    let mut out: Vec<u8> = Vec::new();
    let mut pos: usize = 0;
    assert(framed@.subrange(0, n as int) =~= framed@);
    assert(out@ + rs_chunks(framed@, parity) =~= rs_chunks(framed@, parity));
    while pos < n
        invariant
            n == framed@.len(),
            parity < 255,
            max_data == rs_block_data(parity),
            pos <= n,
            out@ + rs_chunks(framed@.subrange(pos as int, n as int), parity) == rs_chunks(
                framed@,
                parity,
            ),
        decreases n - pos,
    {
        let end = if n - pos < max_data {
            n
        } else {
            pos + max_data
        };
        let chunk = slice_subrange(framed.as_slice(), pos, end);
        let encoded = rs_encode(parity, chunk);
        proof {
            assert(encoded@ =~= rs_codeword(parity, chunk@));
        }
        let ghost old_out = out@;
        out.push((end - pos) as u8);
        append_slice(&mut out, encoded.as_slice());
        proof {
            let rest = framed@.subrange(pos as int, n as int);
            assert(rest.take((end - pos) as int) =~= chunk@);
            assert(rest.skip((end - pos) as int) =~= framed@.subrange(end as int, n as int));
            assert(rs_chunks(rest, parity) == seq![(end - pos) as u8] + rs_codeword(
                parity,
                chunk@,
            ) + rs_chunks(framed@.subrange(end as int, n as int), parity));
            assert(out@ =~= old_out + seq![(end - pos) as u8] + encoded@);
            assert(out@ + rs_chunks(framed@.subrange(end as int, n as int), parity) =~= old_out
                + rs_chunks(rest, parity));
        }
        pos = end;
    }
    assert(framed@.subrange(n as int, n as int) =~= Seq::<u8>::empty());
    assert(out@ + Seq::<u8>::empty() =~= out@);
    out
}

/// Protects `data` under `mode`.
pub fn protect(data: &[u8], mode: EccMode) -> (r: Result<Vec<u8>, PayloadError>)
    requires
        data@.len() + 6 <= usize::MAX,
    ensures
        r matches Ok(v) ==> protect_spec(data@, mode) == Ok::<Seq<u8>, PayloadError>(v@),
        r matches Err(e) ==> protect_spec(data@, mode) == Err::<Seq<u8>, PayloadError>(e),
        r matches Ok(v) ==> recover_defined(v@, mode),
{
    proof {
        if protect_spec(data@, mode) is Ok {
            lemma_protected_recover_defined(data@, mode);
        }
    }
    match mode {
        EccMode::NoEcc => Ok(copy_slice(data)),
        EccMode::Crc => {
            let mut out = copy_slice(data);
            let crc = crc32(data);
            let crc_bytes = u32_to_le_bytes(crc);
            append_slice(&mut out, crc_bytes.as_slice());
            Ok(out)
        },
        EccMode::ReedSolomon { parity } => {
            let mut body = copy_slice(data);
            let crc = crc32(data);
            let crc_bytes = u32_to_le_bytes(crc);
            append_slice(&mut body, crc_bytes.as_slice());
            if parity == 255 {
                return Err(PayloadError::RsParityTooLarge);
            }
            let len_bytes = u16_to_le_bytes((body.len() % 65536) as u16);
            let mut framed: Vec<u8> = Vec::new();
            append_slice(&mut framed, len_bytes.as_slice());
            append_slice(&mut framed, body.as_slice());
            assert(framed@ =~= rs_frame_body(data@));
            Ok(rs_blocks(&framed, parity))
        },
    }
}

/// Walks the Reed-Solomon blocks of `data`: the decoded stream, the first
/// failure, or `None` where a block of 256 bytes or more would reach the
/// decoder.  When `data` is what `protect` made of some message, the walk
/// gives back the framed stream of that message.
fn rs_walk(data: &[u8], parity: u8, Ghost(src): Ghost<Option<Seq<u8>>>) -> (r: Option<
    Result<Vec<u8>, PayloadError>,
>)
    requires
        src matches Some(d) ==> parity < 255 && data@ == rs_chunks(d, parity),
    ensures
        r is None <==> !rs_walk_safe(data@, parity),
        r matches Some(Ok(v)) ==> rs_unframe(data@, parity) == Ok::<Seq<u8>, PayloadError>(v@),
        r matches Some(Err(e)) ==> rs_unframe(data@, parity) == Err::<Seq<u8>, PayloadError>(e),
        src matches Some(d) ==> (r matches Some(Ok(v)) && v@ == d),
{
    let n = data.len();
    let mut framed: Vec<u8> = Vec::new();
    let mut i: usize = 0;
    let ghost mut fpos: int = 0;
    proof {
        assert(data@.subrange(0, n as int) =~= data@);
        assert forall|x: Seq<u8>| framed@ + x =~= x by {}
        if let Some(d) = src {
            assert(d.take(0) =~= framed@);
            assert(d.skip(0) =~= d);
        }
    }
    while i < n
        invariant
            n == data@.len(),
            i <= n,
            rs_unframe(data@, parity) == (match rs_unframe(
                data@.subrange(i as int, n as int),
                parity,
            ) {
                Ok(rest) => Ok(framed@ + rest),
                Err(e) => Err(e),
            }),
            rs_walk_safe(data@, parity) == rs_walk_safe(data@.subrange(i as int, n as int), parity),
            src matches Some(d) ==> {
                &&& parity < 255
                &&& 0 <= fpos <= d.len()
                &&& framed@ == d.take(fpos)
                &&& data@.subrange(i as int, n as int) == rs_chunks(d.skip(fpos), parity)
            },
        decreases n - i,
    {
        let ghost rest = data@.subrange(i as int, n as int);
        let chunk_len = data[i] as usize;
        let block_len = chunk_len + parity as usize;
        if block_len >= n - i {
            proof {
                assert(rest[0] == data@[i as int]);
                assert(1 + block_len > rest.len());
                if let Some(d) = src {
                    lemma_rs_chunks_head(d.skip(fpos), parity);
                }
            }
            return Some(Err(PayloadError::RsTruncated));
        }
        let start = i + 1;
        let stop = start + block_len;
        proof {
            assert(rest[0] == data@[i as int]);
            assert(rest.subrange(1, 1 + block_len) =~= data@.subrange(start as int, stop as int));
            assert(rest.subrange(1 + block_len, rest.len() as int) =~= data@.subrange(
                stop as int,
                n as int,
            ));
            if let Some(d) = src {
                lemma_rs_chunks_head(d.skip(fpos), parity);
            }
        }
        if block_len >= 256 {
            return None;
        }
        let block = slice_subrange(data, start, stop);
        match rs_correct(parity, block) {
            Err(_) => {
                return Some(Err(PayloadError::RsDecode));
            },
            Ok(corrected) => {
                let head = slice_subrange(corrected.as_slice(), 0, chunk_len);
                let ghost old_framed = framed@;
                append_slice(&mut framed, head);
                proof {
                    assert(head@ =~= corrected@.take(chunk_len as int));
                    let next = data@.subrange(stop as int, n as int);
                    assert(rs_unframe(rest, parity) == (match rs_unframe(next, parity) {
                        Ok(r) => Ok(head@ + r),
                        Err(e) => Err(e),
                    }));
                    assert forall|x: Seq<u8>| (old_framed + head@) + x =~= old_framed + (head@
                        + x) by {}
                    assert(rs_walk_safe(rest, parity) == rs_walk_safe(next, parity));
                    if let Some(d) = src {
                        let tail = d.skip(fpos);
                        let k = chunk_len as int;
                        assert(block@ == rs_codeword(parity, tail.take(k)));
                        assert(corrected@ == block@);
                        assert(head@ =~= tail.take(k));
                        assert(framed@ =~= d.take(fpos + k));
                        assert(tail.skip(k) =~= d.skip(fpos + k));
                        fpos = fpos + k;
                    }
                }
                i = stop;
            },
        }
    }
    proof {
        assert(data@.subrange(n as int, n as int) =~= Seq::<u8>::empty());
        assert(framed@ + Seq::<u8>::empty() =~= framed@);
        if let Some(d) = src {
            lemma_rs_chunks_empty(d.skip(fpos), parity);
            assert(d.take(fpos) =~= d);
        }
    }
    Some(Ok(framed))
}

/// Facts about the first block of a blocked stream.
proof fn lemma_rs_chunks_head(f: Seq<u8>, p: u8)
    requires
        p < 255,
        f.len() > 0,
    ensures
        ({
            let k = if f.len() < rs_block_data(p) {
                f.len()
            } else {
                rs_block_data(p)
            };
            let c = rs_chunks(f, p);
            &&& 1 <= k
            &&& k + p <= 255
            &&& c[0] == k as u8
            &&& c.len() == 1 + k + p + rs_chunks(f.skip(k as int), p).len()
            &&& c.subrange(1, 1 + k + p) == rs_codeword(p, f.take(k as int))
            &&& c.subrange(1 + k + p, c.len() as int) == rs_chunks(f.skip(k as int), p)
        }),
{
    let k = if f.len() < rs_block_data(p) {
        f.len()
    } else {
        rs_block_data(p)
    };
    let enc = rs_codeword(p, f.take(k as int));
    let rest = rs_chunks(f.skip(k as int), p);
    let c = rs_chunks(f, p);
    assert(c == seq![k as u8] + enc + rest);
    assert(enc.len() == k + p);
    assert(c.subrange(1, 1 + k + p) =~= enc);
    assert(c.subrange(1 + k + p, c.len() as int) =~= rest);
}

proof fn lemma_rs_chunks_empty(f: Seq<u8>, p: u8)
    requires
        p < 255,
        rs_chunks(f, p).len() == 0,
    ensures
        f.len() == 0,
{
    if f.len() > 0 {
        lemma_rs_chunks_head(f, p);
    }
}

proof fn lemma_rs_chunks_walk_safe(f: Seq<u8>, p: u8)
    requires
        p < 255,
    ensures
        rs_walk_safe(rs_chunks(f, p), p),
    decreases f.len(),
{
    if f.len() > 0 {
        lemma_rs_chunks_head(f, p);
        let k = if f.len() < rs_block_data(p) {
            f.len()
        } else {
            rs_block_data(p)
        };
        lemma_rs_chunks_walk_safe(f.skip(k as int), p);
    }
}

/// What `protect` produces can always be handed to `recover`: its
/// Reed-Solomon blocks are all shorter than 256 bytes.
pub proof fn lemma_protected_recover_defined(d: Seq<u8>, mode: EccMode)
    requires
        protect_spec(d, mode) is Ok,
    ensures
        recover_defined(protect_spec(d, mode)->Ok_0, mode),
{
    if let EccMode::ReedSolomon { parity } = mode {
        lemma_rs_chunks_walk_safe(rs_frame_body(d), parity);
    }
}

/// Recovers the message that `protect` framed under `mode`.
pub fn recover(data: &[u8], mode: EccMode) -> (r: Result<Vec<u8>, PayloadError>)
    requires
        recover_defined(data@, mode),
    ensures
        r matches Ok(v) ==> recover_spec(data@, mode) == Ok::<Seq<u8>, PayloadError>(v@),
        r matches Err(e) ==> recover_spec(data@, mode) == Err::<Seq<u8>, PayloadError>(e),
        forall|d: Seq<u8>|
            #![trigger protect_spec(d, mode)]
            protect_spec(d, mode) == Ok::<Seq<u8>, PayloadError>(data@) && protectable(d, mode)
                ==> r is Ok && r.unwrap()@ == d,
{
    match recover_checked(data, mode) {
        Some(res) => res,
        None => {
            proof {
                assert(false);
            }
            Err(PayloadError::RsDecode)
        },
    }
}

/// `recover`, defined on every input: `None` exactly where `recover` is not
/// defined (a Reed-Solomon block of 256 bytes or more would reach the decoder).
pub fn recover_checked(data: &[u8], mode: EccMode) -> (r: Option<Result<Vec<u8>, PayloadError>>)
    ensures
        r is None <==> !recover_defined(data@, mode),
        r matches Some(Ok(v)) ==> recover_spec(data@, mode) == Ok::<Seq<u8>, PayloadError>(v@),
        r matches Some(Err(e)) ==> recover_spec(data@, mode) == Err::<Seq<u8>, PayloadError>(e),
        forall|d: Seq<u8>|
            #![trigger protect_spec(d, mode)]
            protect_spec(d, mode) == Ok::<Seq<u8>, PayloadError>(data@) && protectable(d, mode)
                ==> r is Some && r.unwrap() is Ok && r.unwrap().unwrap()@ == d,
{
    proof {
        lemma_auto_spec_u32_to_from_le_bytes();
        lemma_auto_spec_u16_to_from_le_bytes();
    }
    match mode {
        EccMode::NoEcc => Some(Ok(copy_slice(data))),
        EccMode::Crc => {
            if data.len() < 4 {
                return Some(Err(PayloadError::CrcTooShort));
            }
            let split = data.len() - 4;
            let body = slice_subrange(data, 0, split);
            let crc_bytes = slice_subrange(data, split, data.len());
            let expected = u32_from_le_bytes(crc_bytes);
            let got = crc32(body);
            proof {
                assert(body@ =~= data@.take(data@.len() - 4));
                assert(crc_bytes@ =~= data@.skip(data@.len() - 4));
                assert forall|d: Seq<u8>|
                    #![trigger protect_spec(d, mode)]
                    protect_spec(d, mode) == Ok::<Seq<u8>, PayloadError>(data@) implies body@
                    == d && expected == got by {
                    assert(data@ == crc_append(d));
                    assert(body@ =~= d);
                    assert(crc_bytes@ =~= spec_u32_to_le_bytes(crc32_spec(d)));
                }
            }
            if expected != got {
                return Some(Err(PayloadError::CrcMismatch { expected, got }));
            }
            Some(Ok(copy_slice(body)))
        },
        EccMode::ReedSolomon { parity } => {
            let ghost src: Option<Seq<u8>> = if exists|d: Seq<u8>|
                protect_spec(d, mode) == Ok::<Seq<u8>, PayloadError>(data@) && protectable(
                    d,
                    mode,
                ) {
                Some(
                    rs_frame_body(
                        choose|d: Seq<u8>|
                            protect_spec(d, mode) == Ok::<Seq<u8>, PayloadError>(data@)
                                && protectable(d, mode),
                    ),
                )
            } else {
                None
            };
            let framed = match rs_walk(data, parity, Ghost(src)) {
                None => {
                    return None;
                },
                Some(Err(e)) => {
                    return Some(Err(e));
                },
                Some(Ok(f)) => f,
            };
            let res = rs_unpack(&framed);
            proof {
                assert forall|d: Seq<u8>|
                    #![trigger protect_spec(d, mode)]
                    protect_spec(d, mode) == Ok::<Seq<u8>, PayloadError>(data@) && protectable(
                        d,
                        mode,
                    ) implies res is Ok && res.unwrap()@ == d by {
                    let d0 = choose|d: Seq<u8>|
                        protect_spec(d, mode) == Ok::<Seq<u8>, PayloadError>(data@) && protectable(
                            d,
                            mode,
                        );
                    lemma_rs_chunks_injective(rs_frame_body(d), rs_frame_body(d0), parity);
                    lemma_rs_frame_body_injective(d, d0);
                    lemma_rs_unpack_frame_body(d);
                }
            }
            Some(res)
        },
    }
}

fn rs_unpack(framed: &Vec<u8>) -> (r: Result<Vec<u8>, PayloadError>)
    ensures
        r matches Ok(v) ==> rs_unpack_spec(framed@) == Ok::<Seq<u8>, PayloadError>(v@),
        r matches Err(e) ==> rs_unpack_spec(framed@) == Err::<Seq<u8>, PayloadError>(e),
{
    if framed.len() < 2 {
        return Err(PayloadError::RsFramedTooShort);
    }
    let len_bytes = slice_subrange(framed.as_slice(), 0, 2);
    let msg_len = u16_from_le_bytes(len_bytes) as usize;
    assert(len_bytes@ =~= framed@.take(2));
    if framed.len() - 2 < msg_len {
        return Err(PayloadError::RsLengthExceeds);
    }
    if msg_len < 4 {
        return Err(PayloadError::RsBodyTooShort);
    }
    let msg = slice_subrange(framed.as_slice(), 2, 2 + msg_len - 4);
    let crc_bytes = slice_subrange(framed.as_slice(), 2 + msg_len - 4, 2 + msg_len);
    let expected = u32_from_le_bytes(crc_bytes);
    let got = crc32(msg);
    if expected != got {
        return Err(PayloadError::RsCrcMismatch);
    }
    Ok(copy_slice(msg))
}

proof fn lemma_rs_unpack_frame_body(d: Seq<u8>)
    requires
        d.len() + 4 <= 65535,
    ensures
        rs_unpack_spec(rs_frame_body(d)) == Ok::<Seq<u8>, PayloadError>(d),
{
    lemma_auto_spec_u32_to_from_le_bytes();
    lemma_auto_spec_u16_to_from_le_bytes();
    let body = crc_append(d);
    let f = rs_frame_body(d);
    let len16 = (body.len() % 65536) as u16;
    assert(f.take(2) =~= spec_u16_to_le_bytes(len16));
    assert(f.subrange(2, 2 + body.len() - 4) =~= d);
    assert(f.subrange(2 + body.len() - 4, (2 + body.len()) as int) =~= spec_u32_to_le_bytes(
        crc32_spec(d),
    ));
}

proof fn lemma_rs_frame_body_injective(a: Seq<u8>, b: Seq<u8>)
    requires
        rs_frame_body(a) == rs_frame_body(b),
    ensures
        a == b,
{
    lemma_auto_spec_u32_to_from_le_bytes();
    lemma_auto_spec_u16_to_from_le_bytes();
    let fa = rs_frame_body(a);
    let fb = rs_frame_body(b);
    assert(fa.len() == a.len() + 6);
    assert(fb.len() == b.len() + 6);
    assert forall|i: int| 0 <= i < a.len() implies a[i] == b[i] by {
        assert(fa[i + 2] == a[i]);
        assert(fb[i + 2] == b[i]);
    }
    assert(a =~= b);
}

/// Blocking is injective when every codeword keeps its data bytes in front.
proof fn lemma_rs_chunks_injective(f: Seq<u8>, g: Seq<u8>, p: u8)
    requires
        p < 255,
        rs_chunks(f, p) == rs_chunks(g, p),
    ensures
        f == g,
    decreases f.len(),
{
    if f.len() == 0 || g.len() == 0 {
        if f.len() > 0 {
            lemma_rs_chunks_head(f, p);
        }
        if g.len() > 0 {
            lemma_rs_chunks_head(g, p);
        }
        assert(f =~= g);
    } else {
        lemma_rs_chunks_head(f, p);
        lemma_rs_chunks_head(g, p);
        let c = rs_chunks(f, p);
        let kf = if f.len() < rs_block_data(p) {
            f.len()
        } else {
            rs_block_data(p)
        };
        let kg = if g.len() < rs_block_data(p) {
            g.len()
        } else {
            rs_block_data(p)
        };
        assert(kf == kg);
        let k = kf;
        assert(rs_codeword(p, f.take(k as int)).subrange(0, k as int) =~= f.take(k as int));
        assert(rs_codeword(p, g.take(k as int)).subrange(0, k as int) =~= g.take(k as int));
        assert(f.take(k as int) =~= g.take(k as int));
        lemma_rs_chunks_injective(f.skip(k as int), g.skip(k as int), p);
        assert(f =~= f.take(k as int) + f.skip(k as int));
        assert(g =~= g.take(k as int) + g.skip(k as int));
    }
}

} // verus!
