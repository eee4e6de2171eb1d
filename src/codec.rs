//! Big-endian integer encodings and UTF-8 text encodings.
use core::str::Utf8Error;
use vstd::prelude::*;
use vstd::utf8::{decode_utf8, encode_utf8, encode_utf8_decode_utf8, encode_utf8_valid_utf8, valid_utf8};

verus! {

/// The 8 bytes of `n`, most significant first.
pub open spec fn u64_be(n: u64) -> Seq<u8> {
    seq![
        (n >> 56u64) as u8,
        (n >> 48u64) as u8,
        (n >> 40u64) as u8,
        (n >> 32u64) as u8,
        (n >> 24u64) as u8,
        (n >> 16u64) as u8,
        (n >> 8u64) as u8,
        n as u8,
    ]
}

/// The value of 8 bytes read most significant first.
pub open spec fn u64_of_be(s: Seq<u8>) -> u64
    recommends
        s.len() == 8,
{
    (s[0] as u64) << 56u64 | (s[1] as u64) << 48u64 | (s[2] as u64) << 40u64 | (s[3] as u64)
        << 32u64 | (s[4] as u64) << 24u64 | (s[5] as u64) << 16u64 | (s[6] as u64) << 8u64
        | (s[7] as u64)
}

/// The 4 bytes of `n`, most significant first.
pub open spec fn u32_be(n: u32) -> Seq<u8> {
    seq![(n >> 24u32) as u8, (n >> 16u32) as u8, (n >> 8u32) as u8, n as u8]
}

/// The value of 4 bytes read most significant first.
pub open spec fn u32_of_be(s: Seq<u8>) -> u32
    recommends
        s.len() == 4,
{
    (s[0] as u32) << 24u32 | (s[1] as u32) << 16u32 | (s[2] as u32) << 8u32 | (s[3] as u32)
}

/// The 4 bytes of the two's complement form of `n`, most significant first.
pub open spec fn i32_be(n: i32) -> Seq<u8> {
    u32_be(#[verifier::truncate] (n as u32))
}

/// The signed value whose two's complement form is `s`, most significant first.
pub open spec fn i32_of_be(s: Seq<u8>) -> i32
    recommends
        s.len() == 4,
{
    #[verifier::truncate] (u32_of_be(s) as i32)
}

/// A slice handed to a fixed-width decoder does not have the width's length.
#[derive(Debug, Clone, Copy, PartialEq, Eq, Structural)]
pub struct LengthMismatch {
    pub expected: usize,
    pub found: usize,
}

/// Encodes `t` as 8 big-endian bytes.
pub fn usize_to_bytes(t: usize) -> (r: [u8; 8])
    ensures
        r@ == u64_be(t as u64),
{
    let n = t as u64;
    let r = [
        (n >> 56u64) as u8,
        (n >> 48u64) as u8,
        (n >> 40u64) as u8,
        (n >> 32u64) as u8,
        (n >> 24u64) as u8,
        (n >> 16u64) as u8,
        (n >> 8u64) as u8,
        n as u8,
    ];
    assert(r@ =~= u64_be(n));
    r
}

/// Decodes 8 big-endian bytes; any other length is refused.
pub fn usize_from_bytes(b: &[u8]) -> (r: Result<usize, LengthMismatch>)
    ensures
        b@.len() == 8 ==> r == Ok::<usize, LengthMismatch>(u64_of_be(b@) as usize),
        b@.len() != 8 ==> r == Err::<usize, LengthMismatch>(
            LengthMismatch { expected: 8, found: b@.len() as usize },
        ),
{
    if b.len() != 8 {
        return Err(LengthMismatch { expected: 8, found: b.len() });
    }
    let n: u64 = (b[0] as u64) << 56u64 | (b[1] as u64) << 48u64 | (b[2] as u64) << 40u64 | (
    b[3] as u64) << 32u64 | (b[4] as u64) << 24u64 | (b[5] as u64) << 16u64 | (b[6] as u64)
        << 8u64 | (b[7] as u64);
    Ok(n as usize)
}

/// Encodes `t` as the 4 big-endian bytes of its two's complement form.
pub fn i32_to_bytes(t: i32) -> (r: [u8; 4])
    ensures
        r@ == i32_be(t),
{
    let n = t as u32;
    let r = [(n >> 24u32) as u8, (n >> 16u32) as u8, (n >> 8u32) as u8, n as u8];
    assert(r@ =~= i32_be(t));
    r
}

/// Decodes 4 big-endian two's complement bytes; any other length is refused.
pub fn i32_from_bytes(b: &[u8]) -> (r: Result<i32, LengthMismatch>)
    ensures
        b@.len() == 4 ==> r == Ok::<i32, LengthMismatch>(i32_of_be(b@)),
        b@.len() != 4 ==> r == Err::<i32, LengthMismatch>(
            LengthMismatch { expected: 4, found: b@.len() as usize },
        ),
{
    if b.len() != 4 {
        return Err(LengthMismatch { expected: 4, found: b.len() });
    }
    let n: u32 = (b[0] as u32) << 24u32 | (b[1] as u32) << 16u32 | (b[2] as u32) << 8u32 | (
    b[3] as u32);
    Ok(n as i32)
}

/// Decoding the 8 bytes of `n` gives `n` back.
pub proof fn lemma_u64_round_trip(n: u64)
    ensures
        u64_be(n).len() == 8,
        u64_of_be(u64_be(n)) == n,
{
    assert((((n >> 56u64) as u8) as u64) << 56u64 | (((n >> 48u64) as u8) as u64) << 48u64 | ((
    (n >> 40u64) as u8) as u64) << 40u64 | (((n >> 32u64) as u8) as u64) << 32u64 | (((n
        >> 24u64) as u8) as u64) << 24u64 | (((n >> 16u64) as u8) as u64) << 16u64 | (((n
        >> 8u64) as u8) as u64) << 8u64 | ((n as u8) as u64) == n) by (bit_vector);
}

/// Decoding the 4 bytes of `n` gives `n` back.
pub proof fn lemma_u32_round_trip(n: u32)
    ensures
        u32_be(n).len() == 4,
        u32_of_be(u32_be(n)) == n,
{
    assert((((n >> 24u32) as u8) as u32) << 24u32 | (((n >> 16u32) as u8) as u32) << 16u32 | (((n
        >> 8u32) as u8) as u32) << 8u32 | ((n as u8) as u32) == n) by (bit_vector);
}

/// A size survives encoding and decoding: decoding what `usize_to_bytes`
/// produces for `n` yields `n`.
pub proof fn lemma_usize_codec_round_trip(n: usize)
    ensures
        u64_be(n as u64).len() == 8,
        u64_of_be(u64_be(n as u64)) as usize == n,
{
    lemma_u64_round_trip(n as u64);
}

/// A signed 32-bit integer survives encoding and decoding: decoding what
/// `i32_to_bytes` produces for `n` yields `n`.
pub proof fn lemma_i32_codec_round_trip(n: i32)
    ensures
        i32_be(n).len() == 4,
        i32_of_be(i32_be(n)) == n,
{
    lemma_u32_round_trip(#[verifier::truncate] (n as u32));
    assert(#[verifier::truncate] ((#[verifier::truncate] (n as u32)) as i32) == n) by (bit_vector);
}

/// The error of `core::str::from_utf8`, carried through as it is.
#[verifier::external_type_specification]
#[verifier::external_body]
pub struct ExUtf8Error(Utf8Error);

/// Relies on `core::str::from_utf8`: it succeeds exactly on well-formed UTF-8,
/// and the text it returns holds the given bytes.
#[verifier::external_body]
fn utf8_text(b: &[u8]) -> (r: Result<&str, Utf8Error>)
    ensures
        r is Ok <==> valid_utf8(b@),
        r matches Ok(s) ==> encode_utf8(s@) == b@,
{
    core::str::from_utf8(b)
}

/// The UTF-8 bytes of `s`.
pub fn str_to_bytes(s: &str) -> (r: &[u8])
    ensures
        r@ == encode_utf8(s@),
{
    s.as_bytes()
}

/// Reads `b` as UTF-8 text; bytes that are not well-formed UTF-8 are refused.
pub fn str_from_bytes(b: &[u8]) -> (r: Result<&str, Utf8Error>)
    ensures
        r is Ok <==> valid_utf8(b@),
        r matches Ok(s) ==> s@ == decode_utf8(b@),
{
    let r = utf8_text(b);
    proof {
        if let Ok(s) = r {
            encode_utf8_decode_utf8(s@);
        }
    }
    r
}

/// Text survives encoding and decoding: the bytes that `str_to_bytes`
/// gives for `s` are well-formed UTF-8, and they decode to `s`.
pub proof fn lemma_str_codec_round_trip(s: Seq<char>)
    ensures
        valid_utf8(encode_utf8(s)),
        decode_utf8(encode_utf8(s)) == s,
{
    encode_utf8_valid_utf8(s);
    encode_utf8_decode_utf8(s);
}

} // verus!
