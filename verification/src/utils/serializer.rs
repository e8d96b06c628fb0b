use vstd::prelude::*;
use vstd::bytes::{spec_u32_to_le_bytes, spec_u64_to_le_bytes, spec_u64_from_le_bytes};
use vstd::utf8::{encode_utf8, decode_utf8, valid_utf8};

use crypto::digest::Digest;
use crypto::sha3::Sha3;

verus! {

// ---------------------------------------------------------------------
// The byte format: bincode 1.x with its default configuration
// (fixed-width little-endian integers, lengths as u64).
// ---------------------------------------------------------------------

/// Bytes of a `u64` (and of a `usize`, which is written as a `u64`).
pub open spec fn u64_bytes(x: u64) -> Seq<u8> {
    spec_u64_to_le_bytes(x)
}

/// Bytes of an `i32`: its two's complement, little endian.
pub open spec fn i32_bytes(x: i32) -> Seq<u8> {
    spec_u32_to_le_bytes(x as u32)
}

/// Bytes of a string: the length of its UTF-8 form as a `u64`, then that form.
pub open spec fn str_bytes(s: Seq<char>) -> Seq<u8> {
    u64_bytes(encode_utf8(s).len() as u64) + encode_utf8(s)
}

/// A string whose UTF-8 form has a length that a `u64` holds.
pub open spec fn str_fits(s: Seq<char>) -> bool {
    encode_utf8(s).len() <= u64::MAX
}

/// Reads a `u64` at the front of `b`; gives the value and what follows it.
pub open spec fn parse_u64(b: Seq<u8>) -> Option<(u64, Seq<u8>)> {
    if b.len() >= 8 {
        Some((spec_u64_from_le_bytes(b.subrange(0, 8)), b.subrange(8, b.len() as int)))
    } else {
        None
    }
}

/// The length field at the front of a string's bytes.
pub open spec fn str_len_field(b: Seq<u8>) -> int {
    spec_u64_from_le_bytes(b.subrange(0, 8)) as int
}

/// Whether `b` starts with the bytes of a string.
pub open spec fn str_parses(b: Seq<u8>) -> bool {
    &&& b.len() >= 8
    &&& 8 + str_len_field(b) <= b.len()
    &&& valid_utf8(b.subrange(8, 8 + str_len_field(b)))
}

/// Reads a string at the front of `b`; gives the string and what follows it.
pub open spec fn parse_str(b: Seq<u8>) -> Option<(Seq<char>, Seq<u8>)> {
    if str_parses(b) {
        Some(
            (
                decode_utf8(b.subrange(8, 8 + str_len_field(b))),
                b.subrange(8 + str_len_field(b), b.len() as int),
            ),
        )
    } else {
        None
    }
}

/// Reading a `u64` back from its bytes gives it, and what followed.
pub proof fn lemma_parse_u64_bytes(x: u64, rest: Seq<u8>)
    ensures
        parse_u64(u64_bytes(x) + rest) == Some((x, rest)),
{
    vstd::bytes::lemma_auto_spec_u64_to_from_le_bytes();
    let b = u64_bytes(x) + rest;
    assert(b.subrange(0, 8) =~= u64_bytes(x));
    assert(b.subrange(8, b.len() as int) =~= rest);
}

/// Reading a string back from its bytes gives it, and what followed.
pub proof fn lemma_parse_str_bytes(s: Seq<char>, rest: Seq<u8>)
    requires
        str_fits(s),
    ensures
        parse_str(str_bytes(s) + rest) == Some((s, rest)),
{
    vstd::bytes::lemma_auto_spec_u64_to_from_le_bytes();
    vstd::utf8::encode_utf8_valid_utf8(s);
    vstd::utf8::encode_utf8_decode_utf8(s);
    let e = encode_utf8(s);
    let b = str_bytes(s) + rest;
    assert(b.subrange(0, 8) =~= u64_bytes(e.len() as u64));
    assert(str_len_field(b) == e.len());
    assert(b.subrange(8, 8 + str_len_field(b)) =~= e);
    assert(b.subrange(8 + str_len_field(b), b.len() as int) =~= rest);
}

// ---------------------------------------------------------------------
// Hashing: SHA3-256, written as lower-case hexadecimal.
// ---------------------------------------------------------------------

/// The SHA3-256 digest of `data`.
pub uninterp spec fn sha3_256(data: Seq<u8>) -> Seq<u8>;

/// The lower-case hexadecimal digit of `n` (below 16).
pub open spec fn hex_digit(n: u8) -> char {
    if n < 10 {
        ('0' as u8 + n) as char
    } else {
        ('a' as u8 + (n - 10)) as char
    }
}

/// Each byte as two lower-case hexadecimal digits, high half first.
pub open spec fn hex_lower(bytes: Seq<u8>) -> Seq<char>
    decreases bytes.len(),
{
    if bytes.len() == 0 {
        seq![]
    } else {
        hex_lower(bytes.drop_last()) + seq![
            hex_digit(bytes.last() / 16),
            hex_digit(bytes.last() % 16),
        ]
    }
}

/// The hash text of `data`: its SHA3-256 digest in lower-case hexadecimal.
pub open spec fn hash_hex(data: Seq<u8>) -> Seq<char> {
    hex_lower(sha3_256(data))
}

/// Calls `Sha3::sha3_256`, `Digest::input` and `Digest::result_str` of
/// rust-crypto. The contract claims that the text is the digest written by
/// `to_hex` of rustc-serialize (two lower-case hexadecimal digits per byte),
/// so 64 digits for the 32 bytes of a SHA3-256 digest.
#[verifier::external_body]
fn sha3_256_hex_str(data: &[u8]) -> (r: String)
    ensures
        r@ == hex_lower(sha3_256(data@)),
        r@.len() == 64,
{
    let mut hasher = Sha3::sha3_256();
    hasher.input(data);
    hasher.result_str()
}

/// The SHA3-256 digest of `data` in lower-case hexadecimal (64 digits).
pub fn hash_to_str(data: &[u8]) -> (r: String)
    ensures
        r@ == hash_hex(data@),
        r@.len() == 64,
{
    sha3_256_hex_str(data)
}

// ---------------------------------------------------------------------
// Writing and reading the plain values the records are made of.
// ---------------------------------------------------------------------

/// Calls `bincode::serialize` on a `u64`. The contract claims the eight
/// little-endian bytes of the value. With the default configuration (no
/// size limit, fixed-width integers, little endian) writing into a `Vec`
/// does not fail, so the error arm is never taken.
#[verifier::external_body]
fn bincode_u64(x: u64) -> (r: Vec<u8>)
    ensures
        r@ == u64_bytes(x),
{
    match bincode::serialize(&x) {
        Ok(bytes) => bytes,
        Err(_) => Vec::new(),
    }
}

/// Calls `bincode::serialize` on an `i32`. The contract claims the four
/// little-endian bytes of its two's complement; as for `u64`, the
/// serialization of an integer into a `Vec` does not fail.
#[verifier::external_body]
fn bincode_i32(x: i32) -> (r: Vec<u8>)
    ensures
        r@ == i32_bytes(x),
{
    match bincode::serialize(&x) {
        Ok(bytes) => bytes,
        Err(_) => Vec::new(),
    }
}

/// Calls `bincode::serialize` on a `str`. The contract claims the length
/// of its UTF-8 form as a little-endian `u64`, then that form
/// (`serialize_str` writes `v.len()` and `v.as_bytes()`); it does not fail.
#[verifier::external_body]
fn bincode_str(s: &str) -> (r: Vec<u8>)
    ensures
        r@ == str_bytes(s@),
{
    match bincode::serialize(s) {
        Ok(bytes) => bytes,
        Err(_) => Vec::new(),
    }
}

/// Calls `bincode::deserialize::<u64>`. The contract claims that it reads
/// the first eight bytes as a little-endian `u64` and fails exactly when
/// fewer than eight bytes are given (trailing bytes are allowed).
#[verifier::external_body]
fn bincode_decode_u64(bytes: &[u8]) -> (r: Option<u64>)
    ensures
        r is Some <==> bytes@.len() >= 8,
        r matches Some(x) ==> parse_u64(bytes@) == Some((x, bytes@.subrange(8, bytes@.len() as int))),
{
    bincode::deserialize::<u64>(bytes).ok()
}

/// Calls `bincode::deserialize::<String>`. The contract claims that it
/// reads a little-endian `u64` length, then that many bytes, which must be
/// valid UTF-8 (`String::from_utf8`); it fails exactly when the bytes are
/// too few or not valid UTF-8 (trailing bytes are allowed).
#[verifier::external_body]
fn bincode_decode_string(bytes: &[u8]) -> (r: Option<String>)
    ensures
        r is Some <==> str_parses(bytes@),
        r matches Some(s) ==> encode_utf8(s@) == bytes@.subrange(8, 8 + str_len_field(bytes@)),
{
    bincode::deserialize::<String>(bytes).ok()
}

/// The bytes of `x`.
pub fn encode_u64(x: u64) -> (r: Vec<u8>)
    ensures
        r@ == u64_bytes(x),
{
    bincode_u64(x)
}

/// The bytes of `x`.
pub fn encode_i32(x: i32) -> (r: Vec<u8>)
    ensures
        r@ == i32_bytes(x),
{
    bincode_i32(x)
}

/// The bytes of `s`.
pub fn encode_str(s: &str) -> (r: Vec<u8>)
    ensures
        r@ == str_bytes(s@),
{
    bincode_str(s)
}

/// Reads a `u64` at `pos`; gives it and the position after it.
pub fn decode_u64_at(bytes: &[u8], pos: usize) -> (r: Option<(u64, usize)>)
    requires
        pos <= bytes@.len(),
    ensures
        match r {
            Some((x, next)) => {
                &&& next == pos + 8
                &&& parse_u64(bytes@.subrange(pos as int, bytes@.len() as int)) == Some(
                    (x, bytes@.subrange(next as int, bytes@.len() as int)),
                )
            },
            None => parse_u64(bytes@.subrange(pos as int, bytes@.len() as int)) is None,
        },
{
    let rest = vstd::slice::slice_subrange(bytes, pos, bytes.len());
    match bincode_decode_u64(rest) {
        Some(x) => {
            assert(rest@.subrange(8, rest@.len() as int) =~= bytes@.subrange(
                pos + 8,
                bytes@.len() as int,
            ));
            Some((x, pos + 8))
        },
        None => None,
    }
}

/// Reads a string at `pos`; gives it and the position after it.
pub fn decode_str_at(bytes: &[u8], pos: usize) -> (r: Option<(String, usize)>)
    requires
        pos <= bytes@.len(),
    ensures
        match r {
            Some((s, next)) => {
                &&& pos < next <= bytes@.len()
                &&& parse_str(bytes@.subrange(pos as int, bytes@.len() as int)) == Some(
                    (s@, bytes@.subrange(next as int, bytes@.len() as int)),
                )
            },
            None => parse_str(bytes@.subrange(pos as int, bytes@.len() as int)) is None,
        },
{
    let rest = vstd::slice::slice_subrange(bytes, pos, bytes.len());
    match bincode_decode_string(rest) {
        Some(s) => {
            let ghost b = rest@;
            let ghost len = str_len_field(b);
            proof {
                vstd::utf8::decode_utf8_encode_utf8(b.subrange(8, 8 + len));
                vstd::utf8::encode_utf8_decode_utf8(s@);
            }
            let n = s.as_str().len();
            assert(n == len);
            let next = pos + 8 + n;
            assert(b.subrange(8 + len, b.len() as int) =~= bytes@.subrange(
                next as int,
                bytes@.len() as int,
            ));
            Some((s, next))
        },
        None => None,
    }
}

/// A value with a byte encoding.
pub trait Encode {
    /// The bytes of the value.
    spec fn encoding(&self) -> Seq<u8>;

    /// Writes the bytes of the value.
    fn encode(&self) -> (r: Vec<u8>)
        ensures
            r@ == self.encoding(),
    ;
}

/// The bytes of `data`, as bincode writes the same value.
pub fn serialize<T: Encode>(data: &T) -> (r: Vec<u8>)
    ensures
        r@ == data.encoding(),
{
    data.encode()
}

/// Appends `more` to `out`.
pub fn append_bytes(out: &mut Vec<u8>, more: Vec<u8>)
    ensures
        final(out)@ == old(out)@ + more@,
{
    let mut more = more;
    out.append(&mut more);
}

} // verus!
