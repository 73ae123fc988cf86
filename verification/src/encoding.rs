//! How the primitives of the record format are written, and that reading
//! what was written gives back what was meant.
//!
//! The engine only reads. The encodings stand here as what the parsers are
//! the inverse of: for every primitive, the bytes of a value followed by
//! any other bytes parse to that value and leave those other bytes.

use crate::constructs::{
    spec_be_i32, spec_be_i64, spec_be_u32, spec_be_u64, spec_binary_sha1, spec_boolean,
    spec_compression_type, spec_date_time, spec_maybe_date_time, spec_maybe_sha_string,
    spec_maybe_string, spec_non_null_string, spec_sha_string, spec_sized_bytes,
    spec_sized_string, spec_version_header, timestamp_of_millis, u32_of_be, u64_of_be, Timestamp,
};
use crate::sha::{hex_decoded, hex_digit_value, hex_encoded, is_hex, lower_hex_digit, sha_of_hex};
use crate::CompressionType;
use vstd::prelude::*;
use vstd::utf8::encode_utf8;

verus! {

/// A truth value as one byte.
pub open spec fn encode_boolean(b: bool) -> Seq<u8> {
    seq![if b { 1u8 } else { 0u8 }]
}

/// A number as four bytes, the most significant first.
pub open spec fn encode_be_u32(v: u32) -> Seq<u8> {
    seq![
        (v / 0x100_0000) as u8,
        (v / 0x1_0000 % 0x100) as u8,
        (v / 0x100 % 0x100) as u8,
        (v % 0x100) as u8,
    ]
}

/// A number as eight bytes, the most significant first.
pub open spec fn encode_be_u64(v: u64) -> Seq<u8> {
    seq![
        (v / 0x100_0000_0000_0000) as u8,
        (v / 0x1_0000_0000_0000 % 0x100) as u8,
        (v / 0x100_0000_0000 % 0x100) as u8,
        (v / 0x1_0000_0000 % 0x100) as u8,
        (v / 0x100_0000 % 0x100) as u8,
        (v / 0x1_0000 % 0x100) as u8,
        (v / 0x100 % 0x100) as u8,
        (v % 0x100) as u8,
    ]
}

/// The two's complement bit pattern of a signed number.
pub open spec fn bits_of_i32(v: i32) -> u32 {
    if v >= 0 {
        v as u32
    } else {
        (v + 0x1_0000_0000) as u32
    }
}

/// The two's complement bit pattern of a signed number.
pub open spec fn bits_of_i64(v: i64) -> u64 {
    if v >= 0 {
        v as u64
    } else {
        (v + 0x1_0000_0000_0000_0000) as u64
    }
}

/// A 64-bit length and then the bytes.
pub open spec fn encode_sized_bytes(bytes: Seq<u8>) -> Seq<u8> {
    encode_be_u64(bytes.len() as u64) + bytes
}

/// A 64-bit length and then the string as UTF-8.
pub open spec fn encode_sized_string(text: Seq<char>) -> Seq<u8> {
    encode_sized_bytes(encode_utf8(text))
}

/// A string that may be absent: a zero byte for an absent one, and a one
/// byte and the sized string for one that is present.
pub open spec fn encode_maybe_string(text: Option<Seq<char>>) -> Seq<u8> {
    match text {
        Some(t) => seq![1u8] + encode_sized_string(t),
        None => seq![0u8],
    }
}

/// The instant `ms` milliseconds after the epoch, or no instant: a zero
/// byte for none, and a one byte and the milliseconds in 64 bits for one.
pub open spec fn encode_maybe_date_time(ms: Option<u64>) -> Seq<u8> {
    match ms {
        Some(n) => seq![1u8] + encode_be_u64(n),
        None => seq![0u8],
    }
}

/// The milliseconds after the epoch that an instant stands for.
pub open spec fn millis_of(t: Timestamp) -> int {
    t.secs * 1000 + t.nanos as int / 1_000_000
}

/// The tag of a compression kind.
pub open spec fn tag_of_compression(c: CompressionType) -> u32 {
    match c {
        CompressionType::Uncompressed => 0,
        CompressionType::GZip => 1,
        CompressionType::LZ4 => 2,
    }
}

/// A compression kind as its 32-bit tag.
pub open spec fn encode_compression_type(c: CompressionType) -> Seq<u8> {
    encode_be_u32(tag_of_compression(c))
}

/// The header of a record: the literal `prefix` and the version in three
/// decimal digits.
pub open spec fn encode_version_header(prefix: Seq<u8>, v: usize) -> Seq<u8> {
    prefix + seq![
        (0x30 + v / 100) as u8,
        (0x30 + v / 10 % 10) as u8,
        (0x30 + v % 10) as u8,
    ]
}

/// A text of characters below 128 as bytes.
pub open spec fn ascii_bytes(text: Seq<char>) -> Seq<u8> {
    Seq::new(text.len(), |i: int| text[i] as u8)
}

/// A hash as a string of 40 lower-case hexadecimal digits that has to be
/// present.
pub open spec fn encode_sha_string(sha: Seq<u8>) -> Seq<u8> {
    seq![1u8] + encode_sized_bytes(ascii_bytes(hex_encoded(sha)))
}

/// A hash that may be absent.
pub open spec fn encode_maybe_sha_string(sha: Option<Seq<u8>>) -> Seq<u8> {
    match sha {
        Some(h) => encode_sha_string(h),
        None => seq![0u8],
    }
}

/// A number comes back from its four bytes.
pub proof fn lemma_u32_of_encoded(v: u32)
    ensures
        u32_of_be(encode_be_u32(v)) == v,
{
}

/// A number comes back from its eight bytes.
pub proof fn lemma_u64_of_encoded(v: u64)
    ensures
        u64_of_be(encode_be_u64(v)) == v,
{
    let b = encode_be_u64(v);
    assert(b[0] as int * 0x100_0000_0000_0000 + b[1] as int * 0x1_0000_0000_0000 + b[2] as int
        * 0x100_0000_0000 + b[3] as int * 0x1_0000_0000 + b[4] as int * 0x100_0000 + b[5] as int
        * 0x1_0000 + b[6] as int * 0x100 + b[7] as int == v) by {
        assert(((v / 0x100_0000_0000_0000) as u8) as int * 0x100_0000_0000_0000 + ((v
            / 0x1_0000_0000_0000 % 0x100) as u8) as int * 0x1_0000_0000_0000 + ((v
            / 0x100_0000_0000 % 0x100) as u8) as int * 0x100_0000_0000 + ((v / 0x1_0000_0000
            % 0x100) as u8) as int * 0x1_0000_0000 + ((v / 0x100_0000 % 0x100) as u8) as int
            * 0x100_0000 + ((v / 0x1_0000 % 0x100) as u8) as int * 0x1_0000 + ((v / 0x100
            % 0x100) as u8) as int * 0x100 + ((v % 0x100) as u8) as int == v) by (bit_vector);
    }
}

/// Reading a written truth value gives it back.
pub proof fn lemma_boolean_round_trip(b: bool, rest: Seq<u8>)
    ensures
        spec_boolean(encode_boolean(b) + rest) == Some((b, rest)),
{
    assert((encode_boolean(b) + rest).skip(1) =~= rest);
}

/// Reading a written 32-bit number gives it back.
pub proof fn lemma_be_u32_round_trip(v: u32, rest: Seq<u8>)
    ensures
        spec_be_u32(encode_be_u32(v) + rest) == Some((v, rest)),
{
    let s = encode_be_u32(v) + rest;
    assert(s.take(4) =~= encode_be_u32(v));
    assert(s.skip(4) =~= rest);
    lemma_u32_of_encoded(v);
}

/// Reading a written 64-bit number gives it back.
pub proof fn lemma_be_u64_round_trip(v: u64, rest: Seq<u8>)
    ensures
        spec_be_u64(encode_be_u64(v) + rest) == Some((v, rest)),
{
    let s = encode_be_u64(v) + rest;
    assert(s.take(8) =~= encode_be_u64(v));
    assert(s.skip(8) =~= rest);
    lemma_u64_of_encoded(v);
}

/// Reading a written signed 32-bit number gives it back.
pub proof fn lemma_be_i32_round_trip(v: i32, rest: Seq<u8>)
    ensures
        spec_be_i32(encode_be_u32(bits_of_i32(v)) + rest) == Some((v, rest)),
{
    lemma_be_u32_round_trip(bits_of_i32(v), rest);
}

/// Reading a written signed 64-bit number gives it back.
pub proof fn lemma_be_i64_round_trip(v: i64, rest: Seq<u8>)
    ensures
        spec_be_i64(encode_be_u64(bits_of_i64(v)) + rest) == Some((v, rest)),
{
    lemma_be_u64_round_trip(bits_of_i64(v), rest);
}

/// Reading written sized bytes gives them back.
pub proof fn lemma_sized_bytes_round_trip(bytes: Seq<u8>, rest: Seq<u8>)
    requires
        bytes.len() <= u64::MAX,
    ensures
        spec_sized_bytes(encode_sized_bytes(bytes) + rest) == Some((bytes, rest)),
{
    let n = bytes.len() as u64;
    assert(encode_sized_bytes(bytes) + rest =~= encode_be_u64(n) + (bytes + rest));
    lemma_be_u64_round_trip(n, bytes + rest);
    assert((bytes + rest).take(bytes.len() as int) =~= bytes);
    assert((bytes + rest).skip(bytes.len() as int) =~= rest);
}

/// Reading a written sized string gives it back.
pub proof fn lemma_sized_string_round_trip(text: Seq<char>, rest: Seq<u8>)
    requires
        encode_utf8(text).len() <= u64::MAX,
    ensures
        spec_sized_string(encode_sized_string(text) + rest) == Some((text, rest)),
{
    lemma_sized_bytes_round_trip(encode_utf8(text), rest);
    vstd::utf8::encode_utf8_valid_utf8(text);
    vstd::utf8::encode_utf8_decode_utf8(text);
}

/// Reading a written string that may be absent gives it back; an absent
/// one is a single zero byte.
pub proof fn lemma_maybe_string_round_trip(text: Option<Seq<char>>, rest: Seq<u8>)
    requires
        text matches Some(t) ==> encode_utf8(t).len() <= u64::MAX,
    ensures
        spec_maybe_string(encode_maybe_string(text) + rest) == Some((text, rest)),
        text is None ==> encode_maybe_string(text) == seq![0u8],
{
    let s = encode_maybe_string(text) + rest;
    match text {
        Some(t) => {
            assert(s.skip(1) =~= encode_sized_string(t) + rest);
            lemma_sized_string_round_trip(t, rest);
        },
        None => {
            assert(s.skip(1) =~= rest);
        },
    }
}

/// Reading a written string that has to be present gives it back.
pub proof fn lemma_non_null_string_round_trip(text: Seq<char>, rest: Seq<u8>)
    requires
        encode_utf8(text).len() <= u64::MAX,
    ensures
        spec_non_null_string(encode_maybe_string(Some(text)) + rest) == Some((text, rest)),
{
    lemma_maybe_string_round_trip(Some(text), rest);
}

/// Reading the 20 written bytes of a hash gives them back.
pub proof fn lemma_binary_sha1_round_trip(sha: Seq<u8>, rest: Seq<u8>)
    requires
        sha.len() == 20,
    ensures
        spec_binary_sha1(sha + rest) == Some((sha, rest)),
{
    assert((sha + rest).take(20) =~= sha);
    assert((sha + rest).skip(20) =~= rest);
}

/// An instant of whole milliseconds is the instant of its milliseconds.
pub proof fn lemma_millis_round_trip(ms: u64)
    ensures
        millis_of(timestamp_of_millis(ms)) == ms,
        timestamp_of_millis(ms).nanos < 1_000_000_000,
{
}

/// Reading a written instant that may be absent gives it back.
pub proof fn lemma_maybe_date_time_round_trip(ms: Option<u64>, rest: Seq<u8>)
    ensures
        spec_maybe_date_time(encode_maybe_date_time(ms) + rest) == Some(
            (
                match ms {
                    Some(n) => Some(timestamp_of_millis(n)),
                    None => None,
                },
                rest,
            ),
        ),
{
    let s = encode_maybe_date_time(ms) + rest;
    match ms {
        Some(n) => {
            assert(s.skip(1) =~= encode_be_u64(n) + rest);
            lemma_be_u64_round_trip(n, rest);
        },
        None => {
            assert(s.skip(1) =~= rest);
        },
    }
}

/// Reading a written instant that has to be present gives it back.
pub proof fn lemma_date_time_round_trip(ms: u64, rest: Seq<u8>)
    ensures
        spec_date_time(encode_maybe_date_time(Some(ms)) + rest) == Some(
            (timestamp_of_millis(ms), rest),
        ),
{
    lemma_maybe_date_time_round_trip(Some(ms), rest);
}

/// Reading a written compression kind gives it back.
pub proof fn lemma_compression_type_round_trip(c: CompressionType, rest: Seq<u8>)
    ensures
        spec_compression_type(encode_compression_type(c) + rest) == Some((c, rest)),
{
    lemma_be_u32_round_trip(tag_of_compression(c), rest);
}

/// Reading a written record header gives back the version.
pub proof fn lemma_version_header_round_trip(prefix: Seq<u8>, v: usize, rest: Seq<u8>)
    requires
        v < 1000,
    ensures
        spec_version_header(prefix, encode_version_header(prefix, v) + rest) == Some((v, rest)),
{
    let s = encode_version_header(prefix, v) + rest;
    assert(s.take(prefix.len() as int) =~= prefix);
    let behind = s.skip(prefix.len() as int);
    assert(behind.skip(3) =~= rest);
    assert(behind[0] == (0x30 + v / 100) as u8);
    assert(behind[1] == (0x30 + v / 10 % 10) as u8);
    assert(behind[2] == (0x30 + v % 10) as u8);
}

/// The value of a written digit is the number it was written for.
pub proof fn lemma_hex_digit(n: int)
    requires
        0 <= n < 16,
    ensures
        hex_digit_value(lower_hex_digit(n) as u8) == Some(n as u8),
{
    let digits = seq![
        '0',
        '1',
        '2',
        '3',
        '4',
        '5',
        '6',
        '7',
        '8',
        '9',
        'a',
        'b',
        'c',
        'd',
        'e',
        'f',
    ];
    assert(lower_hex_digit(n) == digits[n]);
}

/// The hexadecimal text of some bytes spells those bytes.
pub proof fn lemma_hex_round_trip(bytes: Seq<u8>)
    ensures
        is_hex(ascii_bytes(hex_encoded(bytes))),
        hex_decoded(ascii_bytes(hex_encoded(bytes))) == bytes,
{
    let text = ascii_bytes(hex_encoded(bytes));
    assert forall|i: int| 0 <= i < text.len() implies (#[trigger] hex_digit_value(text[i]))
        is Some by {
        if i % 2 == 0 {
            lemma_hex_digit(bytes[i / 2] as int / 16);
        } else {
            lemma_hex_digit(bytes[i / 2] as int % 16);
        }
    }
    assert forall|k: int| 0 <= k < bytes.len() implies hex_decoded(text)[k] == bytes[k] by {
        lemma_hex_digit(bytes[k] as int / 16);
        lemma_hex_digit(bytes[k] as int % 16);
        assert((2 * k) % 2 == 0);
        assert((2 * k + 1) % 2 == 1);
        assert((2 * k) / 2 == k);
        assert((2 * k + 1) / 2 == k);
    }
    assert(hex_decoded(text) =~= bytes);
}

/// Reading a written hash that may be absent gives it back.
pub proof fn lemma_maybe_sha_string_round_trip(sha: Option<Seq<u8>>, rest: Seq<u8>)
    requires
        sha matches Some(h) ==> h.len() == 20,
    ensures
        spec_maybe_sha_string(encode_maybe_sha_string(sha) + rest) == Some((sha, rest)),
{
    let s = encode_maybe_sha_string(sha) + rest;
    match sha {
        Some(h) => {
            let text = ascii_bytes(hex_encoded(h));
            assert(s.skip(1) =~= encode_sized_bytes(text) + rest);
            lemma_sized_bytes_round_trip(text, rest);
            lemma_hex_round_trip(h);
            assert(sha_of_hex(text) == Some(h));
        },
        None => {
            assert(s.skip(1) =~= rest);
        },
    }
}

/// Reading a written hash that has to be present gives it back.
pub proof fn lemma_sha_string_round_trip(sha: Seq<u8>, rest: Seq<u8>)
    requires
        sha.len() == 20,
    ensures
        spec_sha_string(encode_sha_string(sha) + rest) == Some((sha, rest)),
{
    lemma_maybe_sha_string_round_trip(Some(sha), rest);
}

} // verus!
