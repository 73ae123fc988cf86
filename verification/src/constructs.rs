//! Primitives of the binary record format. All integers are big-endian.
//!
//! Every parser takes the bytes that are left and gives back the value it
//! read together with the bytes behind it. What a parser accepts and what it
//! reads is stated by a function on sequences of bytes with the same name
//! and the prefix `spec_`.

use crate::sha::{sha_of_hex, SHA1};
use crate::{compression_of_tag, CompressionType};
use vstd::prelude::*;
use vstd::utf8::*;

verus! {

/// The input is no well-formed encoding of the element asked for.
#[derive(Debug, Clone, Copy, PartialEq, Eq, Structural)]
pub struct ParseError;

/// An instant, as whole seconds since the Unix epoch and the nanoseconds
/// into that second.
#[derive(Debug, Clone, Copy, PartialEq, Eq, Structural)]
pub struct Timestamp {
    pub secs: i64,
    pub nanos: u32,
}

impl DeepView for Timestamp {
    type V = Timestamp;

    open spec fn deep_view(&self) -> Timestamp {
        *self
    }
}

impl DeepView for CompressionType {
    type V = CompressionType;

    open spec fn deep_view(&self) -> CompressionType {
        *self
    }
}

/// A parser's answer `r` is the one that `model` asks for: the same value
/// and the same rest where the model has one, a failure where it has none.
pub open spec fn parsed<T: DeepView>(
    r: Result<(&[u8], T), ParseError>,
    model: Option<(T::V, Seq<u8>)>,
) -> bool {
    match model {
        Some((v, rest)) => r matches Ok((tail, x)) && x.deep_view() == v && tail@ == rest,
        None => r is Err,
    }
}

/// The number that four big-endian bytes stand for.
pub open spec fn u32_of_be(b: Seq<u8>) -> u32 {
    (b[0] as int * 0x100_0000 + b[1] as int * 0x1_0000 + b[2] as int * 0x100 + b[3] as int) as u32
}

/// The number that eight big-endian bytes stand for.
pub open spec fn u64_of_be(b: Seq<u8>) -> u64 {
    (b[0] as int * 0x100_0000_0000_0000 + b[1] as int * 0x1_0000_0000_0000 + b[2] as int
        * 0x100_0000_0000 + b[3] as int * 0x1_0000_0000 + b[4] as int * 0x100_0000 + b[5] as int
        * 0x1_0000 + b[6] as int * 0x100 + b[7] as int) as u64
}

/// The signed number with the two's complement bit pattern `x`.
pub open spec fn i32_of_bits(x: u32) -> i32 {
    if x < 0x8000_0000 {
        x as i32
    } else {
        (x - 0x1_0000_0000) as i32
    }
}

/// The signed number with the two's complement bit pattern `x`.
pub open spec fn i64_of_bits(x: u64) -> i64 {
    if x < 0x8000_0000_0000_0000 {
        x as i64
    } else {
        (x - 0x1_0000_0000_0000_0000) as i64
    }
}

/// The first `n` bytes, and the bytes behind them.
pub open spec fn spec_take(n: nat, s: Seq<u8>) -> Option<(Seq<u8>, Seq<u8>)> {
    if n <= s.len() {
        Some((s.take(n as int), s.skip(n as int)))
    } else {
        None
    }
}

/// One byte.
pub open spec fn spec_be_u8(s: Seq<u8>) -> Option<(u8, Seq<u8>)> {
    if s.len() >= 1 {
        Some((s[0], s.skip(1)))
    } else {
        None
    }
}

/// An unsigned number in four bytes.
pub open spec fn spec_be_u32(s: Seq<u8>) -> Option<(u32, Seq<u8>)> {
    if s.len() >= 4 {
        Some((u32_of_be(s.take(4)), s.skip(4)))
    } else {
        None
    }
}

/// An unsigned number in eight bytes.
pub open spec fn spec_be_u64(s: Seq<u8>) -> Option<(u64, Seq<u8>)> {
    if s.len() >= 8 {
        Some((u64_of_be(s.take(8)), s.skip(8)))
    } else {
        None
    }
}

/// A signed number in four bytes, in two's complement.
pub open spec fn spec_be_i32(s: Seq<u8>) -> Option<(i32, Seq<u8>)> {
    match spec_be_u32(s) {
        Some((x, rest)) => Some((i32_of_bits(x), rest)),
        None => None,
    }
}

/// A signed number in eight bytes, in two's complement.
pub open spec fn spec_be_i64(s: Seq<u8>) -> Option<(i64, Seq<u8>)> {
    match spec_be_u64(s) {
        Some((x, rest)) => Some((i64_of_bits(x), rest)),
        None => None,
    }
}

/// One byte, true unless it is zero.
pub open spec fn spec_boolean(s: Seq<u8>) -> Option<(bool, Seq<u8>)> {
    match spec_be_u8(s) {
        Some((b, rest)) => Some((b != 0, rest)),
        None => None,
    }
}

/// A 64-bit length and then that many bytes.
pub open spec fn spec_sized_bytes(s: Seq<u8>) -> Option<(Seq<u8>, Seq<u8>)> {
    match spec_be_u64(s) {
        Some((n, rest)) => spec_take(n as nat, rest),
        None => None,
    }
}

/// A 64-bit length and then that many bytes of UTF-8.
pub open spec fn spec_sized_string(s: Seq<u8>) -> Option<(Seq<char>, Seq<u8>)> {
    match spec_sized_bytes(s) {
        Some((text, rest)) => if valid_utf8(text) {
            Some((decode_utf8(text), rest))
        } else {
            None
        },
        None => None,
    }
}

/// A presence flag and, behind a true one, a sized string.
pub open spec fn spec_maybe_string(s: Seq<u8>) -> Option<(Option<Seq<char>>, Seq<u8>)> {
    match spec_boolean(s) {
        Some((present, rest)) => if present {
            match spec_sized_string(rest) {
                Some((text, rest)) => Some((Some(text), rest)),
                None => None,
            }
        } else {
            Some((None, rest))
        },
        None => None,
    }
}

/// A string that has to be present.
pub open spec fn spec_non_null_string(s: Seq<u8>) -> Option<(Seq<char>, Seq<u8>)> {
    match spec_maybe_string(s) {
        Some((Some(text), rest)) => Some((text, rest)),
        _ => None,
    }
}

/// Twenty raw bytes.
pub open spec fn spec_binary_sha1(s: Seq<u8>) -> Option<(Seq<u8>, Seq<u8>)> {
    spec_take(20, s)
}

/// The instant `ms` milliseconds after the epoch.
pub open spec fn timestamp_of_millis(ms: u64) -> Timestamp {
    Timestamp { secs: (ms / 1000) as i64, nanos: ((ms % 1000) * 1_000_000) as u32 }
}

/// A presence flag and, behind a true one, a count of milliseconds.
pub open spec fn spec_maybe_date_time(s: Seq<u8>) -> Option<(Option<Timestamp>, Seq<u8>)> {
    match spec_boolean(s) {
        Some((present, rest)) => if present {
            match spec_be_u64(rest) {
                Some((ms, rest)) => Some((Some(timestamp_of_millis(ms)), rest)),
                None => None,
            }
        } else {
            Some((None, rest))
        },
        None => None,
    }
}

/// An instant that has to be present.
pub open spec fn spec_date_time(s: Seq<u8>) -> Option<(Timestamp, Seq<u8>)> {
    match spec_maybe_date_time(s) {
        Some((Some(t), rest)) => Some((t, rest)),
        _ => None,
    }
}

/// The bytes behind the literal `prefix`, where `s` starts with it.
pub open spec fn spec_tag(prefix: Seq<u8>, s: Seq<u8>) -> Option<Seq<u8>> {
    if prefix.len() <= s.len() && s.take(prefix.len() as int) == prefix {
        Some(s.skip(prefix.len() as int))
    } else {
        None
    }
}

/// Whether `c` is one of the digits `0` to `9`.
pub open spec fn is_ascii_digit(c: u8) -> bool {
    0x30 <= c <= 0x39
}

/// The literal `prefix` and then three decimal digits: the version.
pub open spec fn spec_version_header(prefix: Seq<u8>, s: Seq<u8>) -> Option<(usize, Seq<u8>)> {
    match spec_tag(prefix, s) {
        Some(rest) => if rest.len() >= 3 && is_ascii_digit(rest[0]) && is_ascii_digit(rest[1])
            && is_ascii_digit(rest[2]) {
            Some(
                (
                    ((rest[0] - 0x30) * 100 + (rest[1] - 0x30) * 10 + (rest[2] - 0x30)) as usize,
                    rest.skip(3),
                ),
            )
        } else {
            None
        },
        None => None,
    }
}

/// A 32-bit tag that names a compression kind.
pub open spec fn spec_compression_type(s: Seq<u8>) -> Option<(CompressionType, Seq<u8>)> {
    match spec_be_u32(s) {
        Some((x, rest)) => match compression_of_tag(x) {
            Some(c) => Some((c, rest)),
            None => None,
        },
        None => None,
    }
}

/// The compression kind of a record that may hold it in the older form, a
/// flag, or in the newer one, a tag. The flag wins; with neither the record
/// is not compressed.
pub open spec fn spec_unwrap_compression_type(
    flag: Option<bool>,
    compression_type: Option<CompressionType>,
) -> CompressionType {
    match flag {
        Some(true) => CompressionType::GZip,
        Some(false) => CompressionType::Uncompressed,
        None => match compression_type {
            Some(c) => c,
            None => CompressionType::Uncompressed,
        },
    }
}

/// A presence flag and, behind a true one, a sized text of 40 hexadecimal
/// digits.
pub open spec fn spec_maybe_sha_string(s: Seq<u8>) -> Option<(Option<Seq<u8>>, Seq<u8>)> {
    match spec_boolean(s) {
        Some((present, rest)) => if present {
            match spec_sized_bytes(rest) {
                Some((text, rest)) => match sha_of_hex(text) {
                    Some(h) => Some((Some(h), rest)),
                    None => None,
                },
                None => None,
            }
        } else {
            Some((None, rest))
        },
        None => None,
    }
}

/// A hash in hexadecimal that has to be present.
pub open spec fn spec_sha_string(s: Seq<u8>) -> Option<(Seq<u8>, Seq<u8>)> {
    match spec_maybe_sha_string(s) {
        Some((Some(h), rest)) => Some((h, rest)),
        _ => None,
    }
}

/// The bytes that a parsing step left, for the next step to start from.
pub open spec fn after<T>(step: Option<(T, Seq<u8>)>) -> Seq<u8> {
    match step {
        Some((_, rest)) => rest,
        None => Seq::empty(),
    }
}

/// The value that a parsing step read.
pub open spec fn got<T>(step: Option<(T, Seq<u8>)>) -> T {
    step.unwrap().0
}

/// A field that only some versions of a record hold: where `present` is
/// true it is what `step` read from `s`, and else it is absent and no byte
/// of `s` is used.
pub open spec fn spec_cond<T>(present: bool, step: Option<(T, Seq<u8>)>, s: Seq<u8>) -> Option<
    (Option<T>, Seq<u8>),
> {
    if present {
        match step {
            Some((v, rest)) => Some((Some(v), rest)),
            None => None,
        }
    } else {
        Some((None, s))
    }
}

/// An element of a counted list inside a record of a given format version.
pub trait Parse: DeepView + Sized {
    /// What reading one element from the front of `s` gives.
    spec fn model(version: usize, s: Seq<u8>) -> Option<(Self::V, Seq<u8>)>;

    /// Reads one element from the front of `i`.
    fn parse(version: usize, i: &[u8]) -> (r: Result<(&[u8], Self), ParseError>)
        ensures
            parsed(r, Self::model(version, i@)),
    ;
}

/// `n` elements, one behind the other.
pub open spec fn spec_repeat<T: Parse>(version: usize, n: nat, s: Seq<u8>) -> Option<
    (Seq<T::V>, Seq<u8>),
>
    decreases n,
{
    if n == 0 {
        Some((Seq::empty(), s))
    } else {
        match T::model(version, s) {
            Some((x, rest)) => match spec_repeat::<T>(version, (n - 1) as nat, rest) {
                Some((xs, rest)) => Some((seq![x] + xs, rest)),
                None => None,
            },
            None => None,
        }
    }
}

/// A 64-bit count and then that many elements.
pub open spec fn spec_vec_of<T: Parse>(version: usize, s: Seq<u8>) -> Option<
    (Seq<T::V>, Seq<u8>),
> {
    match spec_be_u64(s) {
        Some((n, rest)) => spec_repeat::<T>(version, n as nat, rest),
        None => None,
    }
}

/// A 32-bit count and then that many elements.
pub open spec fn spec_short_vec_of<T: Parse>(version: usize, s: Seq<u8>) -> Option<
    (Seq<T::V>, Seq<u8>),
> {
    match spec_be_u32(s) {
        Some((n, rest)) => spec_repeat::<T>(version, n as nat, rest),
        None => None,
    }
}

/// The elements `done`, read earlier, in front of what `more` reads.
pub open spec fn behind<A>(done: Seq<A>, more: Option<(Seq<A>, Seq<u8>)>) -> Option<
    (Seq<A>, Seq<u8>),
> {
    match more {
        Some((xs, rest)) => Some((done + xs, rest)),
        None => None,
    }
}

/// Nothing in front of what a step reads changes nothing.
proof fn lemma_behind_nothing<A>(more: Option<(Seq<A>, Seq<u8>)>)
    ensures
        behind(Seq::empty(), more) == more,
{
    match more {
        Some((xs, rest)) => {
            assert(Seq::<A>::empty() + xs =~= xs);
        },
        None => {},
    }
}

/// Reading `n` elements is reading one and then the other `n - 1`.
proof fn lemma_repeat_step<T: Parse>(version: usize, n: nat, s: Seq<u8>, done: Seq<T::V>)
    requires
        n > 0,
    ensures
        behind(done, spec_repeat::<T>(version, n, s)) == match T::model(version, s) {
            Some((x, rest)) => behind(
                done.push(x),
                spec_repeat::<T>(version, (n - 1) as nat, rest),
            ),
            None => None,
        },
{
    match T::model(version, s) {
        Some((x, rest)) => {
            match spec_repeat::<T>(version, (n - 1) as nat, rest) {
                Some((xs, rest2)) => {
                    assert(done + (seq![x] + xs) =~= done.push(x) + xs);
                },
                None => {},
            }
        },
        None => {},
    }
}

/// As many elements as were asked for are read, or none at all.
pub proof fn lemma_repeat_len<T: Parse>(version: usize, n: nat, s: Seq<u8>)
    ensures
        spec_repeat::<T>(version, n, s) matches Some((xs, _)) ==> xs.len() == n,
    decreases n,
{
    if n > 0 {
        match T::model(version, s) {
            Some((_, rest)) => {
                lemma_repeat_len::<T>(version, (n - 1) as nat, rest);
            },
            None => {},
        }
    }
}

/// `std::str::from_utf8`: the bytes as a string slice where they are valid
/// UTF-8, and nothing where they are not.
#[verifier::external_body]
pub(crate) fn str_from_utf8(bytes: &[u8]) -> (r: Option<&str>)
    ensures
        r is Some <==> valid_utf8(bytes@),
        r matches Some(s) ==> s@ == decode_utf8(bytes@),
{
    std::str::from_utf8(bytes).ok()
}

/// The first `n` bytes.
pub fn take(n: u64, i: &[u8]) -> (r: Result<(&[u8], &[u8]), ParseError>)
    ensures
        match spec_take(n as nat, i@) {
            Some((head, rest)) => r matches Ok((tail, x)) && x@ == head && tail@ == rest,
            None => r is Err,
        },
{
    if n > i.len() as u64 {
        return Err(ParseError);
    }
    let (head, tail) = i.split_at(n as usize);
    Ok((tail, head))
}

/// Reads one byte.
pub fn be_u8(i: &[u8]) -> (r: Result<(&[u8], u8), ParseError>)
    ensures
        parsed(r, spec_be_u8(i@)),
{
    if i.len() < 1 {
        return Err(ParseError);
    }
    let (head, tail) = i.split_at(1);
    Ok((tail, head[0]))
}

/// Reads an unsigned number of four bytes.
pub fn be_u32(i: &[u8]) -> (r: Result<(&[u8], u32), ParseError>)
    ensures
        parsed(r, spec_be_u32(i@)),
{
    if i.len() < 4 {
        return Err(ParseError);
    }
    let (b, tail) = i.split_at(4);
    let v: u32 = (b[0] as u32) * 0x100_0000 + (b[1] as u32) * 0x1_0000 + (b[2] as u32) * 0x100 + (
    b[3] as u32);
    Ok((tail, v))
}

/// Reads an unsigned number of eight bytes.
pub fn be_u64(i: &[u8]) -> (r: Result<(&[u8], u64), ParseError>)
    ensures
        parsed(r, spec_be_u64(i@)),
{
    if i.len() < 8 {
        return Err(ParseError);
    }
    let (b, tail) = i.split_at(8);
    let v: u64 = (b[0] as u64) * 0x100_0000_0000_0000 + (b[1] as u64) * 0x1_0000_0000_0000 + (
    b[2] as u64) * 0x100_0000_0000 + (b[3] as u64) * 0x1_0000_0000 + (b[4] as u64) * 0x100_0000
        + (b[5] as u64) * 0x1_0000 + (b[6] as u64) * 0x100 + (b[7] as u64);
    Ok((tail, v))
}

/// Reads a signed number of four bytes.
pub fn be_i32(i: &[u8]) -> (r: Result<(&[u8], i32), ParseError>)
    ensures
        parsed(r, spec_be_i32(i@)),
{
    match be_u32(i) {
        Err(e) => Err(e),
        Ok((tail, x)) => {
            let v: i32 = if x < 0x8000_0000 {
                x as i32
            } else {
                (x - 0x8000_0000) as i32 + i32::MIN
            };
            Ok((tail, v))
        },
    }
}

/// Reads a signed number of eight bytes.
pub fn be_i64(i: &[u8]) -> (r: Result<(&[u8], i64), ParseError>)
    ensures
        parsed(r, spec_be_i64(i@)),
{
    match be_u64(i) {
        Err(e) => Err(e),
        Ok((tail, x)) => {
            let v: i64 = if x < 0x8000_0000_0000_0000 {
                x as i64
            } else {
                (x - 0x8000_0000_0000_0000) as i64 + i64::MIN
            };
            Ok((tail, v))
        },
    }
}

/// Reads a truth value: one byte, true unless it is zero.
pub fn boolean(i: &[u8]) -> (r: Result<(&[u8], bool), ParseError>)
    ensures
        parsed(r, spec_boolean(i@)),
{
    match be_u8(i) {
        Err(e) => Err(e),
        Ok((tail, b)) => Ok((tail, b != 0)),
    }
}

/// A 64-bit length and then that many bytes.
pub fn sized_bytes(i: &[u8]) -> (r: Result<(&[u8], &[u8]), ParseError>)
    ensures
        match spec_sized_bytes(i@) {
            Some((text, rest)) => r matches Ok((tail, x)) && x@ == text && tail@ == rest,
            None => r is Err,
        },
{
    match be_u64(i) {
        Err(e) => Err(e),
        Ok((tail, n)) => take(n, tail),
    }
}

/// Reads a string: a 64-bit length and then that many bytes of UTF-8.
pub fn sized_string(i: &[u8]) -> (r: Result<(&[u8], String), ParseError>)
    ensures
        parsed(r, spec_sized_string(i@)),
{
    match sized_bytes(i) {
        Err(e) => Err(e),
        Ok((tail, text)) => match str_from_utf8(text) {
            Some(s) => Ok((tail, s.to_owned())),
            None => Err(ParseError),
        },
    }
}

/// Reads a string that may be absent: a presence flag and, behind a
/// true one, the string.
pub fn maybe_string(i: &[u8]) -> (r: Result<(&[u8], Option<String>), ParseError>)
    ensures
        parsed(r, spec_maybe_string(i@)),
{
    match boolean(i) {
        Err(e) => Err(e),
        Ok((tail, present)) => if present {
            match sized_string(tail) {
                Err(e) => Err(e),
                Ok((tail, s)) => Ok((tail, Some(s))),
            }
        } else {
            Ok((tail, None))
        },
    }
}

/// Reads a string that has to be present. An absent one is an error.
pub fn non_null_string(i: &[u8]) -> (r: Result<(&[u8], String), ParseError>)
    ensures
        parsed(r, spec_non_null_string(i@)),
{
    match maybe_string(i) {
        Ok((tail, Some(s))) => Ok((tail, s)),
        _ => Err(ParseError),
    }
}

/// Reads a hash of 20 raw bytes.
pub fn binary_sha1(i: &[u8]) -> (r: Result<(&[u8], SHA1), ParseError>)
    ensures
        parsed(r, spec_binary_sha1(i@)),
{
    match take(20, i) {
        Err(e) => Err(e),
        Ok((tail, b)) => match SHA1::from_slice(b) {
            Some(h) => Ok((tail, h)),
            None => Err(ParseError),
        },
    }
}

/// The instant `ms` milliseconds after the epoch.
pub fn unpack_timestamp(ms: u64) -> (t: Timestamp)
    ensures
        t == timestamp_of_millis(ms),
        t.nanos < 1_000_000_000,
        t.secs >= 0,
{
    Timestamp { secs: (ms / 1000) as i64, nanos: ((ms % 1000) * 1_000_000) as u32 }
}

/// Reads an instant that may be absent: a presence flag and, behind a
/// true one, the milliseconds since the epoch in 64 bits.
pub fn maybe_date_time(i: &[u8]) -> (r: Result<(&[u8], Option<Timestamp>), ParseError>)
    ensures
        parsed(r, spec_maybe_date_time(i@)),
{
    match boolean(i) {
        Err(e) => Err(e),
        Ok((tail, present)) => if present {
            match be_u64(tail) {
                Err(e) => Err(e),
                Ok((tail, ms)) => Ok((tail, Some(unpack_timestamp(ms)))),
            }
        } else {
            Ok((tail, None))
        },
    }
}

/// Reads an instant that has to be present. An absent one is an error.
pub fn date_time(i: &[u8]) -> (r: Result<(&[u8], Timestamp), ParseError>)
    ensures
        parsed(r, spec_date_time(i@)),
{
    match maybe_date_time(i) {
        Ok((tail, Some(t))) => Ok((tail, t)),
        _ => Err(ParseError),
    }
}

/// The bytes behind the literal `prefix`.
pub fn tag<'a>(prefix: &[u8], i: &'a [u8]) -> (r: Result<&'a [u8], ParseError>)
    ensures
        match spec_tag(prefix@, i@) {
            Some(rest) => r matches Ok(tail) && tail@ == rest,
            None => r is Err,
        },
{
    if prefix.len() > i.len() {
        return Err(ParseError);
    }
    let (head, tail) = i.split_at(prefix.len());
    let mut k: usize = 0;
    while k < prefix.len()
        invariant
            k <= prefix@.len(),
            head@.len() == prefix@.len(),
            head@ == i@.take(prefix@.len() as int),
            forall|j: int| 0 <= j < k ==> head@[j] == prefix@[j],
        decreases prefix@.len() - k,
    {
        if head[k] != prefix[k] {
            return Err(ParseError);
        }
        k += 1;
    }
    assert(head@ =~= prefix@);
    Ok(tail)
}

/// Reads the header of a record: the literal `prefix` and then the
/// version of the format in exactly three decimal digits.
pub fn version_header<'a>(prefix: &[u8], i: &'a [u8]) -> (r: Result<(&'a [u8], usize), ParseError>)
    ensures
        parsed(r, spec_version_header(prefix@, i@)),
{
    match tag(prefix, i) {
        Err(e) => Err(e),
        Ok(rest) => {
            if rest.len() < 3 {
                return Err(ParseError);
            }
            let (d, tail) = rest.split_at(3);
            if d[0] < 0x30 || d[0] > 0x39 || d[1] < 0x30 || d[1] > 0x39 || d[2] < 0x30 || d[2]
                > 0x39 {
                return Err(ParseError);
            }
            let v: usize = (d[0] - 0x30) as usize * 100 + (d[1] - 0x30) as usize * 10 + (d[2]
                - 0x30) as usize;
            Ok((tail, v))
        },
    }
}

/// Reads a compression kind: a 32-bit tag, which has to be a known one.
pub fn compression_type(i: &[u8]) -> (r: Result<(&[u8], CompressionType), ParseError>)
    ensures
        parsed(r, spec_compression_type(i@)),
{
    match be_u32(i) {
        Err(e) => Err(e),
        Ok((tail, x)) => match CompressionType::try_from(x) {
            Ok(c) => Ok((tail, c)),
            Err(_) => Err(ParseError),
        },
    }
}

/// The compression kind of a record that may hold it in the older form, a
/// flag, or in the newer one, a tag.
pub fn unwrap_compression_type(
    flag: Option<bool>,
    compression_type: Option<CompressionType>,
) -> (c: CompressionType)
    ensures
        c == spec_unwrap_compression_type(flag, compression_type),
{
    match flag {
        Some(true) => CompressionType::GZip,
        Some(false) => CompressionType::Uncompressed,
        None => match compression_type {
            Some(c) => c,
            None => CompressionType::Uncompressed,
        },
    }
}

/// Reads a hash that may be absent: a presence flag and, behind a true
/// one, a sized text of 40 hexadecimal digits.
pub fn maybe_sha_string(i: &[u8]) -> (r: Result<(&[u8], Option<SHA1>), ParseError>)
    ensures
        parsed(r, spec_maybe_sha_string(i@)),
{
    match boolean(i) {
        Err(e) => Err(e),
        Ok((tail, present)) => if present {
            match sized_bytes(tail) {
                Err(e) => Err(e),
                Ok((tail, text)) => match SHA1::from_hex(text) {
                    Some(h) => Ok((tail, Some(h))),
                    None => Err(ParseError),
                },
            }
        } else {
            Ok((tail, None))
        },
    }
}

/// Reads a hash in hexadecimal that has to be present.
pub fn sha_string(i: &[u8]) -> (r: Result<(&[u8], SHA1), ParseError>)
    ensures
        parsed(r, spec_sha_string(i@)),
{
    match maybe_sha_string(i) {
        Ok((tail, Some(h))) => Ok((tail, h)),
        _ => Err(ParseError),
    }
}

/// `n` elements, one behind the other.
pub fn repeat<T: Parse>(version: usize, n: u64, i: &[u8]) -> (r: Result<
    (&[u8], Vec<T>),
    ParseError,
>)
    ensures
        parsed(r, spec_repeat::<T>(version, n as nat, i@)),
{
    let mut items: Vec<T> = Vec::new();
    let mut rest = i;
    let mut k: u64 = 0;
    proof {
        assert(items.deep_view() =~= Seq::<T::V>::empty());
        lemma_behind_nothing(spec_repeat::<T>(version, n as nat, i@));
    }
    while k < n
        invariant
            k <= n,
            spec_repeat::<T>(version, n as nat, i@) == behind(
                items.deep_view(),
                spec_repeat::<T>(version, (n - k) as nat, rest@),
            ),
        decreases n - k,
    {
        proof {
            lemma_repeat_step::<T>(version, (n - k) as nat, rest@, items.deep_view());
        }
        let ghost before = items.deep_view();
        match T::parse(version, rest) {
            Err(e) => {
                return Err(e);
            },
            Ok((tail, x)) => {
                items.push(x);
                assert(items.deep_view() =~= before.push(x.deep_view()));
                rest = tail;
            },
        }
        k += 1;
    }
    assert(items.deep_view() + Seq::<T::V>::empty() =~= items.deep_view());
    Ok((rest, items))
}

/// A 64-bit count and then that many elements.
pub fn vec_of<T: Parse>(version: usize, i: &[u8]) -> (r: Result<(&[u8], Vec<T>), ParseError>)
    ensures
        parsed(r, spec_vec_of::<T>(version, i@)),
{
    match be_u64(i) {
        Err(e) => Err(e),
        Ok((tail, n)) => repeat::<T>(version, n, tail),
    }
}

/// A 32-bit count and then that many elements.
pub fn short_vec_of<T: Parse>(version: usize, i: &[u8]) -> (r: Result<
    (&[u8], Vec<T>),
    ParseError,
>)
    ensures
        parsed(r, spec_short_vec_of::<T>(version, i@)),
{
    match be_u32(i) {
        Err(e) => Err(e),
        Ok((tail, n)) => repeat::<T>(version, n as u64, tail),
    }
}

impl Parse for String {
    open spec fn model(version: usize, s: Seq<u8>) -> Option<(Seq<char>, Seq<u8>)> {
        spec_non_null_string(s)
    }

    fn parse(version: usize, i: &[u8]) -> (r: Result<(&[u8], String), ParseError>) {
        non_null_string(i)
    }
}

} // verus!
