//! Read-side engine for a content-addressed, encrypted, deduplicated backup
//! repository kept in object storage.
//!
//! The crate turns opaque objects of a bucket into a navigable tree of
//! snapshots, directories and files. Every function states its behaviour
//! over a mathematical model of the bytes it reads.

use vstd::prelude::*;
use vstd::string::*;

pub mod cache;
pub mod commit;
pub mod compression;
pub mod computer;
pub mod constructs;
pub mod crypto;
pub mod encoding;
pub mod folder;
pub mod gather;
pub mod key;
pub mod packset;
pub mod plist;
pub mod repository;
pub mod sha;
pub mod storage;
pub mod throttled;
pub mod tree;

pub use computer::{Computer, ComputerInfo};
pub use folder::{Folder, FolderInfo};
pub use packset::Packset;
pub use repository::Repository;
pub use sha::SHA1;

verus! {

/// Why an operation on the repository failed.
#[derive(Debug, PartialEq, Eq, Clone, Copy, Structural)]
pub enum RepoError {
    /// The object store failed.
    Storage(storage::Error),
    /// An object does not have the form that the format asks for.
    MalformedData,
    /// An object could not be decrypted: most likely a wrong passphrase.
    CryptoError,
    /// A pattern given by the caller does not compile.
    InputError,
}

/// How a blob was compressed before it was encrypted.
#[derive(Debug, PartialEq, Eq, Clone, Copy, Structural)]
pub enum CompressionType {
    Uncompressed,
    GZip,
    LZ4,
}

/// The compression kind that a 32-bit tag stands for, if any.
pub open spec fn compression_of_tag(x: u32) -> Option<CompressionType> {
    if x == 0 {
        Some(CompressionType::Uncompressed)
    } else if x == 1 {
        Some(CompressionType::GZip)
    } else if x == 2 {
        Some(CompressionType::LZ4)
    } else {
        None
    }
}

impl CompressionType {
    /// The compression kind that the tag `x` stands for, or the tag itself
    /// where it stands for none.
    pub fn try_from(x: u32) -> (r: Result<CompressionType, u32>)
        ensures
            r == match compression_of_tag(x) {
                Some(c) => Ok::<CompressionType, u32>(c),
                None => Err::<CompressionType, u32>(x),
            },
    {
        if x == 0 {
            Ok(CompressionType::Uncompressed)
        } else if x == 1 {
            Ok(CompressionType::GZip)
        } else if x == 2 {
            Ok(CompressionType::LZ4)
        } else {
            Err(x)
        }
    }
}

/// The upper-case digit for a number below sixteen.
pub open spec fn upper_hex_digit(n: int) -> char {
    seq!['0', '1', '2', '3', '4', '5', '6', '7', '8', '9', 'A', 'B', 'C', 'D', 'E', 'F'][n]
}

/// The upper-case hexadecimal text of `bytes`.
pub open spec fn hex_upper(bytes: Seq<u8>) -> Seq<char> {
    Seq::new(
        2 * bytes.len(),
        |i: int|
            if i % 2 == 0 {
                upper_hex_digit(bytes[i / 2] as int / 16)
            } else {
                upper_hex_digit(bytes[i / 2] as int % 16)
            },
    )
}

/// The 16 bytes of an identifier in the form that keys hold it in:
/// upper-case hexadecimal in groups of 8, 4, 4, 4 and 12 digits with a
/// hyphen between the groups.
pub open spec fn spec_format_uuid(b: Seq<u8>) -> Seq<char> {
    hex_upper(b.subrange(0, 4)) + seq!['-'] + hex_upper(b.subrange(4, 6)) + seq!['-'] + hex_upper(
        b.subrange(6, 8),
    ) + seq!['-'] + hex_upper(b.subrange(8, 10)) + seq!['-'] + hex_upper(b.subrange(10, 16))
}

/// The 16 bytes of the identifier that `text` is one of the accepted
/// spellings of, if it is one.
pub uninterp spec fn uuid_bytes(text: Seq<char>) -> Option<Seq<u8>>;

/// `uuid::Uuid::parse_str`, with the bytes of the identifier in place of
/// the identifier.
#[verifier::external_body]
pub(crate) fn uuid_parse_str(text: &str) -> (r: Option<[u8; 16]>)
    ensures
        match r {
            Some(bytes) => uuid_bytes(text@) == Some(bytes@),
            None => uuid_bytes(text@) is None,
        },
{
    uuid::Uuid::parse_str(text).ok().map(|id| *id.as_bytes())
}

/// `uuid::adapter::Hyphenated::encode_upper` on the identifier with the
/// bytes `bytes`: two upper-case digits for every byte, and a hyphen behind
/// the fourth, the sixth, the eighth and the tenth byte.
#[verifier::external_body]
pub(crate) fn uuid_encode_upper(bytes: &[u8; 16]) -> (r: String)
    ensures
        r@ == spec_format_uuid(bytes@),
{
    uuid::Uuid::from_bytes(*bytes).to_hyphenated().encode_upper(
        &mut uuid::Uuid::encode_buffer(),
    ).to_owned()
}

/// A universally unique identifier: 16 bytes.
#[derive(Debug, PartialEq, Eq, Clone, Copy)]
pub struct Uuid {
    bytes: [u8; 16],
}

impl View for Uuid {
    type V = Seq<u8>;

    closed spec fn view(&self) -> Seq<u8> {
        self.bytes@
    }
}

impl DeepView for Uuid {
    type V = Seq<u8>;

    open spec fn deep_view(&self) -> Seq<u8> {
        self@
    }
}

impl Uuid {
    /// The identifier with the bytes `bytes`.
    pub fn from_bytes(bytes: [u8; 16]) -> (id: Uuid)
        ensures
            id@ == bytes@,
    {
        Uuid { bytes }
    }

    /// The bytes of the identifier.
    pub fn as_bytes(&self) -> (bytes: &[u8; 16])
        ensures
            bytes@ == self@,
    {
        &self.bytes
    }

    /// The identifier that `text` spells, if it spells one.
    pub fn parse_str(text: &str) -> (r: Option<Uuid>)
        ensures
            r.deep_view() == uuid_bytes(text@),
    {
        match uuid_parse_str(text) {
            Some(bytes) => Some(Uuid { bytes }),
            None => None,
        }
    }
}

/// The identifier in the form that keys hold it in: upper case, with
/// hyphens.
pub fn format_uuid(id: &Uuid) -> (s: String)
    ensures
        s@ == spec_format_uuid(id@),
{
    uuid_encode_upper(&id.bytes)
}

} // verus!
