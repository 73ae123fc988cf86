//! Decompression of decrypted blobs.

use crate::{CompressionType, RepoError};
use vstd::prelude::*;

verus! {

/// What the gzip stream `input` decompresses to, if it is a gzip stream.
pub uninterp spec fn gzip_decoded(input: Seq<u8>) -> Option<Seq<u8>>;

/// `flate2::write::GzDecoder`: all of `input` is written to a decoder over
/// an empty buffer and the decoder is finished. The buffer comes back where
/// the input is a complete gzip stream with a matching checksum.
#[verifier::external_body]
pub(crate) fn gunzip(input: &[u8]) -> (r: Option<Vec<u8>>)
    ensures
        r.deep_view() == gzip_decoded(input@),
{
    let mut decoder = flate2::write::GzDecoder::new(Vec::new());
    match std::io::Write::write_all(&mut decoder, input) {
        Ok(()) => decoder.finish().ok(),
        Err(_) => None,
    }
}

/// What a blob is once the decoder has answered: the decoded bytes, or
/// malformed data where the decoder gave none.
pub fn decoded(outcome: Option<Vec<u8>>) -> (r: Result<Vec<u8>, RepoError>)
    ensures
        match outcome {
            Some(bytes) => r matches Ok(out) && out@ == bytes@,
            None => r matches Err(e) && e == RepoError::MalformedData,
        },
{
    match outcome {
        Some(bytes) => Ok(bytes),
        None => Err(RepoError::MalformedData),
    }
}

/// What `input` decompresses to as a blob of the kind `compression_type`.
/// Only gzip is decompressed; any other kind is malformed data here.
pub open spec fn spec_decompress(input: Seq<u8>, compression_type: CompressionType) -> Option<
    Seq<u8>,
> {
    match compression_type {
        CompressionType::GZip => gzip_decoded(input),
        _ => None,
    }
}

/// Decompresses a blob. A blob that is no gzip stream, and any blob of
/// another kind than gzip, is malformed data.
pub fn decompress(input: &[u8], compression_type: CompressionType) -> (r: Result<
    Vec<u8>,
    RepoError,
>)
    ensures
        match spec_decompress(input@, compression_type) {
            Some(bytes) => r matches Ok(out) && out@ == bytes,
            None => r matches Err(e) && e == RepoError::MalformedData,
        },
{
    match compression_type {
        CompressionType::GZip => decoded(gunzip(input)),
        _ => Err(RepoError::MalformedData),
    }
}

} // verus!
