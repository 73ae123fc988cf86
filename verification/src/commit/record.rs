//! Snapshot records and their decoder.
//!
//! A record starts with `CommitV` and three digits, the version of its
//! format. Which fields follow depends on that version: a field that a
//! version does not hold takes no bytes.

use crate::constructs::{
    after, boolean, compression_type, date_time, got, maybe_sha_string, maybe_string,
    non_null_string, parsed, sha_string, sized_bytes, spec_boolean, spec_compression_type,
    spec_cond, spec_date_time, spec_maybe_sha_string, spec_maybe_string, spec_non_null_string,
    spec_sha_string, spec_sized_bytes, spec_unwrap_compression_type, spec_vec_of,
    spec_version_header, unwrap_compression_type, vec_of, version_header, Parse, ParseError,
    Timestamp,
};
use crate::sha::SHA1;
use crate::{CompressionType, RepoError};
use vstd::prelude::*;
use vstd::slice::slice_to_vec;

verus! {

/// A file that could not be backed up when the snapshot was made, and why.
#[derive(Debug, Clone, PartialEq, Eq)]
pub struct FileError {
    pub filename: String,
    pub error: String,
}

/// A file error as a mathematical value.
pub struct FileErrorModel {
    pub filename: Seq<char>,
    pub error: Seq<char>,
}

impl DeepView for FileError {
    type V = FileErrorModel;

    open spec fn deep_view(&self) -> FileErrorModel {
        FileErrorModel { filename: self.filename@, error: self.error@ }
    }
}

/// A snapshot that this one was made after.
#[derive(Debug, Clone, PartialEq, Eq)]
pub struct ParentKey {
    pub id: SHA1,
    pub expand_key: bool,
}

/// A parent key as a mathematical value.
pub struct ParentKeyModel {
    pub id: Seq<u8>,
    pub expand_key: bool,
}

impl DeepView for ParentKey {
    type V = ParentKeyModel;

    open spec fn deep_view(&self) -> ParentKeyModel {
        ParentKeyModel { id: self.id@, expand_key: self.expand_key }
    }
}

/// A snapshot: who made it and when, and where its root directory is.
#[derive(Debug, Clone, PartialEq, Eq)]
pub struct CommitRecord {
    pub version: usize,
    pub author: Option<String>,
    pub comment: Option<String>,
    pub parents: Vec<ParentKey>,
    pub tree_sha: SHA1,
    pub expand_key: bool,
    pub compression_type: CompressionType,
    pub path: Option<String>,
    pub timestamp: Timestamp,
    pub file_errors: Vec<FileError>,
    pub missing_nodes: Option<bool>,
    pub is_complete: Option<bool>,
    pub plist: Vec<u8>,
    pub arq_version: Option<String>,
}

/// A snapshot record as a mathematical value.
pub struct CommitRecordModel {
    pub version: usize,
    pub author: Option<Seq<char>>,
    pub comment: Option<Seq<char>>,
    pub parents: Seq<ParentKeyModel>,
    pub tree_sha: Seq<u8>,
    pub expand_key: bool,
    pub compression_type: CompressionType,
    pub path: Option<Seq<char>>,
    pub timestamp: Timestamp,
    pub file_errors: Seq<FileErrorModel>,
    pub missing_nodes: Option<bool>,
    pub is_complete: Option<bool>,
    pub plist: Seq<u8>,
    pub arq_version: Option<Seq<char>>,
}

impl DeepView for CommitRecord {
    type V = CommitRecordModel;

    open spec fn deep_view(&self) -> CommitRecordModel {
        CommitRecordModel {
            version: self.version,
            author: self.author.deep_view(),
            comment: self.comment.deep_view(),
            parents: self.parents.deep_view(),
            tree_sha: self.tree_sha@,
            expand_key: self.expand_key,
            compression_type: self.compression_type,
            path: self.path.deep_view(),
            timestamp: self.timestamp,
            file_errors: self.file_errors.deep_view(),
            missing_nodes: self.missing_nodes,
            is_complete: self.is_complete,
            plist: self.plist@,
            arq_version: self.arq_version.deep_view(),
        }
    }
}

/// The path of a file and the error met on it, both of which have to be
/// present.
pub open spec fn spec_file_error(s: Seq<u8>) -> Option<(FileErrorModel, Seq<u8>)> {
    let path = spec_non_null_string(s);
    let error = spec_non_null_string(after(path));
    if path is Some && error is Some {
        Some((FileErrorModel { filename: got(path), error: got(error) }, after(error)))
    } else {
        None
    }
}

/// A parent of a snapshot record of version `v`: its hash and, from
/// version 4 on, whether its key is stretched.
pub open spec fn spec_parent_key(v: usize, s: Seq<u8>) -> Option<(ParentKeyModel, Seq<u8>)> {
    let sha = spec_sha_string(s);
    let expand = spec_cond(v >= 4, spec_boolean(after(sha)), after(sha));
    if sha is Some && expand is Some {
        Some(
            (
                ParentKeyModel {
                    id: got(sha),
                    expand_key: match got(expand) {
                        Some(b) => b,
                        None => false,
                    },
                },
                after(expand),
            ),
        )
    } else {
        None
    }
}

/// What follows the header of a snapshot record of version `v`.
pub open spec fn spec_commit_body(v: usize, s: Seq<u8>) -> Option<(CommitRecordModel, Seq<u8>)> {
    let author = spec_maybe_string(s);
    let comment = spec_maybe_string(after(author));
    let parents = spec_vec_of::<ParentKey>(v, after(comment));
    let tree_sha = spec_sha_string(after(parents));
    let expand_key = spec_cond(v >= 4, spec_boolean(after(tree_sha)), after(tree_sha));
    let is_compressed = spec_cond(
        8 <= v <= 9,
        spec_boolean(after(expand_key)),
        after(expand_key),
    );
    let compression = spec_cond(
        v >= 10,
        spec_compression_type(after(is_compressed)),
        after(is_compressed),
    );
    let path = spec_maybe_string(after(compression));
    let common_ancestor = spec_cond(v <= 7, spec_maybe_sha_string(after(path)), after(path));
    let common_ancestor_stretched = spec_cond(
        4 <= v <= 7,
        spec_boolean(after(common_ancestor)),
        after(common_ancestor),
    );
    let timestamp = spec_date_time(after(common_ancestor_stretched));
    let file_errors = spec_cond(
        v >= 3,
        spec_vec_of::<FileError>(v, after(timestamp)),
        after(timestamp),
    );
    let missing_nodes = spec_cond(v >= 8, spec_boolean(after(file_errors)), after(file_errors));
    let is_complete = spec_cond(
        v >= 9,
        spec_boolean(after(missing_nodes)),
        after(missing_nodes),
    );
    let plist = spec_cond(v >= 5, spec_sized_bytes(after(is_complete)), after(is_complete));
    let arq_version = spec_cond(v >= 12, spec_non_null_string(after(plist)), after(plist));
    if author is Some && comment is Some && parents is Some && tree_sha is Some
        && expand_key is Some && is_compressed is Some && compression is Some && path is Some
        && common_ancestor is Some && common_ancestor_stretched is Some && timestamp is Some
        && file_errors is Some && missing_nodes is Some && is_complete is Some && plist is Some
        && arq_version is Some {
        Some(
            (
                CommitRecordModel {
                    version: v,
                    author: got(author),
                    comment: got(comment),
                    parents: got(parents),
                    tree_sha: got(tree_sha),
                    expand_key: match got(expand_key) {
                        Some(b) => b,
                        None => false,
                    },
                    compression_type: spec_unwrap_compression_type(
                        got(is_compressed),
                        got(compression),
                    ),
                    path: got(path),
                    timestamp: got(timestamp),
                    file_errors: match got(file_errors) {
                        Some(errors) => errors,
                        None => Seq::empty(),
                    },
                    missing_nodes: got(missing_nodes),
                    is_complete: got(is_complete),
                    plist: match got(plist) {
                        Some(bytes) => bytes,
                        None => Seq::empty(),
                    },
                    arq_version: got(arq_version),
                },
                after(arq_version),
            ),
        )
    } else {
        None
    }
}

/// A whole snapshot record: the header with the version and what follows
/// it. Bytes behind the last field are left over.
pub open spec fn spec_commit_record(s: Seq<u8>) -> Option<(CommitRecordModel, Seq<u8>)> {
    match spec_version_header(COMMIT_PREFIX@, s) {
        Some((v, rest)) => spec_commit_body(v, rest),
        None => None,
    }
}

/// The snapshot that the bytes `data` encode, if they encode one.
pub open spec fn spec_parse(data: Seq<u8>) -> Option<CommitRecordModel> {
    match spec_commit_record(data) {
        Some((c, _)) => Some(c),
        None => None,
    }
}

/// Reads a file error: the path of the file and the error met on it.
pub fn file_error(i: &[u8]) -> (r: Result<(&[u8], FileError), ParseError>)
    ensures
        parsed(r, spec_file_error(i@)),
{
    let (i, path) = non_null_string(i)?;
    let (i, error) = non_null_string(i)?;
    Ok((i, FileError { filename: path, error }))
}

impl Parse for FileError {
    open spec fn model(version: usize, s: Seq<u8>) -> Option<(FileErrorModel, Seq<u8>)> {
        spec_file_error(s)
    }

    fn parse(version: usize, i: &[u8]) -> (r: Result<(&[u8], FileError), ParseError>) {
        file_error(i)
    }
}

/// Reads the list of file errors of a snapshot: a 64-bit count and then
/// that many file errors.
pub fn file_errors(i: &[u8]) -> (r: Result<(&[u8], Vec<FileError>), ParseError>)
    ensures
        parsed(r, spec_vec_of::<FileError>(0, i@)),
{
    vec_of::<FileError>(0, i)
}

/// Reads a parent of a snapshot record of version `commit_version`.
pub fn parent_key(commit_version: usize, i: &[u8]) -> (r: Result<(&[u8], ParentKey), ParseError>)
    ensures
        parsed(r, spec_parent_key(commit_version, i@)),
{
    let (i, sha) = sha_string(i)?;
    let (i, expand) = if commit_version >= 4 {
        let (i, b) = boolean(i)?;
        (i, Some(b))
    } else {
        (i, None)
    };
    let key = ParentKey {
        id: sha,
        expand_key: match expand {
            Some(b) => b,
            None => false,
        },
    };
    Ok((i, key))
}

impl Parse for ParentKey {
    open spec fn model(version: usize, s: Seq<u8>) -> Option<(ParentKeyModel, Seq<u8>)> {
        spec_parent_key(version, s)
    }

    fn parse(version: usize, i: &[u8]) -> (r: Result<(&[u8], ParentKey), ParseError>) {
        parent_key(version, i)
    }
}

/// The literal that a snapshot record starts with: `CommitV`.
pub const COMMIT_PREFIX: [u8; 7] = [0x43, 0x6f, 0x6d, 0x6d, 0x69, 0x74, 0x56];

/// Reads a whole snapshot record.
pub fn commit_record(i: &[u8]) -> (r: Result<(&[u8], CommitRecord), ParseError>)
    ensures
        parsed(r, spec_commit_record(i@)),
{
    let (i, version) = version_header(COMMIT_PREFIX.as_slice(), i)?;
    commit_body(version, i)
}

/// What follows the header of a snapshot record.
pub fn commit_body(version: usize, i: &[u8]) -> (r: Result<(&[u8], CommitRecord), ParseError>)
    ensures
        parsed(r, spec_commit_body(version, i@)),
{
    let (i, author) = maybe_string(i)?;
    let (i, comment) = maybe_string(i)?;
    let (i, parents) = vec_of::<ParentKey>(version, i)?;
    let (i, tree_sha) = sha_string(i)?;
    let (i, expand_key) = if version >= 4 {
        let (i, b) = boolean(i)?;
        (i, Some(b))
    } else {
        (i, None)
    };
    let (i, is_compressed) = if 8 <= version && version <= 9 {
        let (i, b) = boolean(i)?;
        (i, Some(b))
    } else {
        (i, None)
    };
    let (i, compression) = if version >= 10 {
        let (i, c) = compression_type(i)?;
        (i, Some(c))
    } else {
        (i, None)
    };
    let (i, path) = maybe_string(i)?;
    let (i, _common_ancestor) = if version <= 7 {
        let (i, h) = maybe_sha_string(i)?;
        (i, Some(h))
    } else {
        (i, None)
    };
    let (i, _common_ancestor_stretched) = if 4 <= version && version <= 7 {
        let (i, b) = boolean(i)?;
        (i, Some(b))
    } else {
        (i, None)
    };
    let (i, time_stamp) = date_time(i)?;
    let (i, file_errors) = if version >= 3 {
        vec_of::<FileError>(version, i)?
    } else {
        let none: Vec<FileError> = Vec::new();
        assert(none.deep_view() =~= Seq::<FileErrorModel>::empty());
        (i, none)
    };
    let (i, missing_nodes) = if version >= 8 {
        let (i, b) = boolean(i)?;
        (i, Some(b))
    } else {
        (i, None)
    };
    let (i, is_complete) = if version >= 9 {
        let (i, b) = boolean(i)?;
        (i, Some(b))
    } else {
        (i, None)
    };
    let (i, plist) = if version >= 5 {
        let (i, bytes) = sized_bytes(i)?;
        (i, slice_to_vec(bytes))
    } else {
        (i, Vec::new())
    };
    let (i, arq_version) = if version >= 12 {
        let (i, s) = non_null_string(i)?;
        (i, Some(s))
    } else {
        (i, None)
    };
    let compression_type = unwrap_compression_type(is_compressed, compression);
    let record = CommitRecord {
        version,
        author,
        comment,
        parents,
        tree_sha,
        expand_key: match expand_key {
            Some(b) => b,
            None => false,
        },
        compression_type,
        path,
        timestamp: time_stamp,
        file_errors,
        missing_nodes,
        is_complete,
        plist,
        arq_version,
    };
    Ok((i, record))
}

/// Decodes a snapshot record. Anything that is no well-formed record is
/// malformed data; what the record leaves over of `data` is dropped.
pub fn parse(data: &[u8]) -> (r: Result<CommitRecord, RepoError>)
    ensures
        match spec_parse(data@) {
            Some(c) => r matches Ok(x) && x.deep_view() == c,
            None => r == Err::<CommitRecord, RepoError>(RepoError::MalformedData),
        },
{
    match commit_record(data) {
        Ok((_, c)) => Ok(c),
        Err(_) => Err(RepoError::MalformedData),
    }
}

} // verus!
