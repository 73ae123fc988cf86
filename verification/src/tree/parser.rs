//! The decoder for directory records.
//!
//! A record starts with `TreeV` and three digits, the version of its
//! format. Which fields follow depends on that version: a field that a
//! version does not hold takes no bytes.

use crate::constructs::{
    after, be_i32, be_i64, be_u32, be_u64, boolean, compression_type, got, maybe_date_time,
    maybe_sha_string, maybe_string, non_null_string, parsed, short_vec_of, spec_be_i32,
    spec_be_i64, spec_be_u32, spec_be_u64, spec_boolean, spec_compression_type, spec_cond,
    spec_maybe_date_time, spec_maybe_sha_string, spec_maybe_string, spec_non_null_string,
    spec_short_vec_of, spec_version_header, version_header, Parse, ParseError, Timestamp,
};
use crate::tree::tree::{
    storage_of_tag, BlobKey, BlobKeyModel, Node, NodeModel, StorageType, Tree, TreeModel,
};
use crate::{CompressionType, RepoError};
use vstd::prelude::*;

verus! {

/// A 32-bit tag that names a storage kind.
pub open spec fn spec_storage_type(s: Seq<u8>) -> Option<(StorageType, Seq<u8>)> {
    match spec_be_u32(s) {
        Some((n, rest)) => match storage_of_tag(n) {
            Some(t) => Some((t, rest)),
            None => None,
        },
        None => None,
    }
}

/// The fields of a blob key behind a hash that is present: versions below
/// 14 have no stretch flag (the key is not stretched), those below 17 no
/// storage fields (the blob is in S3).
pub open spec fn spec_blob_key_behind(v: usize, sha: Seq<u8>, s: Seq<u8>) -> Option<
    (BlobKeyModel, Seq<u8>),
> {
    let expand = spec_cond(v >= 14, spec_boolean(s), s);
    let storage = spec_cond(v >= 17, spec_storage_type(after(expand)), after(expand));
    let archive_id = spec_cond(v >= 17, spec_maybe_string(after(storage)), after(storage));
    let size = spec_cond(v >= 17, spec_be_u64(after(archive_id)), after(archive_id));
    let date = spec_cond(v >= 17, spec_maybe_date_time(after(size)), after(size));
    if expand is Some && storage is Some && archive_id is Some && size is Some && date is Some {
        Some(
            (
                BlobKeyModel {
                    sha,
                    stretch_key: match got(expand) {
                        Some(b) => b,
                        None => false,
                    },
                    storage_type: match got(storage) {
                        Some(t) => t,
                        None => StorageType::S3,
                    },
                    size: got(size),
                    upload_date: match got(date) {
                        Some(d) => d,
                        None => None,
                    },
                },
                after(date),
            ),
        )
    } else {
        None
    }
}

/// A blob key, or none where the hash is absent. Behind an absent hash
/// nothing more is read: the key ends with the flag that says so, whatever
/// the version. Behind a hash that is present the other fields follow.
pub open spec fn spec_maybe_blob_key(v: usize, s: Seq<u8>) -> Option<
    (Option<BlobKeyModel>, Seq<u8>),
> {
    match spec_maybe_sha_string(s) {
        Some((Some(sha), rest)) => match spec_blob_key_behind(v, sha, rest) {
            Some((key, rest)) => Some((Some(key), rest)),
            None => None,
        },
        Some((None, rest)) => Some((None, rest)),
        None => None,
    }
}

/// A blob key that has to be present.
pub open spec fn spec_blob_key(v: usize, s: Seq<u8>) -> Option<(BlobKeyModel, Seq<u8>)> {
    match spec_maybe_blob_key(v, s) {
        Some((Some(k), rest)) => Some((k, rest)),
        _ => None,
    }
}

/// The compression kind of a slot: a 32-bit tag from version 19 on, one
/// byte (true for gzip) in versions 12 to 18, and before that nothing, the
/// slot being uncompressed.
pub open spec fn spec_compression_flag_or_type(v: usize, s: Seq<u8>) -> Option<
    (CompressionType, Seq<u8>),
> {
    if v >= 19 {
        spec_compression_type(s)
    } else if 12 <= v <= 18 {
        match spec_boolean(s) {
            Some((b, rest)) => Some(
                (
                    if b {
                        CompressionType::GZip
                    } else {
                        CompressionType::Uncompressed
                    },
                    rest,
                ),
            ),
            None => None,
        }
    } else {
        Some((CompressionType::Uncompressed, s))
    }
}

/// The instant that a record gives as seconds and nanoseconds. Of the
/// nanoseconds the low 32 bits are kept.
pub open spec fn timestamp_of_parts(secs: i64, nanos: i64) -> Timestamp {
    Timestamp { secs, nanos: nanos as u32 }
}

/// The 64 flag bits that a record gives in two halves: `extended` above
/// `base`.
pub open spec fn combined_finder_flags(base: u32, extended: u32) -> u64 {
    (extended as int * 0x1_0000_0000 + base as int) as u64
}

/// One entry of a directory record of version `v`.
pub open spec fn spec_node(v: usize, s: Seq<u8>) -> Option<(NodeModel, Seq<u8>)> {
    let name = spec_non_null_string(s);
    let is_tree = spec_boolean(after(name));
    let has_missing_items = spec_cond(v >= 18, spec_boolean(after(is_tree)), after(is_tree));
    let data_compression = spec_compression_flag_or_type(v, after(has_missing_items));
    let xattrs_compression = spec_compression_flag_or_type(v, after(data_compression));
    let acl_compression = spec_compression_flag_or_type(v, after(xattrs_compression));
    let data_blob_keys = spec_short_vec_of::<BlobKey>(v, after(acl_compression));
    let data_size = spec_be_u64(after(data_blob_keys));
    let thumbnail_sha = spec_cond(
        v < 18,
        spec_maybe_sha_string(after(data_size)),
        after(data_size),
    );
    let stretch_thumbnail_key = spec_cond(
        14 <= v <= 17,
        spec_boolean(after(thumbnail_sha)),
        after(thumbnail_sha),
    );
    let preview_sha = spec_cond(
        v < 18,
        spec_maybe_sha_string(after(stretch_thumbnail_key)),
        after(stretch_thumbnail_key),
    );
    let stretch_preview_key = spec_cond(
        14 <= v <= 17,
        spec_boolean(after(preview_sha)),
        after(preview_sha),
    );
    let xattrs_blob_key = spec_maybe_blob_key(v, after(stretch_preview_key));
    let xattrs_size = spec_be_u64(after(xattrs_blob_key));
    let acl_blob_key = spec_maybe_blob_key(v, after(xattrs_size));
    let user_id = spec_be_i32(after(acl_blob_key));
    let group_id = spec_be_i32(after(user_id));
    let file_mode = spec_be_i32(after(group_id));
    let mtime_sec = spec_be_i64(after(file_mode));
    let mtime_nsec = spec_be_i64(after(mtime_sec));
    let flags = spec_be_u64(after(mtime_nsec));
    let finder_flags = spec_be_u32(after(flags));
    let extended_finder_flags = spec_be_u32(after(finder_flags));
    let file_type = spec_maybe_string(after(extended_finder_flags));
    let creator = spec_maybe_string(after(file_type));
    let hide_extension = spec_boolean(after(creator));
    let st_dev = spec_be_i32(after(hide_extension));
    let st_ino = spec_be_i32(after(st_dev));
    let st_nlink = spec_be_u32(after(st_ino));
    let st_rdev = spec_be_i32(after(st_nlink));
    let ctime_sec = spec_be_i64(after(st_rdev));
    let ctime_nsec = spec_be_i64(after(ctime_sec));
    let create_sec = spec_be_i64(after(ctime_nsec));
    let create_nsec = spec_be_i64(after(create_sec));
    let st_blocks = spec_be_i64(after(create_nsec));
    let st_block_size = spec_be_i32(after(st_blocks));
    if name is Some && is_tree is Some && has_missing_items is Some && data_compression is Some
        && xattrs_compression is Some && acl_compression is Some && data_blob_keys is Some
        && data_size is Some && thumbnail_sha is Some && stretch_thumbnail_key is Some
        && preview_sha is Some && stretch_preview_key is Some && xattrs_blob_key is Some
        && xattrs_size is Some && acl_blob_key is Some && user_id is Some && group_id is Some
        && file_mode is Some && mtime_sec is Some && mtime_nsec is Some && flags is Some
        && finder_flags is Some && extended_finder_flags is Some && file_type is Some
        && creator is Some && hide_extension is Some && st_dev is Some && st_ino is Some
        && st_nlink is Some && st_rdev is Some && ctime_sec is Some && ctime_nsec is Some
        && create_sec is Some && create_nsec is Some && st_blocks is Some
        && st_block_size is Some {
        Some(
            (
                NodeModel {
                    name: got(name),
                    is_tree: got(is_tree),
                    has_missing_items: got(has_missing_items),
                    data_compression_type: got(data_compression),
                    data_blob_keys: got(data_blob_keys),
                    data_size: got(data_size),
                    xattrs_compression_type: got(xattrs_compression),
                    xattrs_blob_key: got(xattrs_blob_key),
                    xattrs_size: got(xattrs_size),
                    acl_compression_type: got(acl_compression),
                    acl_blob_key: got(acl_blob_key),
                    user_id: got(user_id),
                    group_id: got(group_id),
                    file_mode: got(file_mode),
                    flags: got(flags),
                    finder_flags: combined_finder_flags(
                        got(finder_flags),
                        got(extended_finder_flags),
                    ),
                    mod_time: timestamp_of_parts(got(mtime_sec), got(mtime_nsec)),
                    c_time: timestamp_of_parts(got(ctime_sec), got(ctime_nsec)),
                    create_time: timestamp_of_parts(got(create_sec), got(create_nsec)),
                    file_type: got(file_type),
                    creator: got(creator),
                    hide_extension: got(hide_extension),
                    st_dev: got(st_dev),
                    st_ino: got(st_ino),
                    st_nlink: got(st_nlink),
                    st_rdev: got(st_rdev),
                    st_blocks: got(st_blocks),
                    st_block_size: got(st_block_size),
                },
                after(st_block_size),
            ),
        )
    } else {
        None
    }
}

/// A block size as the record gives it, in 32 bits.
pub open spec fn spec_block_size(n: u32) -> usize {
    n as usize
}

/// The attributes of the directory itself, as they follow the header of a
/// directory record of version `v`. The two lists are still empty.
pub open spec fn spec_tree_attributes(v: usize, s: Seq<u8>) -> Option<(TreeModel, Seq<u8>)> {
    let xattrs_compression = spec_compression_flag_or_type(v, s);
    let acl_compression = spec_compression_flag_or_type(v, after(xattrs_compression));
    let xattrs_blob_key = spec_maybe_blob_key(v, after(acl_compression));
    let xattrs_blob_size = spec_be_u64(after(xattrs_blob_key));
    let acl_blob_key = spec_maybe_blob_key(v, after(xattrs_blob_size));
    let user_id = spec_be_i32(after(acl_blob_key));
    let group_id = spec_be_i32(after(user_id));
    let file_mode = spec_be_i32(after(group_id));
    let mtime_sec = spec_be_i64(after(file_mode));
    let mtime_nsec = spec_be_i64(after(mtime_sec));
    let flags = spec_be_u64(after(mtime_nsec));
    let finder_flags = spec_be_u32(after(flags));
    let extended_finder_flags = spec_be_u32(after(finder_flags));
    let st_dev = spec_be_i32(after(extended_finder_flags));
    let st_ino = spec_be_i32(after(st_dev));
    let st_nlink = spec_be_u32(after(st_ino));
    let st_rdev = spec_be_i32(after(st_nlink));
    let ctime_sec = spec_be_i64(after(st_rdev));
    let ctime_nsec = spec_be_i64(after(ctime_sec));
    let st_blocks = spec_be_i64(after(ctime_nsec));
    let st_block_size = spec_be_u32(after(st_blocks));
    let size_on_disk = spec_cond(
        11 <= v <= 16,
        spec_be_u64(after(st_block_size)),
        after(st_block_size),
    );
    let create_sec = spec_be_i64(after(size_on_disk));
    let create_nsec = spec_be_i64(after(create_sec));
    if xattrs_compression is Some && acl_compression is Some && xattrs_blob_key is Some && xattrs_blob_size is Some && acl_blob_key is Some
        && user_id is Some && group_id is Some && file_mode is Some && mtime_sec is Some
        && mtime_nsec is Some && flags is Some && finder_flags is Some
        && extended_finder_flags is Some && st_dev is Some && st_ino is Some && st_nlink is Some
        && st_rdev is Some && ctime_sec is Some && ctime_nsec is Some && st_blocks is Some
        && st_block_size is Some && size_on_disk is Some && create_sec is Some
        && create_nsec is Some {
        Some(
            (
                TreeModel {
                    version: v,
                    xattrs_compression_type: got(xattrs_compression),
                    acl_compression_type: got(acl_compression),
                    xattrs_blob_key: got(xattrs_blob_key),
                    xattrs_blob_size: got(xattrs_blob_size),
                    acl_blob_key: got(acl_blob_key),
                    user_id: got(user_id),
                    group_id: got(group_id),
                    file_mode: got(file_mode),
                    mod_time: timestamp_of_parts(got(mtime_sec), got(mtime_nsec)),
                    flags: got(flags),
                    finder_flags: combined_finder_flags(
                        got(finder_flags),
                        got(extended_finder_flags),
                    ),
                    st_dev: got(st_dev),
                    st_ino: got(st_ino),
                    st_nlink: got(st_nlink),
                    st_rdev: got(st_rdev),
                    c_time: timestamp_of_parts(got(ctime_sec), got(ctime_nsec)),
                    st_blocks: got(st_blocks),
                    st_block_size: spec_block_size(got(st_block_size)),
                    size_on_disk: match got(size_on_disk) {
                        Some(n) => n,
                        None => 0,
                    },
                    creation_time: timestamp_of_parts(got(create_sec), got(create_nsec)),
                    missing_nodes: Seq::empty(),
                    nodes: Seq::empty(),
                },
                after(create_nsec),
            ),
        )
    } else {
        None
    }
}

/// What follows the header of a directory record of version `v`: the
/// directory's own attributes, from version 18 on the names of the entries
/// it is known to lack, and its entries.
pub open spec fn spec_tree_body(v: usize, s: Seq<u8>) -> Option<(TreeModel, Seq<u8>)> {
    let attributes = spec_tree_attributes(v, s);
    let missing_nodes = spec_cond(
        v >= 18,
        spec_short_vec_of::<String>(v, after(attributes)),
        after(attributes),
    );
    let nodes = spec_short_vec_of::<Node>(v, after(missing_nodes));
    if attributes is Some && missing_nodes is Some && nodes is Some {
        Some(
            (
                TreeModel {
                    missing_nodes: match got(missing_nodes) {
                        Some(names) => names,
                        None => Seq::empty(),
                    },
                    nodes: got(nodes),
                    ..got(attributes)
                },
                after(nodes),
            ),
        )
    } else {
        None
    }
}

/// A whole directory record: the header with the version and what follows
/// it. Bytes behind the last entry are left over.
pub open spec fn spec_tree(s: Seq<u8>) -> Option<(TreeModel, Seq<u8>)> {
    match spec_version_header(TREE_HEADER_PREFIX@, s) {
        Some((v, rest)) => spec_tree_body(v, rest),
        None => None,
    }
}

/// The directory that the bytes `data` encode, if they encode one.
pub open spec fn spec_parse(data: Seq<u8>) -> Option<TreeModel> {
    match spec_tree(data) {
        Some((t, _)) => Some(t),
        None => None,
    }
}

/// Reads a storage kind: a 32-bit tag, which has to be a known one.
pub fn storage_type(i: &[u8]) -> (r: Result<(&[u8], StorageType), ParseError>)
    ensures
        parsed(r, spec_storage_type(i@)),
{
    match be_u32(i) {
        Err(e) => Err(e),
        Ok((tail, n)) => match StorageType::try_from(n) {
            Ok(t) => Ok((tail, t)),
            Err(_) => Err(ParseError),
        },
    }
}

/// Reads a blob key that may be absent, in a directory record of version
/// `tree_version`.
pub fn maybe_blob_key(tree_version: usize, i: &[u8]) -> (r: Result<
    (&[u8], Option<BlobKey>),
    ParseError,
>)
    ensures
        parsed(r, spec_maybe_blob_key(tree_version, i@)),
{
    let (i, maybe_sha) = maybe_sha_string(i)?;
    let sha = match maybe_sha {
        Some(sha) => sha,
        None => {
            return Ok((i, None));
        },
    };
    let (i, expand) = if tree_version >= 14 {
        let (i, b) = boolean(i)?;
        (i, Some(b))
    } else {
        (i, None)
    };
    let (i, storage) = if tree_version >= 17 {
        let (i, t) = storage_type(i)?;
        (i, Some(t))
    } else {
        (i, None)
    };
    let (i, _archive_id) = if tree_version >= 17 {
        let (i, a) = maybe_string(i)?;
        (i, Some(a))
    } else {
        (i, None)
    };
    let (i, size) = if tree_version >= 17 {
        let (i, n) = be_u64(i)?;
        (i, Some(n))
    } else {
        (i, None)
    };
    let (i, date) = if tree_version >= 17 {
        let (i, d) = maybe_date_time(i)?;
        (i, Some(d))
    } else {
        (i, None)
    };
    let key = BlobKey {
        sha,
        stretch_key: match expand {
            Some(b) => b,
            None => false,
        },
        storage_type: match storage {
            Some(t) => t,
            None => StorageType::S3,
        },
        size,
        upload_date: match date {
            Some(d) => d,
            None => None,
        },
    };
    Ok((i, Some(key)))
}

/// Reads a blob key that has to be present. An absent one is an error.
pub fn blob_key(tree_version: usize, i: &[u8]) -> (r: Result<(&[u8], BlobKey), ParseError>)
    ensures
        parsed(r, spec_blob_key(tree_version, i@)),
{
    match maybe_blob_key(tree_version, i) {
        Ok((tail, Some(k))) => Ok((tail, k)),
        _ => Err(ParseError),
    }
}

impl Parse for BlobKey {
    open spec fn model(version: usize, s: Seq<u8>) -> Option<(BlobKeyModel, Seq<u8>)> {
        spec_blob_key(version, s)
    }

    fn parse(version: usize, i: &[u8]) -> (r: Result<(&[u8], BlobKey), ParseError>) {
        blob_key(version, i)
    }
}

/// The instant that a record gives as seconds and nanoseconds.
pub fn as_datetime(s: i64, ns: i64) -> (t: Timestamp)
    ensures
        t == timestamp_of_parts(s, ns),
{
    Timestamp { secs: s, nanos: #[verifier::truncate] (ns as u32) }
}

/// The names of the entries that a directory is known to lack.
pub fn missing_nodes(i: &[u8]) -> (r: Result<(&[u8], Vec<String>), ParseError>)
    ensures
        parsed(r, spec_short_vec_of::<String>(0, i@)),
{
    short_vec_of::<String>(0, i)
}

/// Reads a list of blob keys: a 32-bit count and then that many keys, all
/// of which have to be present.
pub fn blob_keys(tree_version: usize, i: &[u8]) -> (r: Result<(&[u8], Vec<BlobKey>), ParseError>)
    ensures
        parsed(r, spec_short_vec_of::<BlobKey>(tree_version, i@)),
{
    short_vec_of::<BlobKey>(tree_version, i)
}

/// Reads the compression kind of a slot in the form that the version
/// `tree_version` holds it in.
pub fn compression_flag_or_type(tree_version: usize, i: &[u8]) -> (r: Result<
    (&[u8], CompressionType),
    ParseError,
>)
    ensures
        parsed(r, spec_compression_flag_or_type(tree_version, i@)),
{
    if tree_version >= 19 {
        compression_type(i)
    } else if 12 <= tree_version && tree_version <= 18 {
        match boolean(i) {
            Err(e) => Err(e),
            Ok((tail, b)) => Ok(
                (
                    tail,
                    if b {
                        CompressionType::GZip
                    } else {
                        CompressionType::Uncompressed
                    },
                ),
            ),
        }
    } else {
        Ok((i, CompressionType::Uncompressed))
    }
}

/// The 64 flag bits that a record gives in two halves.
fn combine_finder_flags(base: u32, extended: u32) -> (r: u64)
    ensures
        r == combined_finder_flags(base, extended),
{
    (extended as u64) * 0x1_0000_0000 + (base as u64)
}

/// Reads one entry of a directory record of version `tree_version`.
pub fn node(tree_version: usize, i: &[u8]) -> (r: Result<(&[u8], Node), ParseError>)
    ensures
        parsed(r, spec_node(tree_version, i@)),
{
    let (i, name) = non_null_string(i)?;
    let (i, is_tree) = boolean(i)?;
    let (i, has_missing_items) = if tree_version >= 18 {
        let (i, b) = boolean(i)?;
        (i, Some(b))
    } else {
        (i, None)
    };
    let (i, data_compression_type) = compression_flag_or_type(tree_version, i)?;
    let (i, xattrs_compression_type) = compression_flag_or_type(tree_version, i)?;
    let (i, acl_compression_type) = compression_flag_or_type(tree_version, i)?;
    let (i, data_blob_keys) = blob_keys(tree_version, i)?;
    let (i, data_size) = be_u64(i)?;
    let (i, _thumbnail_sha) = if tree_version < 18 {
        let (i, h) = maybe_sha_string(i)?;
        (i, Some(h))
    } else {
        (i, None)
    };
    let (i, _stretch_thumbnail_key) = if 14 <= tree_version && tree_version <= 17 {
        let (i, b) = boolean(i)?;
        (i, Some(b))
    } else {
        (i, None)
    };
    let (i, _preview_sha) = if tree_version < 18 {
        let (i, h) = maybe_sha_string(i)?;
        (i, Some(h))
    } else {
        (i, None)
    };
    let (i, _stretch_preview_key) = if 14 <= tree_version && tree_version <= 17 {
        let (i, b) = boolean(i)?;
        (i, Some(b))
    } else {
        (i, None)
    };
    let (i, xattrs_blob_key) = maybe_blob_key(tree_version, i)?;
    let (i, xattrs_size) = be_u64(i)?;
    let (i, acl_blob_key) = maybe_blob_key(tree_version, i)?;
    let (i, user_id) = be_i32(i)?;
    let (i, group_id) = be_i32(i)?;
    let (i, file_mode) = be_i32(i)?;
    let (i, mtime_sec) = be_i64(i)?;
    let (i, mtime_nsec) = be_i64(i)?;
    let (i, flags) = be_u64(i)?;
    let (i, finder_flags) = be_u32(i)?;
    let (i, extended_finder_flags) = be_u32(i)?;
    let (i, file_type) = maybe_string(i)?;
    let (i, creator) = maybe_string(i)?;
    let (i, hide_extension) = boolean(i)?;
    let (i, st_dev) = be_i32(i)?;
    let (i, st_ino) = be_i32(i)?;
    let (i, st_nlink) = be_u32(i)?;
    let (i, st_rdev) = be_i32(i)?;
    let (i, ctime_sec) = be_i64(i)?;
    let (i, ctime_nsec) = be_i64(i)?;
    let (i, create_time_sec) = be_i64(i)?;
    let (i, create_time_nsec) = be_i64(i)?;
    let (i, st_blocks) = be_i64(i)?;
    let (i, st_block_size) = be_i32(i)?;
    let n = Node {
        name,
        is_tree,
        has_missing_items,
        data_compression_type,
        data_blob_keys,
        data_size,
        xattrs_compression_type,
        xattrs_blob_key,
        xattrs_size,
        acl_compression_type,
        acl_blob_key,
        user_id,
        group_id,
        file_mode,
        flags,
        finder_flags: combine_finder_flags(finder_flags, extended_finder_flags),
        mod_time: as_datetime(mtime_sec, mtime_nsec),
        c_time: as_datetime(ctime_sec, ctime_nsec),
        create_time: as_datetime(create_time_sec, create_time_nsec),
        file_type,
        creator,
        hide_extension,
        st_dev,
        st_ino,
        st_nlink,
        st_rdev,
        st_blocks,
        st_block_size,
    };
    Ok((i, n))
}

impl Parse for Node {
    open spec fn model(version: usize, s: Seq<u8>) -> Option<(NodeModel, Seq<u8>)> {
        spec_node(version, s)
    }

    fn parse(version: usize, i: &[u8]) -> (r: Result<(&[u8], Node), ParseError>) {
        node(version, i)
    }
}

/// Reads the entries of a directory: a 32-bit count and then that many
/// entries.
pub fn nodes(tree_version: usize, i: &[u8]) -> (r: Result<(&[u8], Vec<Node>), ParseError>)
    ensures
        parsed(r, spec_short_vec_of::<Node>(tree_version, i@)),
{
    short_vec_of::<Node>(tree_version, i)
}

/// The literal that a directory record starts with: `TreeV`.
pub const TREE_HEADER_PREFIX: [u8; 5] = [0x54, 0x72, 0x65, 0x65, 0x56];

/// Reads a whole directory record.
pub fn tree(i: &[u8]) -> (r: Result<(&[u8], Tree), ParseError>)
    ensures
        parsed(r, spec_tree(i@)),
{
    let (i, version) = version_header(TREE_HEADER_PREFIX.as_slice(), i)?;
    tree_body(version, i)
}

/// What follows the header of a directory record.
pub fn tree_body(version: usize, i: &[u8]) -> (r: Result<(&[u8], Tree), ParseError>)
    ensures
        parsed(r, spec_tree_body(version, i@)),
{
    let (i, attributes) = tree_attributes(version, i)?;
    let (i, missing_nodes) = if version >= 18 {
        short_vec_of::<String>(version, i)?
    } else {
        let none: Vec<String> = Vec::new();
        assert(none.deep_view() =~= Seq::<Seq<char>>::empty());
        (i, none)
    };
    let (i, nodes) = nodes(version, i)?;
    let mut t = attributes;
    t.missing_nodes = missing_nodes;
    t.nodes = nodes;
    Ok((i, t))
}

/// A block size as the record gives it, in 32 bits.
fn block_size(n: u32) -> (r: usize)
    ensures
        r == spec_block_size(n),
{
    n as usize
}

/// The attributes of the directory itself; the two lists are left empty.
pub fn tree_attributes(version: usize, i: &[u8]) -> (r: Result<(&[u8], Tree), ParseError>)
    ensures
        parsed(r, spec_tree_attributes(version, i@)),
{
    let (i, xattrs_compression_type) = compression_flag_or_type(version, i)?;
    let (i, acl_compression_type) = compression_flag_or_type(version, i)?;
    let (i, xattrs_blob_key) = maybe_blob_key(version, i)?;
    let (i, xattrs_blob_size) = be_u64(i)?;
    let (i, acl_blob_key) = maybe_blob_key(version, i)?;
    let (i, uid) = be_i32(i)?;
    let (i, gid) = be_i32(i)?;
    let (i, file_mode) = be_i32(i)?;
    let (i, mtime_sec) = be_i64(i)?;
    let (i, mtime_nsec) = be_i64(i)?;
    let (i, flags) = be_u64(i)?;
    let (i, finder_flags) = be_u32(i)?;
    let (i, extended_finder_flags) = be_u32(i)?;
    let (i, st_dev) = be_i32(i)?;
    let (i, st_ino) = be_i32(i)?;
    let (i, st_nlink) = be_u32(i)?;
    let (i, st_rdev) = be_i32(i)?;
    let (i, ctime_sec) = be_i64(i)?;
    let (i, ctime_nsec) = be_i64(i)?;
    let (i, st_blocks) = be_i64(i)?;
    let (i, st_block_size) = be_u32(i)?;
    let (i, size_on_disk) = if 11 <= version && version <= 16 {
        let (i, n) = be_u64(i)?;
        (i, Some(n))
    } else {
        (i, None)
    };
    let (i, create_time_sec) = be_i64(i)?;
    let (i, create_time_nsec) = be_i64(i)?;
    let missing_nodes: Vec<String> = Vec::new();
    let nodes: Vec<Node> = Vec::new();
    assert(missing_nodes.deep_view() =~= Seq::<Seq<char>>::empty());
    assert(nodes.deep_view() =~= Seq::<NodeModel>::empty());
    let t = Tree {
        version,
        xattrs_compression_type,
        acl_compression_type,
        xattrs_blob_key,
        xattrs_blob_size,
        acl_blob_key,
        user_id: uid,
        group_id: gid,
        file_mode,
        mod_time: as_datetime(mtime_sec, mtime_nsec),
        flags,
        finder_flags: combine_finder_flags(finder_flags, extended_finder_flags),
        st_dev,
        st_ino,
        st_nlink,
        st_rdev,
        c_time: as_datetime(ctime_sec, ctime_nsec),
        st_blocks,
        st_block_size: block_size(st_block_size),
        size_on_disk: match size_on_disk {
            Some(n) => n,
            None => 0,
        },
        creation_time: as_datetime(create_time_sec, create_time_nsec),
        missing_nodes,
        nodes,
    };
    Ok((i, t))
}

/// Decodes a directory record. Anything that is no well-formed record is
/// malformed data; what the record leaves over of `data` is dropped.
pub fn parse(data: &[u8]) -> (r: Result<Tree, RepoError>)
    ensures
        match spec_parse(data@) {
            Some(t) => r matches Ok(x) && x.deep_view() == t,
            None => r == Err::<Tree, RepoError>(RepoError::MalformedData),
        },
{
    match tree(data) {
        Ok((_, t)) => Ok(t),
        Err(_) => Err(RepoError::MalformedData),
    }
}

} // verus!
