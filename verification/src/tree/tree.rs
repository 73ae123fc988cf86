//! What a directory record holds once it is decoded.

use crate::constructs::Timestamp;
use crate::sha::SHA1;
use crate::CompressionType;
use vstd::prelude::*;

verus! {

/// Where the bytes of a blob are kept.
#[derive(Debug, Clone, Copy, PartialEq, Eq, Structural)]
pub enum StorageType {
    Unspecified,
    S3,
    Glacier,
}

/// The storage kind that a 32-bit tag stands for, if any.
pub open spec fn storage_of_tag(n: u32) -> Option<StorageType> {
    if n == 0 {
        Some(StorageType::Unspecified)
    } else if n == 1 {
        Some(StorageType::S3)
    } else if n == 2 {
        Some(StorageType::Glacier)
    } else {
        None
    }
}

impl StorageType {
    /// The storage kind that the tag `n` stands for, or the tag itself
    /// where it stands for none.
    pub fn try_from(n: u32) -> (r: Result<StorageType, u32>)
        ensures
            r == match storage_of_tag(n) {
                Some(t) => Ok::<StorageType, u32>(t),
                None => Err::<StorageType, u32>(n),
            },
    {
        if n == 0 {
            Ok(StorageType::Unspecified)
        } else if n == 1 {
            Ok(StorageType::S3)
        } else if n == 2 {
            Ok(StorageType::Glacier)
        } else {
            Err(n)
        }
    }
}

impl DeepView for StorageType {
    type V = StorageType;

    open spec fn deep_view(&self) -> StorageType {
        *self
    }
}

/// How to find a blob and how to decrypt it.
#[derive(Debug, Clone, Copy, PartialEq, Eq)]
pub struct BlobKey {
    pub sha: SHA1,
    pub stretch_key: bool,
    pub storage_type: StorageType,
    pub size: Option<u64>,
    pub upload_date: Option<Timestamp>,
}

/// A blob key as a mathematical value.
pub struct BlobKeyModel {
    pub sha: Seq<u8>,
    pub stretch_key: bool,
    pub storage_type: StorageType,
    pub size: Option<u64>,
    pub upload_date: Option<Timestamp>,
}

impl DeepView for BlobKey {
    type V = BlobKeyModel;

    open spec fn deep_view(&self) -> BlobKeyModel {
        BlobKeyModel {
            sha: self.sha@,
            stretch_key: self.stretch_key,
            storage_type: self.storage_type,
            size: self.size,
            upload_date: self.upload_date,
        }
    }
}

/// One entry of a directory: a file, or a directory of its own.
#[derive(Debug, Clone, PartialEq, Eq)]
pub struct Node {
    pub name: String,
    pub is_tree: bool,
    pub has_missing_items: Option<bool>,
    pub data_compression_type: CompressionType,
    pub data_blob_keys: Vec<BlobKey>,
    pub data_size: u64,
    pub xattrs_compression_type: CompressionType,
    pub xattrs_blob_key: Option<BlobKey>,
    pub xattrs_size: u64,
    pub acl_compression_type: CompressionType,
    pub acl_blob_key: Option<BlobKey>,
    pub user_id: i32,
    pub group_id: i32,
    pub file_mode: i32,
    pub flags: u64,
    pub finder_flags: u64,
    pub mod_time: Timestamp,
    pub c_time: Timestamp,
    pub create_time: Timestamp,
    pub file_type: Option<String>,
    pub creator: Option<String>,
    pub hide_extension: bool,
    pub st_dev: i32,
    pub st_ino: i32,
    pub st_nlink: u32,
    pub st_rdev: i32,
    pub st_blocks: i64,
    pub st_block_size: i32,
}

/// A directory entry as a mathematical value.
pub struct NodeModel {
    pub name: Seq<char>,
    pub is_tree: bool,
    pub has_missing_items: Option<bool>,
    pub data_compression_type: CompressionType,
    pub data_blob_keys: Seq<BlobKeyModel>,
    pub data_size: u64,
    pub xattrs_compression_type: CompressionType,
    pub xattrs_blob_key: Option<BlobKeyModel>,
    pub xattrs_size: u64,
    pub acl_compression_type: CompressionType,
    pub acl_blob_key: Option<BlobKeyModel>,
    pub user_id: i32,
    pub group_id: i32,
    pub file_mode: i32,
    pub flags: u64,
    pub finder_flags: u64,
    pub mod_time: Timestamp,
    pub c_time: Timestamp,
    pub create_time: Timestamp,
    pub file_type: Option<Seq<char>>,
    pub creator: Option<Seq<char>>,
    pub hide_extension: bool,
    pub st_dev: i32,
    pub st_ino: i32,
    pub st_nlink: u32,
    pub st_rdev: i32,
    pub st_blocks: i64,
    pub st_block_size: i32,
}

impl DeepView for Node {
    type V = NodeModel;

    open spec fn deep_view(&self) -> NodeModel {
        NodeModel {
            name: self.name@,
            is_tree: self.is_tree,
            has_missing_items: self.has_missing_items,
            data_compression_type: self.data_compression_type,
            data_blob_keys: self.data_blob_keys.deep_view(),
            data_size: self.data_size,
            xattrs_compression_type: self.xattrs_compression_type,
            xattrs_blob_key: self.xattrs_blob_key.deep_view(),
            xattrs_size: self.xattrs_size,
            acl_compression_type: self.acl_compression_type,
            acl_blob_key: self.acl_blob_key.deep_view(),
            user_id: self.user_id,
            group_id: self.group_id,
            file_mode: self.file_mode,
            flags: self.flags,
            finder_flags: self.finder_flags,
            mod_time: self.mod_time,
            c_time: self.c_time,
            create_time: self.create_time,
            file_type: self.file_type.deep_view(),
            creator: self.creator.deep_view(),
            hide_extension: self.hide_extension,
            st_dev: self.st_dev,
            st_ino: self.st_ino,
            st_nlink: self.st_nlink,
            st_rdev: self.st_rdev,
            st_blocks: self.st_blocks,
            st_block_size: self.st_block_size,
        }
    }
}

/// A directory: its own attributes and its entries.
#[derive(Debug, Clone, PartialEq, Eq)]
pub struct Tree {
    pub version: usize,
    pub xattrs_compression_type: CompressionType,
    pub acl_compression_type: CompressionType,
    pub xattrs_blob_key: Option<BlobKey>,
    pub xattrs_blob_size: u64,
    pub acl_blob_key: Option<BlobKey>,
    pub user_id: i32,
    pub group_id: i32,
    pub file_mode: i32,
    pub mod_time: Timestamp,
    pub flags: u64,
    pub finder_flags: u64,
    pub st_dev: i32,
    pub st_ino: i32,
    pub st_nlink: u32,
    pub st_rdev: i32,
    pub c_time: Timestamp,
    pub st_blocks: i64,
    pub st_block_size: usize,
    pub size_on_disk: u64,
    pub creation_time: Timestamp,
    pub missing_nodes: Vec<String>,
    pub nodes: Vec<Node>,
}

/// A directory as a mathematical value.
pub struct TreeModel {
    pub version: usize,
    pub xattrs_compression_type: CompressionType,
    pub acl_compression_type: CompressionType,
    pub xattrs_blob_key: Option<BlobKeyModel>,
    pub xattrs_blob_size: u64,
    pub acl_blob_key: Option<BlobKeyModel>,
    pub user_id: i32,
    pub group_id: i32,
    pub file_mode: i32,
    pub mod_time: Timestamp,
    pub flags: u64,
    pub finder_flags: u64,
    pub st_dev: i32,
    pub st_ino: i32,
    pub st_nlink: u32,
    pub st_rdev: i32,
    pub c_time: Timestamp,
    pub st_blocks: i64,
    pub st_block_size: usize,
    pub size_on_disk: u64,
    pub creation_time: Timestamp,
    pub missing_nodes: Seq<Seq<char>>,
    pub nodes: Seq<NodeModel>,
}

impl DeepView for Tree {
    type V = TreeModel;

    open spec fn deep_view(&self) -> TreeModel {
        TreeModel {
            version: self.version,
            xattrs_compression_type: self.xattrs_compression_type,
            acl_compression_type: self.acl_compression_type,
            xattrs_blob_key: self.xattrs_blob_key.deep_view(),
            xattrs_blob_size: self.xattrs_blob_size,
            acl_blob_key: self.acl_blob_key.deep_view(),
            user_id: self.user_id,
            group_id: self.group_id,
            file_mode: self.file_mode,
            mod_time: self.mod_time,
            flags: self.flags,
            finder_flags: self.finder_flags,
            st_dev: self.st_dev,
            st_ino: self.st_ino,
            st_nlink: self.st_nlink,
            st_rdev: self.st_rdev,
            c_time: self.c_time,
            st_blocks: self.st_blocks,
            st_block_size: self.st_block_size,
            size_on_disk: self.size_on_disk,
            creation_time: self.creation_time,
            missing_nodes: self.missing_nodes.deep_view(),
            nodes: self.nodes.deep_view(),
        }
    }
}

} // verus!
