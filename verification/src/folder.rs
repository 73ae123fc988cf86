//! A folder of a machine: a directory that is backed up as a unit.

use crate::commit::Commit;
use crate::crypto::{CryptoError, ObjectDecrypter};
use crate::key::Key;
use crate::packset::{files_model, spec_load, Packset};
use crate::plist::{plist_string, plist_string_entry};
use crate::sha::{sha_of_hex, SHA1};
use crate::{format_uuid, spec_format_uuid, uuid_bytes, RepoError, Uuid};
use vstd::prelude::*;
use vstd::string::*;

verus! {

/// What a repository says of a folder.
#[derive(Debug, Clone, PartialEq, Eq)]
pub struct FolderInfo {
    pub id: Uuid,
    pub name: String,
    pub local_path: String,
}

/// The description of a folder as a mathematical value.
pub struct FolderInfoModel {
    pub id: Seq<u8>,
    pub name: Seq<char>,
    pub local_path: Seq<char>,
}

impl DeepView for FolderInfo {
    type V = FolderInfoModel;

    open spec fn deep_view(&self) -> FolderInfoModel {
        FolderInfoModel { id: self.id@, name: self.name@, local_path: self.local_path@ }
    }
}

/// The description of a folder that the property list `document` gives:
/// the identifier under `BucketUUID`, which has to spell one, the name
/// under `BucketName` and the path on the machine under `LocalPath`.
pub open spec fn spec_folder_info(document: Seq<u8>) -> Option<FolderInfoModel> {
    match (
        plist_string_entry(document, "BucketUUID"@),
        plist_string_entry(document, "BucketName"@),
        plist_string_entry(document, "LocalPath"@),
    ) {
        (Some(id), Some(name), Some(local_path)) => match uuid_bytes(id) {
            Some(id) => Some(FolderInfoModel { id, name, local_path }),
            None => None,
        },
        _ => None,
    }
}

/// The hash that the content `content` of a branch pointer names: the
/// content, with a newline at its end trimmed where there is one, has to be
/// 40 hexadecimal digits.
pub open spec fn spec_head(content: Seq<u8>) -> Option<Seq<u8>> {
    sha_of_hex(
        if content.len() > 0 && content.last() == 0x0a {
            content.drop_last()
        } else {
            content
        },
    )
}

impl FolderInfo {
    /// The description of a folder with the three values that its document
    /// gave. A document that lacks one of them is malformed data.
    pub fn from_fields(id: Option<Uuid>, name: Option<String>, local_path: Option<String>) -> (r:
        Result<FolderInfo, RepoError>)
        ensures
            match (id, name, local_path) {
                (Some(i), Some(n), Some(p)) => r matches Ok(info) && info.id == i && info.name@
                    == n@ && info.local_path@ == p@,
                _ => r matches Err(e) && e == RepoError::MalformedData,
            },
    {
        match (id, name, local_path) {
            (Some(id), Some(name), Some(local_path)) => Ok(FolderInfo { id, name, local_path }),
            _ => Err(RepoError::MalformedData),
        }
    }

    /// Reads the description of a folder from its decrypted document.
    pub fn parse(document: &[u8]) -> (r: Result<FolderInfo, RepoError>)
        ensures
            match spec_folder_info(document@) {
                Some(info) => r matches Ok(x) && x.deep_view() == info,
                None => r matches Err(e) && e == RepoError::MalformedData,
            },
    {
        let id = match plist_string(document, "BucketUUID") {
            Some(text) => Uuid::parse_str(text.as_str()),
            None => None,
        };
        let name = plist_string(document, "BucketName");
        let local_path = plist_string(document, "LocalPath");
        FolderInfo::from_fields(id, name, local_path)
    }
}

/// A folder with the index over its directory records.
pub struct Folder<D: ObjectDecrypter> {
    pub info: FolderInfo,
    /// The pack set with the directory records of the folder.
    pub packset: Packset,
    /// What decrypts the content of the pack files of the folder.
    pub decrypter: D,
    /// The machine that the folder belongs to.
    pub computer_id: String,
}

/// The prefix that the pack set with the directory records of a folder
/// lies under.
pub open spec fn spec_packset_key(computer_id: Seq<char>, folder: Seq<u8>) -> Seq<char> {
    computer_id + "/packsets/"@ + spec_format_uuid(folder) + "-trees/"@
}

/// The key of the pointer to the latest snapshot of a folder.
pub open spec fn spec_head_key(computer_id: Seq<char>, folder: Seq<u8>) -> Seq<char> {
    computer_id + "/bucketdata/"@ + spec_format_uuid(folder) + "/refs/heads/master"@
}

/// What a snapshot is once the decrypter has answered: a failure of the
/// decrypter is a crypto error, and what it decrypted has to be a snapshot
/// record.
pub fn commit_of(outcome: Result<Vec<u8>, CryptoError>) -> (r: Result<Commit, RepoError>)
    ensures
        match outcome {
            Ok(blob) => match crate::commit::record::spec_parse(blob@) {
                Some(c) => r matches Ok(x) && x.record.deep_view() == c,
                None => r matches Err(e) && e == RepoError::MalformedData,
            },
            Err(_) => r matches Err(e) && e == RepoError::CryptoError,
        },
{
    match outcome {
        Ok(blob) => Commit::parse(blob.as_slice()),
        Err(_) => Err(RepoError::CryptoError),
    }
}

impl<D: ObjectDecrypter> Folder<D> {
    /// The prefix that the pack set with the directory records of the
    /// folder `info` of the machine `computer_id` lies under.
    pub fn packset_key(computer_id: &str, info: &FolderInfo) -> (key: Key)
        ensures
            key@ == spec_packset_key(computer_id@, info.id@),
    {
        let mut path = computer_id.to_owned();
        path.append("/packsets/");
        path.append(format_uuid(&info.id).as_str());
        path.append("-trees/");
        Key::from(path)
    }

    /// The folder `info` of the machine `computer_id`, with the index files
    /// `index_files` of its pack set, each given with the key it is kept
    /// under.
    pub fn new(
        computer_id: &str,
        info: FolderInfo,
        index_files: &Vec<(Key, Vec<u8>)>,
        decrypter: D,
    ) -> (r: Result<Folder<D>, RepoError>)
        ensures
            match spec_load(files_model(index_files@)) {
                Some(m) => r matches Ok(f) && f.info == info && f.computer_id@ == computer_id@
                    && f.packset.index() == m && f.packset.root() == spec_packset_key(
                    computer_id@,
                    info.id@,
                ),
                None => r matches Err(e) && e == RepoError::MalformedData,
            },
    {
        let key = Folder::<D>::packset_key(computer_id, &info);
        let packset = Packset::new(key, index_files)?;
        Ok(Folder { info, packset, decrypter, computer_id: computer_id.to_owned() })
    }

    /// The key of the pointer to the latest snapshot of the folder.
    pub fn head_key(&self) -> (key: Key)
        ensures
            key@ == spec_head_key(self.computer_id@, self.info.id@),
    {
        let mut path = self.computer_id.clone();
        path.append("/bucketdata/");
        path.append(format_uuid(&self.info.id).as_str());
        path.append("/refs/heads/master");
        Key::from(path)
    }

    /// The hash of the latest snapshot, from the content of the pointer to
    /// it. A pointer that does not name a hash is malformed data.
    pub fn parse_head(content: &[u8]) -> (r: Result<SHA1, RepoError>)
        ensures
            match spec_head(content@) {
                Some(h) => r matches Ok(x) && x@ == h,
                None => r matches Err(e) && e == RepoError::MalformedData,
            },
    {
        let text = if content.len() > 0 && content[content.len() - 1] == 0x0a {
            let (line, _) = content.split_at(content.len() - 1);
            assert(line@ =~= content@.drop_last());
            line
        } else {
            content
        };
        match SHA1::from_hex(text) {
            Some(h) => Ok(h),
            None => Err(RepoError::MalformedData),
        }
    }

    /// The snapshot `commit_id`, out of the content `pack_data` of the
    /// pack file that holds it. A hash that the index does not know, and an
    /// object that is not well-formed, is malformed data; an object that
    /// cannot be decrypted is a crypto error.
    pub fn get_commit(&self, commit_id: &SHA1, pack_data: &[u8]) -> (r: Result<Commit, RepoError>)
        ensures
            crate::packset::spec_load_object(self.packset.index(), commit_id@, pack_data@)
                is None ==> (r matches Err(e) && e == RepoError::MalformedData),
            r matches Err(e) ==> e == RepoError::MalformedData || e == RepoError::CryptoError,
    {
        let blob = self.packset.load(commit_id, pack_data)?;
        commit_of(self.decrypter.decrypt_object(blob.content.as_slice()))
    }

    /// Where the folder lies on the machine it was backed up from.
    pub fn local_path(&self) -> (path: &str)
        ensures
            path@ == self.info.local_path@,
    {
        self.info.local_path.as_str()
    }
}

} // verus!
