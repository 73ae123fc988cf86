//! A backed-up machine: who it belongs to, and how to read its folders.

use crate::crypto::{has_envelope, open_envelope, CryptoError, ObjectDecrypter};
use crate::folder::{spec_folder_info, FolderInfo, FolderInfoModel};
use crate::gather::{spec_successes, successes};
use crate::key::Key;
use crate::plist::{plist_string, plist_string_entry};
use crate::storage::Error;
use crate::RepoError;
use vstd::prelude::*;
use vstd::string::*;

verus! {

/// What a repository says of a machine.
#[derive(Debug, Clone, PartialEq, Eq)]
pub struct ComputerInfo {
    /// The identifier of the machine: the key that its objects lie under.
    pub id: String,
    pub user: String,
    pub computer: String,
}

/// The description of a machine as a mathematical value.
pub struct ComputerInfoModel {
    pub id: Seq<char>,
    pub user: Seq<char>,
    pub computer: Seq<char>,
}

impl DeepView for ComputerInfo {
    type V = ComputerInfoModel;

    open spec fn deep_view(&self) -> ComputerInfoModel {
        ComputerInfoModel { id: self.id@, user: self.user@, computer: self.computer@ }
    }
}

/// The description of the machine `id` that the property list `document`
/// gives: the user under `userName` and the name of the machine under
/// `computerName`, both of which have to be there. The identifier is not
/// taken from the document.
pub open spec fn spec_computer_info(id: Seq<char>, document: Seq<u8>) -> Option<
    ComputerInfoModel,
> {
    match (
        plist_string_entry(document, "userName"@),
        plist_string_entry(document, "computerName"@),
    ) {
        (Some(user), Some(computer)) => Some(ComputerInfoModel { id, user, computer }),
        _ => None,
    }
}

impl ComputerInfo {
    /// The description of the machine `id` with the two strings that its
    /// document gave. A document that lacks one of them is malformed data.
    pub fn from_fields(id: String, user: Option<String>, computer: Option<String>) -> (r: Result<
        ComputerInfo,
        RepoError,
    >)
        ensures
            match (user, computer) {
                (Some(u), Some(c)) => r matches Ok(info) && info.id@ == id@ && info.user@ == u@
                    && info.computer@ == c@,
                _ => r matches Err(e) && e == RepoError::MalformedData,
            },
    {
        match (user, computer) {
            (Some(user), Some(computer)) => Ok(ComputerInfo { id, user, computer }),
            _ => Err(RepoError::MalformedData),
        }
    }

    /// Reads the description of the machine `id` from its document.
    pub fn parse(id: &Key, document: &[u8]) -> (r: Result<ComputerInfo, RepoError>)
        ensures
            match spec_computer_info(id@, document@) {
                Some(info) => r matches Ok(x) && x.deep_view() == info,
                None => r matches Err(e) && e == RepoError::MalformedData,
            },
    {
        let user = plist_string(document, "userName");
        let computer = plist_string(document, "computerName");
        ComputerInfo::from_fields(id.to_string(), user, computer)
    }
}

/// A machine together with what decrypts its objects: one decrypter for
/// the content of its pack files, and one for the descriptions of its
/// folders.
pub struct Computer<D: ObjectDecrypter> {
    pub info: ComputerInfo,
    pub decrypter: D,
    pub bucket_decrypter: D,
}

/// Whether what the store gave for a folder can be read at all: it was
/// fetched, and it comes in the envelope.
pub open spec fn readable(fetched: Result<Vec<u8>, Error>) -> bool {
    fetched matches Ok(blob) && has_envelope(blob@)
}

/// What the description of a folder is once the decrypter has answered: a
/// failure of the decrypter is a crypto error, and what it decrypted has to
/// be the property list of a folder.
pub open spec fn spec_folder_of(outcome: Result<Vec<u8>, CryptoError>) -> Result<
    FolderInfoModel,
    RepoError,
> {
    match outcome {
        Ok(document) => match spec_folder_info(document@) {
            Some(info) => Ok(info),
            None => Err(RepoError::MalformedData),
        },
        Err(_) => Err(RepoError::CryptoError),
    }
}

/// The description of a folder, from the answer of the decrypter.
pub fn folder_of(outcome: Result<Vec<u8>, CryptoError>) -> (r: Result<FolderInfo, RepoError>)
    ensures
        match spec_folder_of(outcome) {
            Ok(info) => r matches Ok(x) && x.deep_view() == info,
            Err(e) => r matches Err(x) && x == e,
        },
{
    match outcome {
        Ok(document) => FolderInfo::parse(document.as_slice()),
        Err(_) => Err(RepoError::CryptoError),
    }
}

impl<D: ObjectDecrypter> Computer<D> {
    /// The machine `info` with its two decrypters.
    pub fn new(info: ComputerInfo, decrypter: D, bucket_decrypter: D) -> (r: Computer<D>)
        ensures
            r.info == info,
            r.decrypter == decrypter,
            r.bucket_decrypter == bucket_decrypter,
    {
        Computer { info, decrypter, bucket_decrypter }
    }

    /// The prefix that the descriptions of the folders of this machine lie
    /// under.
    pub fn buckets_prefix(&self) -> (path: String)
        ensures
            path@ == self.info.id@ + "/buckets/"@,
    {
        let mut path = self.info.id.clone();
        path.append("/buckets/");
        path
    }

    /// The key of the description of the folder `folder_id`.
    pub fn folder_key(&self, folder_id: &str) -> (key: Key)
        ensures
            key@ == self.info.id@ + "/buckets/"@ + folder_id@,
    {
        let mut path = self.buckets_prefix();
        path.append(folder_id);
        Key::from(path)
    }

    /// Reads the description of a folder from the object `blob` that holds
    /// it. The object has to come in the envelope, or it is malformed data;
    /// what is inside is decrypted with the decrypter for folder
    /// descriptions and read as a property list.
    pub fn read_folder(&self, blob: &[u8]) -> (r: Result<FolderInfo, RepoError>)
        ensures
            !has_envelope(blob@) ==> (r matches Err(e) && e == RepoError::MalformedData),
            r matches Err(e) ==> e == RepoError::MalformedData || e == RepoError::CryptoError,
    {
        let inner = match open_envelope(blob) {
            Ok(inner) => inner,
            Err(_) => {
                return Err(RepoError::MalformedData);
            },
        };
        folder_of(self.bucket_decrypter.decrypt_object(inner))
    }

    /// The descriptions of the folders of this machine, from the objects
    /// that were fetched for them. An object that could not be fetched, and
    /// one that does not give a description, is left out.
    pub fn list_folders(&self, blobs: &Vec<Result<Vec<u8>, Error>>) -> (r: Vec<FolderInfo>)
        ensures
            r@.len() <= blobs@.len(),
            exists|outcomes: Seq<Result<FolderInfo, RepoError>>|
                {
                    &&& outcomes.len() == blobs@.len()
                    &&& r@ == spec_successes(outcomes)
                    &&& forall|i: int|
                        0 <= i < blobs@.len() && !readable(#[trigger] blobs@[i])
                            ==> outcomes[i] is Err
                },
    {
        let mut outcomes: Vec<Result<FolderInfo, RepoError>> = Vec::new();
        let mut k: usize = 0;
        while k < blobs.len()
            invariant
                k <= blobs@.len(),
                outcomes@.len() == k,
                forall|i: int|
                    0 <= i < k && !readable(#[trigger] blobs@[i]) ==> outcomes@[i] is Err,
            decreases blobs@.len() - k,
        {
            let outcome = match &blobs[k] {
                Ok(blob) => self.read_folder(blob.as_slice()),
                Err(e) => Err(RepoError::Storage(*e)),
            };
            outcomes.push(outcome);
            k += 1;
        }
        proof {
            crate::gather::lemma_successes_len(outcomes@);
        }
        successes(outcomes)
    }
}

} // verus!
