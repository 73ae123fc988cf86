//! The root of the namespace: which machines a repository holds.

use crate::computer::{spec_computer_info, Computer, ComputerInfo, ComputerInfoModel};
use crate::crypto::{spec_derived_key, CryptoError, CryptoKey, ObjectDecrypterV1};
use crate::key::{joined, Key};
use crate::storage::{Error, ObjectInfo};
use crate::{uuid_bytes, RepoError, Uuid};
use vstd::prelude::*;
use vstd::string::*;
use vstd::utf8::encode_utf8;

verus! {

/// The salt of the key that decrypts the descriptions of folders: the
/// letters of `BucketPL`.
pub const BUCKET_SALT: [u8; 8] = [0x42, 0x75, 0x63, 0x6b, 0x65, 0x74, 0x50, 0x4c];

/// Whether `key` is the key that the two steps of the key derivation make
/// of the passphrase `secret` and the salt `salt`.
pub open spec fn is_derived_key(key: CryptoKey, secret: Seq<char>, salt: Seq<u8>) -> bool {
    spec_derived_key(encode_utf8(secret), salt) == Some((key.key(), key.iv()))
}

/// Whether both keys of a machine can be derived: the one for the content
/// of its pack files, from the passphrase and the salt of the machine, and
/// the one for the descriptions of its folders, from the passphrase and the
/// fixed salt.
pub open spec fn keys_derive(secret: Seq<char>, salt: Seq<u8>) -> bool {
    &&& spec_derived_key(encode_utf8(secret), salt) is Some
    &&& spec_derived_key(encode_utf8(secret), BUCKET_SALT@) is Some
}

/// Wraps up access to a backup repository: it knows the passphrase.
pub struct Repository {
    secret: String,
}

/// The identifier of a machine that a listed prefix names: the prefix,
/// with the `/` at its end stripped where there is one, where that spells a
/// universally unique identifier.
pub open spec fn spec_computer_id(key: Seq<char>) -> Option<Seq<char>> {
    let id = if key.len() > 0 && key.last() == '/' {
        key.drop_last()
    } else {
        key
    };
    if uuid_bytes(id) is Some {
        Some(id)
    } else {
        None
    }
}

/// The identifiers of the machines among the prefixes of a listing, in its
/// order.
pub open spec fn spec_computer_keys(listing: Seq<ObjectInfo>) -> Seq<Seq<char>>
    decreases listing.len(),
{
    if listing.len() == 0 {
        Seq::empty()
    } else {
        let before = spec_computer_keys(listing.drop_last());
        match spec_computer_id(listing.last().key@) {
            Some(id) => before.push(id),
            None => before,
        }
    }
}

/// What is known of a machine once its description was asked for: where
/// the store failed, that failure; and else the description that the
/// document gives, or malformed data.
pub open spec fn spec_fetched_info(id: Seq<char>, fetched: Result<Vec<u8>, Error>) -> Result<
    ComputerInfoModel,
    RepoError,
> {
    match fetched {
        Ok(document) => match spec_computer_info(id, document@) {
            Some(info) => Ok(info),
            None => Err(RepoError::MalformedData),
        },
        Err(e) => Err(RepoError::Storage(e)),
    }
}

/// The descriptions of the machines `fetched`, each given by its
/// identifier and by what the store gave for its description, that could be
/// read: in the order of `fetched`, without those that could not.
pub open spec fn spec_list_computers(fetched: Seq<(Key, Result<Vec<u8>, Error>)>) -> Seq<
    ComputerInfoModel,
>
    decreases fetched.len(),
{
    if fetched.len() == 0 {
        Seq::empty()
    } else {
        let before = spec_list_computers(fetched.drop_last());
        match spec_fetched_info(fetched.last().0@, fetched.last().1) {
            Ok(info) => before.push(info),
            Err(_) => before,
        }
    }
}

/// What the description of the machine `id` is, from what the store gave
/// for it.
pub fn fetched_info(id: &Key, fetched: &Result<Vec<u8>, Error>) -> (r: Result<
    ComputerInfo,
    RepoError,
>)
    ensures
        match spec_fetched_info(id@, *fetched) {
            Ok(info) => r matches Ok(x) && x.deep_view() == info,
            Err(e) => r matches Err(x) && x == e,
        },
{
    match fetched {
        Ok(document) => ComputerInfo::parse(id, document.as_slice()),
        Err(e) => Err(RepoError::Storage(*e)),
    }
}

impl Repository {
    /// The passphrase of the repository.
    pub closed spec fn secret(&self) -> Seq<char> {
        self.secret@
    }

    /// The repository that is read with the passphrase `secret`.
    pub fn new(secret: &str) -> (r: Repository)
        ensures
            r.secret() == secret@,
    {
        Repository { secret: secret.to_owned() }
    }

    /// The machines among the prefixes listed at the root of the bucket:
    /// a prefix names a machine where it is, without the `/` at its end, a
    /// universally unique identifier. All other prefixes are skipped.
    pub fn computer_keys(listing: &Vec<ObjectInfo>) -> (keys: Vec<Key>)
        ensures
            crate::packset::key_views(keys@) == spec_computer_keys(listing@),
    {
        let mut keys: Vec<Key> = Vec::new();
        let mut k: usize = 0;
        assert(listing@.take(0) =~= Seq::empty());
        assert(crate::packset::key_views(keys@) =~= Seq::empty());
        while k < listing.len()
            invariant
                k <= listing@.len(),
                crate::packset::key_views(keys@) == spec_computer_keys(listing@.take(k as int)),
            decreases listing@.len() - k,
        {
            let ghost done = crate::packset::key_views(keys@);
            assert(listing@.take(k + 1).drop_last() =~= listing@.take(k as int));
            let s = listing[k].key.as_str();
            let n = s.unicode_len();
            let id = if n > 0 && s.get_char(n - 1) == '/' {
                let stripped = s.substring_char(0, n - 1);
                assert(stripped@ =~= s@.drop_last());
                stripped
            } else {
                s
            };
            if Uuid::parse_str(id).is_some() {
                keys.push(Key::from(id));
                assert(crate::packset::key_views(keys@) =~= done.push(id@));
            }
            k += 1;
        }
        assert(listing@.take(k as int) =~= listing@);
        keys
    }

    /// The key of the description of the machine `id`.
    pub fn computer_info_key(id: &Key) -> (key: Key)
        ensures
            key@ == joined(id@, "computerinfo"@),
    {
        id.join("computerinfo")
    }

    /// The key of the salt of the machine `id`.
    pub fn salt_key(id: &Key) -> (key: Key)
        ensures
            key@ == joined(id@, "salt"@),
    {
        id.join("salt")
    }

    /// The descriptions of the machines of the repository, from what the
    /// store gave for each of them. A machine whose description could not
    /// be fetched or read is left out; it does not make the listing fail.
    pub fn list_computers(fetched: &Vec<(Key, Result<Vec<u8>, Error>)>) -> (r: Vec<ComputerInfo>)
        ensures
            r.deep_view() == spec_list_computers(fetched@),
    {
        let mut result: Vec<ComputerInfo> = Vec::new();
        let mut k: usize = 0;
        assert(fetched@.take(0) =~= Seq::empty());
        assert(result.deep_view() =~= Seq::empty());
        while k < fetched.len()
            invariant
                k <= fetched@.len(),
                result.deep_view() == spec_list_computers(fetched@.take(k as int)),
            decreases fetched@.len() - k,
        {
            let ghost done = result.deep_view();
            assert(fetched@.take(k + 1).drop_last() =~= fetched@.take(k as int));
            match fetched_info(&fetched[k].0, &fetched[k].1) {
                Ok(info) => {
                    result.push(info);
                    assert(result.deep_view() =~= done.push(info.deep_view()));
                },
                Err(_) => {},
            }
            k += 1;
        }
        assert(fetched@.take(k as int) =~= fetched@);
        result
    }

    /// The machine `id`, from the two keys that were derived for it and
    /// from its description. A key that could not be derived is a crypto
    /// error; a description that cannot be read is malformed data.
    pub fn computer_of(
        id: &Key,
        object_key: Result<CryptoKey, CryptoError>,
        bucket_key: Result<CryptoKey, CryptoError>,
        info: &[u8],
    ) -> (r: Result<Computer<ObjectDecrypterV1>, RepoError>)
        ensures
            match (object_key, bucket_key) {
                (Ok(ok), Ok(bk)) => match spec_computer_info(id@, info@) {
                    Some(i) => r matches Ok(c) && c.info.deep_view() == i && c.decrypter.key()
                        == ok && c.bucket_decrypter.key() == bk,
                    None => r matches Err(e) && e == RepoError::MalformedData,
                },
                _ => r matches Err(e) && e == RepoError::CryptoError,
            },
    {
        let object_decrypter = match object_key {
            Ok(key) => ObjectDecrypterV1::new(key),
            Err(_) => {
                return Err(RepoError::CryptoError);
            },
        };
        let bucket_decrypter = match bucket_key {
            Ok(key) => ObjectDecrypterV1::new(key),
            Err(_) => {
                return Err(RepoError::CryptoError);
            },
        };
        let info = ComputerInfo::parse(id, info)?;
        Ok(Computer::new(info, object_decrypter, bucket_decrypter))
    }

    /// The machine `id`, from its salt and its description as the store
    /// gave them. The key for the content of its pack files is derived from
    /// the passphrase and the salt, the key for the descriptions of its
    /// folders from the passphrase and the fixed salt. A key that cannot be
    /// derived is a crypto error; with both keys, a description that cannot
    /// be read is malformed data.
    pub fn get_computer(&self, id: String, salt: &[u8], info: &[u8]) -> (r: Result<
        Computer<ObjectDecrypterV1>,
        RepoError,
    >)
        ensures
            if !keys_derive(self.secret(), salt@) {
                r matches Err(e) && e == RepoError::CryptoError
            } else {
                match spec_computer_info(id@, info@) {
                    Some(i) => {
                        &&& r is Ok
                        &&& r->Ok_0.info.deep_view() == i
                        &&& is_derived_key(r->Ok_0.decrypter.key(), self.secret(), salt@)
                        &&& is_derived_key(
                            r->Ok_0.bucket_decrypter.key(),
                            self.secret(),
                            BUCKET_SALT@,
                        )
                    },
                    None => r matches Err(e) && e == RepoError::MalformedData,
                }
            },
    {
        let machine_key = Key::from(id);
        let object_key = CryptoKey::new(self.secret.as_str(), salt);
        let bucket_key = CryptoKey::new(self.secret.as_str(), BUCKET_SALT.as_slice());
        Repository::computer_of(&machine_key, object_key, bucket_key, info)
    }
}

} // verus!
