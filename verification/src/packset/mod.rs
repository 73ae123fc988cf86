//! Pack sets: all the pack files under one prefix, and the index over them.
//!
//! A pack set never reads the store itself. It says which objects to fetch
//! and what their bytes mean once they are there.

pub mod index;
pub mod pack;

use crate::key::{has_suffix, joined, Key};
use crate::sha::{hex_encoded, SHA1};
use crate::storage::ObjectInfo;
use crate::RepoError;
use vstd::prelude::*;
use vstd::string::*;

pub use index::{files_model, spec_load, PackIndex, PackedItem, PackedItemModel};
pub use pack::{spec_parse_object, PackedObject, PackedObjectModel};

verus! {

/// A pack set is an index that maps hashes to a section of a pack file.
#[derive(Debug, Clone)]
pub struct Packset {
    root: Key,
    index: PackIndex,
}

/// The keys of a listing, in its order, that end with `suffix`.
pub open spec fn keys_ending(listing: Seq<ObjectInfo>, suffix: Seq<char>) -> Seq<Seq<char>>
    decreases listing.len(),
{
    if listing.len() == 0 {
        Seq::empty()
    } else {
        let before = keys_ending(listing.drop_last(), suffix);
        if has_suffix(listing.last().key@, suffix) {
            before.push(listing.last().key@)
        } else {
            before
        }
    }
}

/// The keys as the sequences of characters they are.
pub open spec fn key_views(keys: Seq<Key>) -> Seq<Seq<char>> {
    keys.map_values(|k: Key| k@)
}

/// The key of the pack file `pack_id` under the prefix `root`.
pub open spec fn spec_pack_key(root: Seq<char>, pack_id: Seq<u8>) -> Seq<char> {
    joined(root, hex_encoded(pack_id) + ".pack"@)
}

/// What loading the object `id` gives, once the pack file that the index
/// names for it is there with the content `pack`: the object that starts at
/// the offset that the index gives. There is none where the index does not
/// know `id`, where the offset lies behind the end of the file, or where no
/// well-formed object starts there.
pub open spec fn spec_load_object(
    index: Map<Seq<u8>, PackedItemModel>,
    id: Seq<u8>,
    pack: Seq<u8>,
) -> Option<PackedObjectModel> {
    if index.contains_key(id) && index[id].offset <= pack.len() {
        spec_parse_object(pack.skip(index[id].offset as int))
    } else {
        None
    }
}

impl Packset {
    /// The prefix that the pack set lies under.
    pub closed spec fn root(&self) -> Seq<char> {
        self.root@
    }

    /// The locations that the pack set knows, by hash.
    pub closed spec fn index(&self) -> Map<Seq<u8>, PackedItemModel> {
        self.index@
    }

    /// The index files among the objects listed under the prefix of a pack
    /// set: those whose key ends in `.index`, in the order of the listing.
    pub fn index_keys(listing: &Vec<ObjectInfo>) -> (keys: Vec<Key>)
        ensures
            key_views(keys@) == keys_ending(listing@, ".index"@),
    {
        let mut keys: Vec<Key> = Vec::new();
        let mut k: usize = 0;
        assert(listing@.take(0) =~= Seq::empty());
        assert(key_views(keys@) =~= Seq::empty());
        while k < listing.len()
            invariant
                k <= listing@.len(),
                key_views(keys@) == keys_ending(listing@.take(k as int), ".index"@),
            decreases listing@.len() - k,
        {
            let ghost done = key_views(keys@);
            assert(listing@.take(k + 1).drop_last() =~= listing@.take(k as int));
            if listing[k].key.ends_with(".index") {
                let key = Key::from(listing[k].key.to_string());
                keys.push(key);
                assert(key_views(keys@) =~= done.push(listing@[k as int].key@));
            }
            k += 1;
        }
        assert(listing@.take(k as int) =~= listing@);
        keys
    }

    /// The pack set under `key` whose index files are `files`, each given
    /// with the key it is kept under.
    pub fn new(key: Key, files: &Vec<(Key, Vec<u8>)>) -> (r: Result<Packset, RepoError>)
        ensures
            match spec_load(files_model(files@)) {
                Some(m) => r matches Ok(p) && p.root() == key@ && p.index() == m,
                None => r matches Err(e) && e == RepoError::MalformedData,
            },
    {
        match index::load(files) {
            Ok(i) => Ok(Packset { root: key, index: i }),
            Err(e) => Err(e),
        }
    }

    /// Where the object `id` is. A hash that the index does not know is
    /// malformed data.
    pub fn locate(&self, id: &SHA1) -> (r: Result<PackedItem, RepoError>)
        ensures
            match r {
                Ok(loc) => self.index().contains_key(id@) && self.index()[id@]
                    == loc.deep_view(),
                Err(e) => !self.index().contains_key(id@) && e == RepoError::MalformedData,
            },
    {
        match self.index.get(id) {
            Some(loc) => Ok(loc),
            None => Err(RepoError::MalformedData),
        }
    }

    /// The key of the pack file that holds the object at `loc`.
    pub fn pack_key(&self, loc: &PackedItem) -> (k: Key)
        ensures
            k@ == spec_pack_key(self.root(), loc.pack_id@),
    {
        let mut name = loc.pack_id.as_string();
        name.append(".pack");
        self.root.join(name.as_str())
    }

    /// The object `id`, out of the content `packfile_data` of the pack file
    /// that holds it.
    pub fn load(&self, id: &SHA1, packfile_data: &[u8]) -> (r: Result<PackedObject, RepoError>)
        ensures
            match spec_load_object(self.index(), id@, packfile_data@) {
                Some(obj) => r matches Ok(x) && x.deep_view() == obj,
                None => r matches Err(e) && e == RepoError::MalformedData,
            },
    {
        let loc = self.locate(id)?;
        if loc.offset > packfile_data.len() as u64 {
            return Err(RepoError::MalformedData);
        }
        let start = loc.offset as usize;
        let (_, rest) = packfile_data.split_at(start);
        pack::parse_object(rest)
    }
}

/// A pack file that agrees with the index holds, from the indexed offset
/// of a known object on, a well-formed object whose content has the indexed
/// length. From such a pack file the object is loaded, and its content has
/// that length.
pub proof fn lemma_load_length(index: Map<Seq<u8>, PackedItemModel>, id: Seq<u8>, pack: Seq<u8>)
    requires
        index.contains_key(id),
        index[id].offset <= pack.len(),
        spec_parse_object(pack.skip(index[id].offset as int)) matches Some(obj)
            && obj.content.len() == index[id].length,
    ensures
        spec_load_object(index, id, pack) matches Some(obj) && obj.content.len()
            == index[id].length,
{
}

} // verus!
