//! Pack indexes: which hash is where in which pack file.
//!
//! An index file starts with the four bytes `ff 74 4f 63` and a 32-bit
//! version. A table of 256 32-bit counts follows: the count at place `b` is
//! the number of entries whose hash starts with a byte up to `b`, so the
//! last count is the number of entries. Then come the entries, each one an
//! offset and a length of 64 bits, 20 bytes of hash and 4 bytes of padding.

use crate::constructs::{
    after, be_u32, be_u64, binary_sha1, got, lemma_repeat_len, parsed, repeat, spec_be_u32,
    spec_be_u64, spec_binary_sha1, spec_repeat, spec_tag, spec_take, tag, take, Parse,
    ParseError,
};
use crate::key::Key;
use crate::sha::{sha_of_hex, SHA1};
use crate::RepoError;
use vstd::prelude::*;
use vstd::string::*;
use vstd::utf8::encode_utf8;

verus! {

/// One entry of an index file.
#[derive(Debug, Clone, Copy, PartialEq, Eq)]
pub struct PackedIndexItem {
    pub sha: SHA1,
    pub offset: u64,
    pub length: u64,
}

/// An index entry as a mathematical value.
pub struct PackedIndexItemModel {
    pub sha: Seq<u8>,
    pub offset: u64,
    pub length: u64,
}

impl DeepView for PackedIndexItem {
    type V = PackedIndexItemModel;

    open spec fn deep_view(&self) -> PackedIndexItemModel {
        PackedIndexItemModel { sha: self.sha@, offset: self.offset, length: self.length }
    }
}

/// A decoded index file.
#[derive(Debug, Clone)]
pub struct PackedIndex {
    pub version: u32,
    pub counts: [u32; 256],
    pub entries: Vec<PackedIndexItem>,
}

/// A decoded index file as a mathematical value.
pub struct PackedIndexModel {
    pub version: u32,
    pub counts: Seq<u32>,
    pub entries: Seq<PackedIndexItemModel>,
}

impl DeepView for PackedIndex {
    type V = PackedIndexModel;

    open spec fn deep_view(&self) -> PackedIndexModel {
        PackedIndexModel {
            version: self.version,
            counts: self.counts@,
            entries: self.entries.deep_view(),
        }
    }
}

/// Where an object is: in which pack file, and from which offset. `length`
/// is the length of its content.
#[derive(Debug, Clone, Copy, PartialEq, Eq)]
pub struct PackedItem {
    pub pack_id: SHA1,
    pub offset: u64,
    pub length: u64,
}

/// A location as a mathematical value.
pub struct PackedItemModel {
    pub pack_id: Seq<u8>,
    pub offset: u64,
    pub length: u64,
}

impl DeepView for PackedItem {
    type V = PackedItemModel;

    open spec fn deep_view(&self) -> PackedItemModel {
        PackedItemModel { pack_id: self.pack_id@, offset: self.offset, length: self.length }
    }
}

/// The locations of all the objects of a pack set, by hash.
#[derive(Debug, Clone)]
pub struct PackIndex {
    entries: Vec<(SHA1, PackedItem)>,
}

/// The map that a list of entries stands for: a later entry replaces an
/// earlier one for the same hash.
pub open spec fn index_map(entries: Seq<(SHA1, PackedItem)>) -> Map<Seq<u8>, PackedItemModel>
    decreases entries.len(),
{
    if entries.len() == 0 {
        Map::empty()
    } else {
        index_map(entries.drop_last()).insert(entries.last().0@, entries.last().1.deep_view())
    }
}

impl View for PackIndex {
    type V = Map<Seq<u8>, PackedItemModel>;

    closed spec fn view(&self) -> Map<Seq<u8>, PackedItemModel> {
        index_map(self.entries@)
    }
}

impl PackIndex {
    /// An index without entries.
    pub fn new() -> (r: PackIndex)
        ensures
            r@ == Map::<Seq<u8>, PackedItemModel>::empty(),
    {
        PackIndex { entries: Vec::new() }
    }

    /// Sets the location of the object `sha`.
    pub fn insert(&mut self, sha: SHA1, item: PackedItem)
        ensures
            final(self)@ == old(self)@.insert(sha@, item.deep_view()),
    {
        let ghost before = self.entries@;
        self.entries.push((sha, item));
        assert(self.entries@.drop_last() =~= before);
    }

    /// The location of the object `id`, if the index has one.
    pub fn get(&self, id: &SHA1) -> (r: Option<PackedItem>)
        ensures
            match r {
                Some(item) => self@.contains_key(id@) && self@[id@] == item.deep_view(),
                None => !self@.contains_key(id@),
            },
    {
        let mut k: usize = self.entries.len();
        assert(self.entries@.take(k as int) =~= self.entries@);
        while k > 0
            invariant
                k <= self.entries@.len(),
                self@.contains_key(id@) == index_map(self.entries@.take(k as int)).contains_key(
                    id@,
                ),
                self@.contains_key(id@) ==> self@[id@] == index_map(
                    self.entries@.take(k as int),
                )[id@],
            decreases k,
        {
            assert(self.entries@.take(k as int).drop_last() =~= self.entries@.take(k - 1));
            if self.entries[k - 1].0.same(id) {
                return Some(self.entries[k - 1].1);
            }
            k -= 1;
        }
        None
    }
}

/// The map `m` with the entries of the index of the pack `pack_id` put in,
/// one behind the other.
pub open spec fn with_entries(
    m: Map<Seq<u8>, PackedItemModel>,
    pack_id: Seq<u8>,
    entries: Seq<PackedIndexItemModel>,
) -> Map<Seq<u8>, PackedItemModel>
    decreases entries.len(),
{
    if entries.len() == 0 {
        m
    } else {
        with_entries(m, pack_id, entries.drop_last()).insert(
            entries.last().sha,
            PackedItemModel {
                pack_id,
                offset: entries.last().offset,
                length: entries.last().length,
            },
        )
    }
}

/// The index over all of `files`, each given as the UTF-8 of its key and
/// its content: the entries of the first file, then those of the second,
/// and so on, so that for a hash in two files the later file wins. There is
/// no index where one of the files is no index file of a pack.
pub open spec fn spec_load(files: Seq<(Seq<u8>, Seq<u8>)>) -> Option<
    Map<Seq<u8>, PackedItemModel>,
>
    decreases files.len(),
{
    if files.len() == 0 {
        Some(Map::empty())
    } else {
        match (spec_load(files.drop_last()), spec_parse(files.last().0, files.last().1)) {
            (Some(m), Some((pack_id, index))) => Some(with_entries(m, pack_id, index.entries)),
            _ => None,
        }
    }
}

/// The index files `files` as the mathematical values they are.
pub open spec fn files_model(files: Seq<(Key, Vec<u8>)>) -> Seq<(Seq<u8>, Seq<u8>)> {
    Seq::new(files.len(), |i: int| (encode_utf8(files[i].0@), files[i].1@))
}

/// One entry at the front of `s`.
pub open spec fn spec_packed_index_item(s: Seq<u8>) -> Option<(PackedIndexItemModel, Seq<u8>)> {
    let offset = spec_be_u64(s);
    let length = spec_be_u64(after(offset));
    let sha = spec_binary_sha1(after(length));
    let padding = spec_take(4, after(sha));
    if offset is Some && length is Some && sha is Some && padding is Some {
        Some(
            (
                PackedIndexItemModel { sha: got(sha), offset: got(offset), length: got(length) },
                after(padding),
            ),
        )
    } else {
        None
    }
}

impl Parse for u32 {
    open spec fn model(version: usize, s: Seq<u8>) -> Option<(u32, Seq<u8>)> {
        spec_be_u32(s)
    }

    fn parse(version: usize, i: &[u8]) -> (r: Result<(&[u8], u32), ParseError>) {
        be_u32(i)
    }
}

/// A whole index file at the front of `s`.
pub open spec fn spec_packed_index(s: Seq<u8>) -> Option<(PackedIndexModel, Seq<u8>)> {
    let magic = spec_tag(INDEX_MAGIC@, s);
    let version = spec_be_u32(
        match magic {
            Some(rest) => rest,
            None => Seq::empty(),
        },
    );
    let counts = spec_repeat::<u32>(0, 256, after(version));
    let entries = spec_repeat::<PackedIndexItem>(
        0,
        if counts is Some && got(counts).len() == 256 {
            got(counts)[255] as nat
        } else {
            0
        },
        after(counts),
    );
    if magic is Some && version is Some && counts is Some && entries is Some {
        Some(
            (
                PackedIndexModel {
                    version: got(version),
                    counts: got(counts),
                    entries: got(entries),
                },
                after(entries),
            ),
        )
    } else {
        None
    }
}

/// The index that the bytes `data` encode, if they encode one.
pub open spec fn spec_parse_blob(data: Seq<u8>) -> Option<PackedIndexModel> {
    match spec_packed_index(data) {
        Some((index, _)) => Some(index),
        None => None,
    }
}

/// Where `b` stands last in `s`.
pub open spec fn last_index_of(s: Seq<u8>, b: u8) -> Option<int>
    decreases s.len(),
{
    if s.len() == 0 {
        None
    } else if s.last() == b {
        Some(s.len() - 1)
    } else {
        last_index_of(s.drop_last(), b)
    }
}

/// The pack that the index file named `name` (a key, as UTF-8) belongs to:
/// what stands between the last `/` and the last `.` of the name has to be
/// the 40 hexadecimal digits of the pack's hash.
pub open spec fn spec_extract_pack_id(name: Seq<u8>) -> Option<Seq<u8>> {
    match (last_index_of(name, 0x2f), last_index_of(name, 0x2e)) {
        (Some(start), Some(end)) => if start + 1 <= end {
            sha_of_hex(name.subrange(start + 1, end))
        } else {
            None
        },
        _ => None,
    }
}

/// The pack and the index that the file `blob` with the key `name` (as
/// UTF-8) stands for.
pub open spec fn spec_parse(name: Seq<u8>, blob: Seq<u8>) -> Option<(Seq<u8>, PackedIndexModel)> {
    match (spec_extract_pack_id(name), spec_parse_blob(blob)) {
        (Some(pack_id), Some(index)) => Some((pack_id, index)),
        _ => None,
    }
}

/// Reads one entry of an index file.
pub fn packed_index_item(i: &[u8]) -> (r: Result<(&[u8], PackedIndexItem), ParseError>)
    ensures
        parsed(r, spec_packed_index_item(i@)),
{
    let (i, offset) = be_u64(i)?;
    let (i, length) = be_u64(i)?;
    let (i, sha) = binary_sha1(i)?;
    let (i, _) = take(4, i)?;
    let item = PackedIndexItem { sha, offset, length };
    Ok((i, item))
}

impl Parse for PackedIndexItem {
    open spec fn model(version: usize, s: Seq<u8>) -> Option<(PackedIndexItemModel, Seq<u8>)> {
        spec_packed_index_item(s)
    }

    fn parse(version: usize, i: &[u8]) -> (r: Result<(&[u8], PackedIndexItem), ParseError>) {
        packed_index_item(i)
    }
}

/// The last count of the table of an index file is the number of its
/// entries.
pub proof fn lemma_entry_count(s: Seq<u8>)
    ensures
        spec_packed_index(s) matches Some((index, _)) ==> index.counts.len() == 256
            && index.entries.len() == index.counts[255],
{
    let magic = spec_tag(INDEX_MAGIC@, s);
    let version = spec_be_u32(
        match magic {
            Some(rest) => rest,
            None => Seq::empty(),
        },
    );
    lemma_repeat_len::<u32>(0, 256, after(version));
    let counts = spec_repeat::<u32>(0, 256, after(version));
    if counts is Some {
        lemma_repeat_len::<PackedIndexItem>(0, got(counts)[255] as nat, after(counts));
    }
}

/// The four bytes that an index file starts with.
pub const INDEX_MAGIC: [u8; 4] = [0xff, 0x74, 0x4f, 0x63];

/// Reads a whole index file.
pub fn packed_index(i: &[u8]) -> (r: Result<(&[u8], PackedIndex), ParseError>)
    ensures
        parsed(r, spec_packed_index(i@)),
{
    let i = tag(INDEX_MAGIC.as_slice(), i)?;
    let (i, version) = be_u32(i)?;
    let ghost before_counts = i@;
    let (i, table) = repeat::<u32>(0, 256, i)?;
    proof {
        lemma_repeat_len::<u32>(0, 256, before_counts);
        assert(table.deep_view().len() == 256);
    }
    let mut counts = [0u32; 256];
    let mut k: usize = 0;
    while k < 256
        invariant
            k <= 256,
            table@.len() == 256,
            forall|j: int| 0 <= j < k ==> counts@[j] == table@[j],
        decreases 256 - k,
    {
        counts[k] = table[k];
        k += 1;
    }
    assert(counts@ =~= table.deep_view());
    let count = counts[255];
    let (i, entries) = repeat::<PackedIndexItem>(0, count as u64, i)?;
    let idx = PackedIndex { version, counts, entries };
    Ok((i, idx))
}

/// Decodes an index file. What the index leaves over of `data` is dropped.
pub fn parse_blob(data: &[u8]) -> (r: Option<PackedIndex>)
    ensures
        r.deep_view() == spec_parse_blob(data@),
{
    match packed_index(data) {
        Ok((_, index)) => Some(index),
        Err(_) => None,
    }
}

/// Where `b` stands last in `s`.
fn rfind(s: &[u8], b: u8) -> (r: Option<usize>)
    ensures
        match r {
            Some(at) => last_index_of(s@, b) == Some(at as int) && at < s@.len(),
            None => last_index_of(s@, b) is None,
        },
{
    let mut k: usize = s.len();
    assert(s@.take(k as int) =~= s@);
    while k > 0
        invariant
            k <= s@.len(),
            last_index_of(s@, b) == last_index_of(s@.take(k as int), b),
        decreases k,
    {
        assert(s@.take(k as int).drop_last() =~= s@.take(k - 1));
        if s[k - 1] == b {
            return Some(k - 1);
        }
        k -= 1;
    }
    None
}

/// The pack that an index file belongs to, by the name of the file.
pub fn extract_pack_id(key: &Key) -> (r: Option<SHA1>)
    ensures
        r.deep_view() == spec_extract_pack_id(encode_utf8(key@)),
{
    let s = key.as_str().as_bytes();
    let start = match rfind(s, 0x2f) {
        Some(at) => at,
        None => {
            return None;
        },
    };
    let end = match rfind(s, 0x2e) {
        Some(at) => at,
        None => {
            return None;
        },
    };
    if start >= end {
        return None;
    }
    SHA1::from_hex(vstd::slice::slice_subrange(s, start + 1, end))
}

/// Decodes the index file `blob` that is kept under `key`.
pub fn parse(key: &Key, blob: &[u8]) -> (r: Result<(SHA1, PackedIndex), RepoError>)
    ensures
        match spec_parse(encode_utf8(key@), blob@) {
            Some((pack_id, index)) => r matches Ok((id, x)) && id@ == pack_id && x.deep_view()
                == index,
            None => r == Err::<(SHA1, PackedIndex), RepoError>(RepoError::MalformedData),
        },
{
    match extract_pack_id(key) {
        None => Err(RepoError::MalformedData),
        Some(pack_id) => match parse_blob(blob) {
            None => Err(RepoError::MalformedData),
            Some(index) => Ok((pack_id, index)),
        },
    }
}

/// Once one file of a list is no index file, no longer list has an index.
proof fn lemma_load_fails_on(files: Seq<(Seq<u8>, Seq<u8>)>, k: int)
    requires
        0 <= k <= files.len(),
        spec_load(files.take(k)) is None,
    ensures
        spec_load(files) is None,
    decreases files.len() - k,
{
    if k < files.len() {
        assert(files.take(k + 1).drop_last() =~= files.take(k));
        lemma_load_fails_on(files, k + 1);
    } else {
        assert(files.take(k) =~= files);
    }
}

/// Builds the index of a pack set from its index files, each given with
/// the key it is kept under.
pub fn load(files: &Vec<(Key, Vec<u8>)>) -> (r: Result<PackIndex, RepoError>)
    ensures
        match spec_load(files_model(files@)) {
            Some(m) => r matches Ok(index) && index@ == m,
            None => r matches Err(e) && e == RepoError::MalformedData,
        },
{
    let mut index_map = PackIndex::new();
    let ghost model = files_model(files@);
    let mut k: usize = 0;
    assert(model.take(0) =~= Seq::empty());
    while k < files.len()
        invariant
            k <= files@.len(),
            model == files_model(files@),
            spec_load(model.take(k as int)) == Some(index_map@),
        decreases files@.len() - k,
    {
        let ghost before = index_map@;
        proof {
            assert(model.take(k + 1).drop_last() =~= model.take(k as int));
            assert(model.take(k + 1).last() == model[k as int]);
        }
        let (pack_id, index_data) = match parse(&files[k].0, files[k].1.as_slice()) {
            Ok(found) => found,
            Err(e) => {
                proof {
                    lemma_load_fails_on(model, k + 1);
                }
                return Err(RepoError::MalformedData);
            },
        };
        let ghost entries = index_data.entries.deep_view();
        let mut j: usize = 0;
        assert(entries.take(0) =~= Seq::empty());
        while j < index_data.entries.len()
            invariant
                j <= index_data.entries@.len(),
                entries == index_data.entries.deep_view(),
                index_map@ == with_entries(before, pack_id@, entries.take(j as int)),
            decreases index_data.entries@.len() - j,
        {
            let e = index_data.entries[j];
            proof {
                assert(entries.take(j + 1).drop_last() =~= entries.take(j as int));
                assert(entries.take(j + 1).last() == e.deep_view());
            }
            let loc = PackedItem { pack_id, offset: e.offset, length: e.length };
            index_map.insert(e.sha, loc);
            j += 1;
        }
        assert(entries.take(j as int) =~= entries);
        k += 1;
    }
    assert(model.take(k as int) =~= model);
    Ok(index_map)
}

} // verus!
