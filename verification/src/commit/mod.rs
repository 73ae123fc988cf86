//! Snapshots.

pub mod record;

use crate::compression::{decompress, spec_decompress};
use crate::constructs::Timestamp;
use crate::crypto::{CryptoError, ObjectDecrypter};
use crate::key::{joined, Key};
use crate::packset::{spec_load_object, Packset};
use crate::tree::{BlobKey, BlobKeyModel, NodeModel, StorageType, Tree};
use crate::{CompressionType, RepoError};
use record::{CommitRecord, CommitRecordModel};
use vstd::prelude::*;
use vstd::string::*;

verus! {

/// A directory that still has to be visited: where its record is, how the
/// record is compressed, and the path of the directory below the root of
/// the snapshot.
#[derive(Debug, Clone, PartialEq, Eq)]
pub struct Child {
    pub keys: Vec<BlobKey>,
    pub path: String,
    pub compression_type: CompressionType,
}

/// A directory to visit as a mathematical value.
pub struct ChildModel {
    pub keys: Seq<BlobKeyModel>,
    pub path: Seq<char>,
    pub compression_type: CompressionType,
}

impl DeepView for Child {
    type V = ChildModel;

    open spec fn deep_view(&self) -> ChildModel {
        ChildModel {
            keys: self.keys.deep_view(),
            path: self.path@,
            compression_type: self.compression_type,
        }
    }
}

/// A file of a snapshot: its path below the root of the snapshot and its
/// size in bytes.
#[derive(Debug, Clone, PartialEq, Eq)]
pub struct FileEntry {
    pub path: String,
    pub size: u64,
}

/// A file of a snapshot as a mathematical value.
pub struct FileEntryModel {
    pub path: Seq<char>,
    pub size: u64,
}

impl DeepView for FileEntry {
    type V = FileEntryModel;

    open spec fn deep_view(&self) -> FileEntryModel {
        FileEntryModel { path: self.path@, size: self.size }
    }
}

/// The directories among the entries `nodes` of the directory `path`, in
/// the order of the entries.
pub open spec fn spec_subtrees(path: Seq<char>, nodes: Seq<NodeModel>) -> Seq<ChildModel>
    decreases nodes.len(),
{
    if nodes.len() == 0 {
        Seq::empty()
    } else {
        let before = spec_subtrees(path, nodes.drop_last());
        let n = nodes.last();
        if n.is_tree {
            before.push(
                ChildModel {
                    keys: n.data_blob_keys,
                    path: joined(path, n.name),
                    compression_type: n.data_compression_type,
                },
            )
        } else {
            before
        }
    }
}

/// The files among the entries `nodes` of the directory `path`, in the
/// order of the entries.
pub open spec fn spec_leaves(path: Seq<char>, nodes: Seq<NodeModel>) -> Seq<FileEntryModel>
    decreases nodes.len(),
{
    if nodes.len() == 0 {
        Seq::empty()
    } else {
        let before = spec_leaves(path, nodes.drop_last());
        let n = nodes.last();
        if n.is_tree {
            before
        } else {
            before.push(FileEntryModel { path: joined(path, n.name), size: n.data_size })
        }
    }
}

/// Those of `items` whose place `wanted` marks, in their order; none of
/// them where `wanted` does not have a mark for every item.
pub open spec fn spec_select<A>(items: Seq<A>, wanted: Seq<bool>) -> Seq<A>
    decreases items.len(),
{
    if items.len() == 0 || wanted.len() != items.len() {
        Seq::empty()
    } else {
        let before = spec_select(items.drop_last(), wanted.drop_last());
        if wanted.last() {
            before.push(items.last())
        } else {
            before
        }
    }
}

/// Where `c` stands first in `s`.
pub open spec fn first_index_of(s: Seq<char>, c: char) -> Option<int>
    decreases s.len(),
{
    if s.len() == 0 {
        None
    } else if s[0] == c {
        Some(0)
    } else {
        match first_index_of(s.skip(1), c) {
            Some(i) => Some(i + 1),
            None => None,
        }
    }
}

/// The components of a path pattern: the pieces between its separators,
/// where a separator at the very end ends the last piece and opens no new
/// one.
pub open spec fn spec_components(text: Seq<char>) -> Seq<Seq<char>>
    decreases text.len(),
{
    if text.len() == 0 {
        Seq::empty()
    } else {
        match first_index_of(text, '/') {
            Some(i) => if 0 <= i < text.len() {
                seq![text.take(i)] + spec_components(text.skip(i + 1))
            } else {
                seq![text]
            },
            None => seq![text],
        }
    }
}

/// Whether no character of `text` is a backslash. On some platforms the
/// pattern library takes a backslash for a path separator and on others it
/// does not; of a text without one it says the same everywhere.
pub open spec fn backslash_free(text: Seq<char>) -> bool {
    forall|i: int| 0 <= i < text.len() ==> text[i] != '\\'
}

/// Whether `component` compiles as a shell pattern.
pub uninterp spec fn glob_pattern_compiles(component: Seq<char>) -> bool;

/// Whether `pattern` compiles as a shell pattern and matches all of `path`
/// under the three options of the pattern library.
pub uninterp spec fn glob_pattern_matches(pattern: Seq<char>, path: Seq<char>, case_sensitive: bool, require_literal_separator: bool, require_literal_leading_dot: bool) -> bool;

/// Whether the path `path` of a file matches `pattern`: upper case is told
/// from lower case, a wildcard does not reach across a `/`, and a leading
/// dot is a character like any other.
pub open spec fn file_matches(pattern: Seq<char>, path: Seq<char>) -> bool {
    glob_pattern_matches(pattern, path, true, true, false)
}

/// Whether `wanted` has a mark for every one of `files`, and the mark of
/// a file says whether its path matches `pattern`, as far as the pattern
/// library says the same of the two texts everywhere.
pub open spec fn marks_matches(
    wanted: Seq<bool>,
    files: Seq<FileEntryModel>,
    pattern: Seq<char>,
) -> bool {
    &&& wanted.len() == files.len()
    &&& forall|i: int|
        0 <= i < files.len() && backslash_free(pattern) && backslash_free(files[i].path)
            ==> #[trigger] wanted[i] == file_matches(pattern, files[i].path)
}

/// Whether every one of `components` compiles as a shell pattern.
pub open spec fn all_compile(components: Seq<Seq<char>>) -> bool {
    forall|i: int| 0 <= i < components.len() ==> glob_pattern_compiles(#[trigger] components[i])
}

/// `glob::Pattern::new`: whether `component` compiles as a shell pattern.
/// For a text without a backslash the answer is a matter of the text alone;
/// for any other text it is the pattern library's on this platform.
#[verifier::external_body]
pub(crate) fn glob_compiles(component: &str) -> (r: bool)
    ensures
        backslash_free(component@) ==> r == glob_pattern_compiles(component@),
{
    glob::Pattern::new(component).is_ok()
}

/// `glob::Pattern::matches_with` on the pattern compiled from `pattern`:
/// whether it matches all of `path` under the three options of the pattern
/// library, which are handed on as they are. A pattern that does not
/// compile matches nothing. For texts without a backslash the answer is a
/// matter of the arguments alone; for any other texts it is the pattern
/// library's on this platform.
#[verifier::external_body]
pub(crate) fn glob_matches(
    pattern: &str,
    path: &str,
    case_sensitive: bool,
    require_literal_separator: bool,
    require_literal_leading_dot: bool,
) -> (r: bool)
    ensures
        backslash_free(pattern@) && backslash_free(path@) ==> r == glob_pattern_matches(
            pattern@,
            path@,
            case_sensitive,
            require_literal_separator,
            require_literal_leading_dot,
        ),
{
    let options = glob::MatchOptions {
        case_sensitive,
        require_literal_separator,
        require_literal_leading_dot,
    };
    match glob::Pattern::new(pattern) {
        Ok(compiled) => compiled.matches_with(path, options),
        Err(_) => false,
    }
}

/// Whether the pattern library finds that `path` matches `pattern`: upper
/// case is told from lower case, a wildcard does not reach across a `/`,
/// and a leading dot is a character like any other.
fn path_matches(pattern: &str, path: &str) -> (r: bool)
    ensures
        backslash_free(pattern@) && backslash_free(path@) ==> r == file_matches(pattern@, path@),
{
    glob_matches(pattern, path, true, true, false)
}

/// The components of a text without a backslash are without one.
pub proof fn lemma_components_backslash_free(text: Seq<char>)
    requires
        backslash_free(text),
    ensures
        forall|i: int|
            0 <= i < spec_components(text).len() ==> backslash_free(
                #[trigger] spec_components(text)[i],
            ),
    decreases text.len(),
{
    if text.len() > 0 {
        match first_index_of(text, '/') {
            Some(at) => {
                if 0 <= at < text.len() {
                    let rest = text.skip(at + 1);
                    assert(backslash_free(rest)) by {
                        assert forall|j: int| 0 <= j < rest.len() implies rest[j] != '\\' by {
                            assert(rest[j] == text[j + at + 1]);
                        }
                    }
                    lemma_components_backslash_free(rest);
                    let first = text.take(at);
                    assert(backslash_free(first)) by {
                        assert forall|j: int| 0 <= j < first.len() implies first[j] != '\\' by {
                            assert(first[j] == text[j]);
                        }
                    }
                    let all = seq![first] + spec_components(rest);
                    assert forall|i: int| 0 <= i < all.len() implies backslash_free(
                        #[trigger] all[i],
                    ) by {
                        if i > 0 {
                            assert(all[i] == spec_components(rest)[i - 1]);
                        }
                    }
                }
            },
            None => {},
        }
    }
}

/// The first place from `from` on where `c` stands in `s`.
proof fn lemma_first_index(s: Seq<char>, c: char, k: int)
    requires
        0 <= k <= s.len(),
        forall|j: int| 0 <= j < k ==> s[j] != c,
    ensures
        k < s.len() && s[k] == c ==> first_index_of(s, c) == Some(k),
        k == s.len() ==> first_index_of(s, c) is None,
    decreases k,
{
    if k > 0 {
        assert forall|j: int| 0 <= j < k - 1 implies s.skip(1)[j] != c by {
            assert(s[j + 1] != c);
        }
        lemma_first_index(s.skip(1), c, k - 1);
    }
}

/// The components of a path pattern.
pub fn components(text: &str) -> (r: Vec<String>)
    ensures
        r.deep_view() == spec_components(text@),
{
    let n = text.unicode_len();
    let mut result: Vec<String> = Vec::new();
    let mut start: usize = 0;
    assert(text@.skip(0) =~= text@);
    assert(result.deep_view() =~= Seq::empty());
    assert(Seq::<Seq<char>>::empty() + spec_components(text@) =~= spec_components(text@));
    while start < n
        invariant
            start <= n,
            n == text@.len(),
            spec_components(text@) == result.deep_view() + spec_components(
                text@.skip(start as int),
            ),
        decreases n - start,
    {
        let ghost rest = text@.skip(start as int);
        let ghost done = result.deep_view();
        let mut i: usize = start;
        while i < n && text.get_char(i) != '/'
            invariant
                start <= i <= n,
                n == text@.len(),
                rest == text@.skip(start as int),
                forall|j: int| 0 <= j < i - start ==> rest[j] != '/',
            decreases n - i,
        {
            i += 1;
        }
        proof {
            lemma_first_index(rest, '/', i - start);
        }
        let piece = text.substring_char(start, i);
        assert(piece@ =~= rest.take(i - start));
        result.push(piece.to_owned());
        assert(result.deep_view() =~= done.push(piece@));
        if i < n {
            assert(rest.skip(i - start + 1) =~= text@.skip(i + 1));
            assert(done + (seq![piece@] + spec_components(text@.skip(i + 1))) =~= done.push(
                piece@,
            ) + spec_components(text@.skip(i + 1)));
            start = i + 1;
        } else {
            assert(rest.take(i - start) =~= rest);
            assert(text@.skip(n as int) =~= Seq::empty());
            assert(done + seq![piece@] =~= done.push(piece@) + Seq::<Seq<char>>::empty());
            start = n;
        }
    }
    assert(text@.skip(n as int) =~= Seq::empty());
    assert(result.deep_view() + Seq::<Seq<char>>::empty() =~= result.deep_view());
    result
}

/// The components of a pattern, where `compiled` says of every one of
/// them that it compiled; a component that did not compile, or that
/// `compiled` says nothing of, makes the pattern an input error.
pub fn checked_components(components: Vec<String>, compiled: &Vec<bool>) -> (r: Result<
    Vec<String>,
    RepoError,
>)
    ensures
        if compiled@.len() == components@.len() && forall|i: int|
            0 <= i < compiled@.len() ==> compiled@[i] {
            r matches Ok(cs) && cs == components
        } else {
            r matches Err(e) && e == RepoError::InputError
        },
{
    if compiled.len() != components.len() {
        return Err(RepoError::InputError);
    }
    let mut k: usize = 0;
    while k < compiled.len()
        invariant
            k <= compiled@.len(),
            forall|i: int| 0 <= i < k ==> compiled@[i],
        decreases compiled@.len() - k,
    {
        if !compiled[k] {
            return Err(RepoError::InputError);
        }
        k += 1;
    }
    Ok(components)
}

/// Takes a path pattern apart into its components and has every one of
/// them compiled. A component that does not compile is an input error. A
/// pattern without components is none.
pub fn parse_pattern(pattern_text: &str) -> (r: Result<Vec<String>, RepoError>)
    ensures
        r matches Ok(cs) ==> cs.deep_view() == spec_components(pattern_text@),
        r matches Err(e) ==> e == RepoError::InputError,
        backslash_free(pattern_text@) ==> (r is Ok <==> all_compile(
            spec_components(pattern_text@),
        )),
        spec_components(pattern_text@).len() == 0 ==> r is Ok,
{
    let parts = components(pattern_text);
    let mut compiled: Vec<bool> = Vec::new();
    let mut k: usize = 0;
    proof {
        if backslash_free(pattern_text@) {
            lemma_components_backslash_free(pattern_text@);
        }
    }
    while k < parts.len()
        invariant
            k <= parts@.len(),
            compiled@.len() == k,
            parts.deep_view() == spec_components(pattern_text@),
            backslash_free(pattern_text@) ==> forall|i: int|
                0 <= i < spec_components(pattern_text@).len() ==> backslash_free(
                    #[trigger] spec_components(pattern_text@)[i],
                ),
            backslash_free(pattern_text@) ==> forall|i: int|
                0 <= i < k ==> compiled@[i] == glob_pattern_compiles(
                    #[trigger] spec_components(pattern_text@)[i],
                ),
        decreases parts@.len() - k,
    {
        assert(parts.deep_view()[k as int] == parts@[k as int]@);
        compiled.push(glob_compiles(parts[k].as_str()));
        k += 1;
    }
    proof {
        let cs = spec_components(pattern_text@);
        assert(cs.len() == parts@.len());
        if backslash_free(pattern_text@) {
            if all_compile(cs) {
                assert forall|i: int| 0 <= i < compiled@.len() implies compiled@[i] by {
                    assert(glob_pattern_compiles(cs[i]));
                }
            }
            if forall|i: int| 0 <= i < compiled@.len() ==> compiled@[i] {
                assert forall|i: int| 0 <= i < cs.len() implies glob_pattern_compiles(
                    #[trigger] cs[i],
                ) by {
                    assert(compiled@[i]);
                }
            }
        }
    }
    checked_components(parts, &compiled)
}

/// What a fragment of a blob is once the decrypter has answered: a failure
/// of the decrypter is a crypto error; what it decrypted is the fragment
/// where the blob is not compressed, and is decompressed where it is.
pub open spec fn spec_fragment_of(
    outcome: Result<Vec<u8>, CryptoError>,
    compression_type: CompressionType,
) -> Result<Seq<u8>, RepoError> {
    match outcome {
        Ok(plain) => if compression_type == CompressionType::Uncompressed {
            Ok(plain@)
        } else {
            match spec_decompress(plain@, compression_type) {
                Some(bytes) => Ok(bytes),
                None => Err(RepoError::MalformedData),
            }
        },
        Err(_) => Err(RepoError::CryptoError),
    }
}

/// A fragment of a blob, from the answer of the decrypter.
pub fn fragment_of(outcome: Result<Vec<u8>, CryptoError>, compression_type: CompressionType) -> (r:
    Result<Vec<u8>, RepoError>)
    ensures
        match spec_fragment_of(outcome, compression_type) {
            Ok(bytes) => r matches Ok(x) && x@ == bytes,
            Err(e) => r matches Err(x) && x == e,
        },
{
    match outcome {
        Ok(plain) => {
            if compression_type == CompressionType::Uncompressed {
                Ok(plain)
            } else {
                decompress(plain.as_slice(), compression_type)
            }
        },
        Err(_) => Err(RepoError::CryptoError),
    }
}

/// One fragment of a blob: the object `key` out of the content `pack_data`
/// of the pack file that holds it, decrypted and, where the blob is
/// compressed, decompressed.
pub fn load_blob_fragment<D: ObjectDecrypter>(
    packset: &Packset,
    key: &BlobKey,
    pack_data: &[u8],
    decrypter: &D,
    compression_type: CompressionType,
) -> (r: Result<Vec<u8>, RepoError>)
    ensures
        spec_load_object(packset.index(), key.sha@, pack_data@) is None ==> (r matches Err(e)
            && e == RepoError::MalformedData),
        r matches Err(e) ==> e == RepoError::MalformedData || e == RepoError::CryptoError,
{
    let encrypted_object = packset.load(&key.sha, pack_data)?;
    fragment_of(decrypter.decrypt_object(encrypted_object.content.as_slice()), compression_type)
}

/// All the bytes of `fragments`, one fragment behind the other.
pub open spec fn spec_concat(fragments: Seq<Vec<u8>>) -> Seq<u8>
    decreases fragments.len(),
{
    if fragments.len() == 0 {
        Seq::empty()
    } else {
        spec_concat(fragments.drop_last()) + fragments.last()@
    }
}

/// Puts the fragments of a blob together, in the order of their keys.
pub fn join_fragments(fragments: &Vec<Vec<u8>>) -> (r: Vec<u8>)
    ensures
        r@ == spec_concat(fragments@),
{
    let mut result: Vec<u8> = Vec::new();
    let mut k: usize = 0;
    assert(fragments@.take(0) =~= Seq::empty());
    while k < fragments.len()
        invariant
            k <= fragments@.len(),
            result@ == spec_concat(fragments@.take(k as int)),
        decreases fragments@.len() - k,
    {
        assert(fragments@.take(k + 1).drop_last() =~= fragments@.take(k as int));
        let ghost before = result@;
        let piece = &fragments[k];
        let mut j: usize = 0;
        while j < piece.len()
            invariant
                j <= piece@.len(),
                result@ == before + piece@.take(j as int),
            decreases piece@.len() - j,
        {
            result.push(piece[j]);
            assert(piece@.take(j + 1) =~= piece@.take(j as int).push(piece@[j as int]));
            assert(result@ =~= before + piece@.take(j + 1));
            j += 1;
        }
        assert(piece@.take(j as int) =~= piece@);
        k += 1;
    }
    assert(fragments@.take(k as int) =~= fragments@);
    result
}

/// What a blob is, from what was had of its fragments, in the order of its
/// keys: all the fragments put together, or the first failure among them.
pub open spec fn spec_blob_of(outcomes: Seq<Result<Vec<u8>, RepoError>>) -> Result<
    Seq<u8>,
    RepoError,
>
    decreases outcomes.len(),
{
    if outcomes.len() == 0 {
        Ok(Seq::empty())
    } else {
        match spec_blob_of(outcomes.drop_last()) {
            Ok(bytes) => match outcomes.last() {
                Ok(fragment) => Ok(bytes + fragment@),
                Err(e) => Err(e),
            },
            Err(e) => Err(e),
        }
    }
}

/// Once the fragments up to some place fail a blob, the blob fails in the
/// same way whatever follows.
proof fn lemma_blob_fails_on(outcomes: Seq<Result<Vec<u8>, RepoError>>, k: int)
    requires
        0 <= k <= outcomes.len(),
        spec_blob_of(outcomes.take(k)) is Err,
    ensures
        spec_blob_of(outcomes) == spec_blob_of(outcomes.take(k)),
    decreases outcomes.len() - k,
{
    if k < outcomes.len() {
        assert(outcomes.take(k + 1).drop_last() =~= outcomes.take(k));
        lemma_blob_fails_on(outcomes, k + 1);
    } else {
        assert(outcomes.take(k) =~= outcomes);
    }
}

/// A blob is had where all its fragments are; where it is not, it fails
/// as one of its fragments does.
pub proof fn lemma_blob_of(outcomes: Seq<Result<Vec<u8>, RepoError>>)
    ensures
        spec_blob_of(outcomes) is Ok <==> forall|j: int|
            0 <= j < outcomes.len() ==> (#[trigger] outcomes[j]) is Ok,
        spec_blob_of(outcomes) matches Err(e) ==> exists|j: int|
            0 <= j < outcomes.len() && #[trigger] outcomes[j] == Err::<Vec<u8>, RepoError>(e),
    decreases outcomes.len(),
{
    if outcomes.len() > 0 {
        let shorter = outcomes.drop_last();
        lemma_blob_of(shorter);
        assert forall|j: int| 0 <= j < shorter.len() implies shorter[j] == outcomes[j] by {}
        match spec_blob_of(shorter) {
            Ok(_) => {
                assert forall|j: int| 0 <= j < shorter.len() implies (#[trigger] outcomes[j])
                    is Ok by {
                    assert(shorter[j] is Ok);
                }
                match outcomes.last() {
                    Ok(_) => {},
                    Err(e) => {
                        assert(outcomes[outcomes.len() - 1] == Err::<Vec<u8>, RepoError>(e));
                    },
                }
            },
            Err(e) => {
                let j = choose|j: int|
                    0 <= j < shorter.len() && #[trigger] shorter[j] == Err::<Vec<u8>, RepoError>(
                        e,
                    );
                assert(outcomes[j] == Err::<Vec<u8>, RepoError>(e));
            },
        }
    }
}

/// A blob, from what was had of its fragments, in the order of its keys:
/// the fragments put together, or the first failure among them.
pub fn blob_of(outcomes: &Vec<Result<Vec<u8>, RepoError>>) -> (r: Result<Vec<u8>, RepoError>)
    ensures
        match spec_blob_of(outcomes@) {
            Ok(bytes) => r matches Ok(x) && x@ == bytes,
            Err(e) => r matches Err(x) && x == e,
        },
{
    let mut fragments: Vec<Vec<u8>> = Vec::new();
    let mut k: usize = 0;
    assert(outcomes@.take(0) =~= Seq::empty());
    while k < outcomes.len()
        invariant
            k <= outcomes@.len(),
            spec_blob_of(outcomes@.take(k as int)) == Ok::<Seq<u8>, RepoError>(
                spec_concat(fragments@),
            ),
        decreases outcomes@.len() - k,
    {
        let ghost had = fragments@;
        assert(outcomes@.take(k + 1).drop_last() =~= outcomes@.take(k as int));
        match &outcomes[k] {
            Ok(fragment) => {
                let copy = fragment.clone();
                fragments.push(copy);
                assert(fragments@.drop_last() =~= had);
            },
            Err(e) => {
                proof {
                    lemma_blob_fails_on(outcomes@, k + 1);
                }
                return Err(*e);
            },
        }
        k += 1;
    }
    assert(outcomes@.take(k as int) =~= outcomes@);
    Ok(join_fragments(&fragments))
}

/// A whole blob: its fragments, each out of the content of the pack file
/// that holds it, put together in the order of the keys. `pack_data` holds
/// the content of the pack file for every key, in the order of the keys;
/// where it does not, the blob is malformed data. The first fragment that
/// cannot be had fails the blob, and the fragments behind it are not asked
/// for. A blob without fragments is empty.
pub fn load_blob<D: ObjectDecrypter>(
    packset: &Packset,
    keys: &Vec<BlobKey>,
    pack_data: &Vec<Vec<u8>>,
    decrypter: &D,
    compression_type: CompressionType,
) -> (r: Result<Vec<u8>, RepoError>)
    ensures
        pack_data@.len() != keys@.len() ==> (r matches Err(e) && e == RepoError::MalformedData),
        pack_data@.len() == 0 && keys@.len() == 0 ==> (r matches Ok(b) && b@.len() == 0),
        pack_data@.len() == keys@.len() && (exists|k: int|
            0 <= k < keys@.len() && spec_load_object(
                packset.index(),
                (#[trigger] keys@[k]).sha@,
                pack_data@[k]@,
            ) is None) ==> r is Err,
        r matches Err(e) ==> e == RepoError::MalformedData || e == RepoError::CryptoError,
{
    if pack_data.len() != keys.len() {
        return Err(RepoError::MalformedData);
    }
    let mut outcomes: Vec<Result<Vec<u8>, RepoError>> = Vec::new();
    let mut failed = false;
    let mut k: usize = 0;
    while k < keys.len() && !failed
        invariant
            k <= keys@.len(),
            outcomes@.len() == k,
            pack_data@.len() == keys@.len(),
            failed ==> k > 0 && outcomes@[k - 1] is Err,
            forall|j: int|
                0 <= j < k && spec_load_object(
                    packset.index(),
                    (#[trigger] keys@[j]).sha@,
                    pack_data@[j]@,
                ) is None ==> outcomes@[j] is Err,
            forall|j: int|
                0 <= j < k ==> ((#[trigger] outcomes@[j]) matches Err(e) ==> e
                    == RepoError::MalformedData || e == RepoError::CryptoError),
        decreases keys@.len() - k + (if failed { 0int } else { 1int }),
    {
        let outcome = load_blob_fragment(
            packset,
            &keys[k],
            pack_data[k].as_slice(),
            decrypter,
            compression_type,
        );
        failed = outcome.is_err();
        outcomes.push(outcome);
        k += 1;
    }
    proof {
        lemma_blob_of(outcomes@);
        if keys@.len() == 0 {
            assert(outcomes@ =~= Seq::empty());
        }
    }
    blob_of(&outcomes)
}

/// The root directory of a snapshot, as the first directory to visit: its
/// record is one blob in S3 under the hash that the snapshot names, and its
/// path is empty.
pub open spec fn spec_root(record: CommitRecordModel) -> ChildModel {
    ChildModel {
        keys: seq![
            BlobKeyModel {
                sha: record.tree_sha,
                stretch_key: record.expand_key,
                storage_type: StorageType::S3,
                size: None,
                upload_date: None,
            },
        ],
        path: Seq::empty(),
        compression_type: record.compression_type,
    }
}

/// A snapshot of a folder.
#[derive(Debug, Clone)]
pub struct Commit {
    pub record: CommitRecord,
}

impl Commit {
    /// Decodes a snapshot record.
    pub fn parse(blob: &[u8]) -> (r: Result<Commit, RepoError>)
        ensures
            match record::spec_parse(blob@) {
                Some(c) => r matches Ok(x) && x.record.deep_view() == c,
                None => r matches Err(e) && e == RepoError::MalformedData,
            },
    {
        match record::parse(blob) {
            Ok(record) => Ok(Commit { record }),
            Err(e) => Err(e),
        }
    }

    /// The root directory of the snapshot, as the first directory to
    /// visit: its record is one blob in S3, and its path is empty.
    pub fn root(&self) -> (c: Child)
        ensures
            c.deep_view() == spec_root(self.record.deep_view()),
    {
        let mut keys: Vec<BlobKey> = Vec::new();
        let key = BlobKey {
            sha: self.record.tree_sha,
            stretch_key: self.record.expand_key,
            storage_type: StorageType::S3,
            size: None,
            upload_date: None,
        };
        keys.push(key);
        assert(keys.deep_view() =~= seq![key.deep_view()]);
        Child { keys, path: String::new(), compression_type: self.record.compression_type }
    }

    /// Starts the walk over the files of the snapshot that match
    /// `pattern`. A pattern with a component that does not compile is an
    /// input error. The walk starts with the root directory to visit.
    pub fn list_files(&self, pattern: &str) -> (r: Result<TreeWalker, RepoError>)
        ensures
            r matches Ok(w) ==> w.pattern() == pattern@ && w.pending() == seq![
                spec_root(self.record.deep_view()),
            ],
            r matches Err(e) ==> e == RepoError::InputError,
            backslash_free(pattern@) ==> (r is Ok <==> all_compile(spec_components(pattern@))),
            spec_components(pattern@).len() == 0 ==> r is Ok,
    {
        let _patterns = parse_pattern(pattern)?;
        let mut pending: Vec<Child> = Vec::new();
        let root = self.root();
        pending.push(root);
        assert(pending.deep_view() =~= seq![root.deep_view()]);
        Ok(TreeWalker { pending, pattern: pattern.to_owned() })
    }

    /// When the snapshot was made.
    pub fn timestamp(&self) -> (t: &Timestamp)
        ensures
            *t == self.record.timestamp,
    {
        &self.record.timestamp
    }
}

/// A walk over the directories of a snapshot. The walk keeps the list of
/// the directories that still have to be visited; the one found last is
/// visited first.
#[derive(Debug)]
pub struct TreeWalker {
    pending: Vec<Child>,
    pattern: String,
}

/// A copy of the keys `keys`.
fn copy_keys(keys: &Vec<BlobKey>) -> (r: Vec<BlobKey>)
    ensures
        r.deep_view() == keys.deep_view(),
{
    let mut r: Vec<BlobKey> = Vec::new();
    let mut k: usize = 0;
    while k < keys.len()
        invariant
            k <= keys@.len(),
            r@ == keys@.take(k as int),
        decreases keys@.len() - k,
    {
        r.push(keys[k]);
        assert(r@ =~= keys@.take(k + 1));
        k += 1;
    }
    assert(r@ =~= keys@);
    r
}

/// The path of the entry `name` of the directory `path`.
fn child_path(path: &str, name: &str) -> (r: String)
    ensures
        r@ == joined(path@, name@),
{
    Key::from(path).join(name).into_string()
}

/// Those of `items` whose place `wanted` marks, in their order. Where
/// `wanted` does not have a mark for every item, none is selected.
pub fn select(items: &Vec<FileEntry>, wanted: &Vec<bool>) -> (r: Vec<FileEntry>)
    ensures
        r.deep_view() == spec_select(items.deep_view(), wanted@),
{
    let ghost all = items.deep_view();
    let mut r: Vec<FileEntry> = Vec::new();
    let mut k: usize = 0;
    assert(r.deep_view() =~= Seq::empty());
    assert(all.take(0) =~= Seq::empty());
    if wanted.len() != items.len() {
        return r;
    }
    while k < items.len()
        invariant
            k <= items@.len(),
            wanted@.len() == items@.len(),
            all == items.deep_view(),
            r.deep_view() == spec_select(all.take(k as int), wanted@.take(k as int)),
        decreases items@.len() - k,
    {
        let ghost picked = r.deep_view();
        proof {
            assert(all.take(k + 1).drop_last() =~= all.take(k as int));
            assert(wanted@.take(k + 1).drop_last() =~= wanted@.take(k as int));
            assert(all.take(k + 1).last() == items@[k as int].deep_view());
        }
        if wanted[k] {
            let entry = FileEntry { path: items[k].path.clone(), size: items[k].size };
            r.push(entry);
            assert(r.deep_view() =~= picked.push(entry.deep_view()));
        }
        k += 1;
    }
    assert(all.take(k as int) =~= all);
    assert(wanted@.take(k as int) =~= wanted@);
    r
}

impl TreeWalker {
    /// The pattern that the files are matched against.
    pub closed spec fn pattern(&self) -> Seq<char> {
        self.pattern@
    }

    /// The directories that still have to be visited.
    pub closed spec fn pending(&self) -> Seq<ChildModel> {
        self.pending.deep_view()
    }

    /// The directory to visit next: the one that was found last. There is
    /// none once the walk is over.
    pub fn next(&mut self) -> (r: Option<Child>)
        ensures
            final(self).pattern() == old(self).pattern(),
            match r {
                Some(c) => old(self).pending().len() > 0 && c.deep_view() == old(
                    self,
                ).pending().last() && final(self).pending() == old(self).pending().drop_last(),
                None => old(self).pending().len() == 0 && final(self).pending() == old(
                    self,
                ).pending(),
            },
    {
        let ghost before = self.pending.deep_view();
        let r = self.pending.pop();
        assert(r is Some ==> self.pending.deep_view() =~= before.drop_last());
        r
    }

    /// Visits the directory `parent`, whose record is `tree`: every entry
    /// that is a directory is put on the list of those to visit, in the
    /// order of the record, and the entries that are files are given back,
    /// in the order of the record, as far as the pattern library finds that
    /// their path matches the pattern. A wildcard of the pattern stays
    /// within one component of the path; only `**` reaches across
    /// directories.
    pub fn visit(&mut self, parent: &Child, tree: &Tree) -> (r: Vec<FileEntry>)
        ensures
            final(self).pattern() == old(self).pattern(),
            final(self).pending() == old(self).pending() + spec_subtrees(
                parent.path@,
                tree.nodes.deep_view(),
            ),
            exists|wanted: Seq<bool>|
                #[trigger] marks_matches(
                    wanted,
                    spec_leaves(parent.path@, tree.nodes.deep_view()),
                    old(self).pattern(),
                ) && r.deep_view() == spec_select(
                    spec_leaves(parent.path@, tree.nodes.deep_view()),
                    wanted,
                ),
    {
        let ghost nodes = tree.nodes.deep_view();
        let ghost start = self.pending.deep_view();
        let mut leaves: Vec<FileEntry> = Vec::new();
        let mut wanted: Vec<bool> = Vec::new();
        let mut k: usize = 0;
        assert(nodes.take(0) =~= Seq::empty());
        assert(leaves.deep_view() =~= Seq::empty());
        assert(start + Seq::<ChildModel>::empty() =~= start);
        while k < tree.nodes.len()
            invariant
                k <= tree.nodes@.len(),
                nodes == tree.nodes.deep_view(),
                self.pattern() == old(self).pattern(),
                self.pending.deep_view() == start + spec_subtrees(
                    parent.path@,
                    nodes.take(k as int),
                ),
                leaves.deep_view() == spec_leaves(parent.path@, nodes.take(k as int)),
                wanted@.len() == leaves@.len(),
                forall|i: int|
                    0 <= i < wanted@.len() && backslash_free(self.pattern@) && backslash_free(
                        leaves.deep_view()[i].path,
                    ) ==> #[trigger] wanted@[i] == file_matches(
                        self.pattern@,
                        leaves.deep_view()[i].path,
                    ),
            decreases tree.nodes@.len() - k,
        {
            let n = &tree.nodes[k];
            let ghost queued = self.pending.deep_view();
            let ghost found = leaves.deep_view();
            proof {
                assert(nodes.take(k + 1).drop_last() =~= nodes.take(k as int));
                assert(nodes.take(k + 1).last() == n.deep_view());
            }
            let path = child_path(parent.path.as_str(), n.name.as_str());
            if n.is_tree {
                let child = Child {
                    keys: copy_keys(&n.data_blob_keys),
                    path,
                    compression_type: n.data_compression_type,
                };
                self.pending.push(child);
                proof {
                    assert(self.pending.deep_view() =~= queued.push(child.deep_view()));
                    assert(start + spec_subtrees(parent.path@, nodes.take(k as int)).push(
                        child.deep_view(),
                    ) =~= queued.push(child.deep_view()));
                }
            } else {
                let ghost marks = wanted@;
                wanted.push(path_matches(self.pattern.as_str(), path.as_str()));
                let entry = FileEntry { path, size: n.data_size };
                leaves.push(entry);
                assert(leaves.deep_view() =~= found.push(entry.deep_view()));
                assert forall|i: int|
                    0 <= i < wanted@.len() && backslash_free(self.pattern@) && backslash_free(
                        leaves.deep_view()[i].path,
                    ) implies #[trigger] wanted@[i] == file_matches(
                    self.pattern@,
                    leaves.deep_view()[i].path,
                ) by {
                    if i < marks.len() {
                        assert(wanted@[i] == marks[i]);
                        assert(leaves.deep_view()[i] == found[i]);
                    }
                }
            }
            k += 1;
        }
        assert(nodes.take(k as int) =~= nodes);
        assert(marks_matches(wanted@, leaves.deep_view(), self.pattern@));
        select(&leaves, &wanted)
    }
}

} // verus!
