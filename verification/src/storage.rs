//! What the engine asks of an object store: the values that go in and come
//! out of listing a prefix and fetching an object.
//!
//! The store itself is not here. Whoever drives one hands the engine what
//! the store gave, as plain values.

use crate::key::Key;
use vstd::prelude::*;
use vstd::string::*;

verus! {

/// Why the object store failed.
#[derive(Debug, Eq, PartialEq, Clone, Copy, Structural)]
pub enum Error {
    NoSuchObject,
    AccessDenied,
    NetworkError,
    UnknownError,
}

/// An object that the store holds: its key and its size in bytes.
#[derive(Debug)]
pub struct ObjectInfo {
    pub key: Key,
    pub size: i64,
}

/// An object of a listing as a mathematical value.
pub struct ObjectInfoModel {
    pub key: Seq<char>,
    pub size: i64,
}

impl DeepView for ObjectInfo {
    type V = ObjectInfoModel;

    open spec fn deep_view(&self) -> ObjectInfoModel {
        ObjectInfoModel { key: self.key@, size: self.size }
    }
}

/// What a listing is asked to include: folders, which are the common
/// prefixes below the listed prefix, files, which are its leaf objects, or
/// both.
#[derive(Debug, Eq, PartialEq, Clone, Copy, Structural)]
pub struct Include {
    pub dirs: bool,
    pub files: bool,
}

impl Include {
    /// Neither folders nor files.
    pub open spec fn spec_nothing() -> Include {
        Include { dirs: false, files: false }
    }

    /// Folders only.
    pub open spec fn spec_dirs() -> Include {
        Include { dirs: true, files: false }
    }

    /// Files only.
    pub open spec fn spec_files() -> Include {
        Include { dirs: false, files: true }
    }

    /// Neither folders nor files.
    #[verifier::when_used_as_spec(spec_nothing)]
    pub fn nothing() -> (r: Include)
        ensures
            r == Include::spec_nothing(),
    {
        Include { dirs: false, files: false }
    }

    /// Folders only.
    #[verifier::when_used_as_spec(spec_dirs)]
    pub fn dirs() -> (r: Include)
        ensures
            r == Include::spec_dirs(),
    {
        Include { dirs: true, files: false }
    }

    /// Files only.
    #[verifier::when_used_as_spec(spec_files)]
    pub fn files() -> (r: Include)
        ensures
            r == Include::spec_files(),
    {
        Include { dirs: false, files: true }
    }

    /// Whether everything that `other` includes is included.
    pub open spec fn spec_contains(self, other: Include) -> bool {
        (other.dirs ==> self.dirs) && (other.files ==> self.files)
    }

    /// Whether everything that `other` includes is included.
    pub fn contains(&self, other: Include) -> (r: bool)
        ensures
            r == self.spec_contains(other),
    {
        (!other.dirs || self.dirs) && (!other.files || self.files)
    }

    /// What `self` and `other` include together.
    pub fn union(self, other: Include) -> (r: Include)
        ensures
            r.dirs == (self.dirs || other.dirs),
            r.files == (self.files || other.files),
    {
        Include { dirs: self.dirs || other.dirs, files: self.files || other.files }
    }
}

/// One page of the answer of a store to a listing request, as the store
/// gave it: every part of it may be lacking.
pub struct ListingPage {
    /// The common prefixes below the listed prefix.
    pub common_prefixes: Option<Vec<Option<String>>>,
    /// The leaf objects below the listed prefix: their keys and sizes.
    pub contents: Option<Vec<(Option<String>, Option<i64>)>>,
    /// Whether more pages follow.
    pub is_truncated: Option<bool>,
    /// What to ask the next page with.
    pub next_continuation_token: Option<String>,
}

/// What to do once a page of a listing has been taken in.
pub enum NextPage {
    /// The listing is complete.
    Done,
    /// One more page has to be asked for, with this token.
    Continue(Option<String>),
}

/// The characters of a string that may be lacking: none for one that is.
pub open spec fn text_or_empty(text: Option<String>) -> Seq<char> {
    match text {
        Some(s) => s@,
        None => Seq::empty(),
    }
}

/// The folders that a list of common prefixes stands for: every prefix is
/// an object of size zero.
pub open spec fn folder_objects(prefixes: Seq<Option<String>>) -> Seq<ObjectInfoModel> {
    Seq::new(
        prefixes.len(),
        |i: int| ObjectInfoModel { key: text_or_empty(prefixes[i]), size: 0 },
    )
}

/// The files that a list of leaf objects stands for: a size that is lacking
/// counts as zero.
pub open spec fn file_objects(contents: Seq<(Option<String>, Option<i64>)>) -> Seq<ObjectInfoModel> {
    Seq::new(
        contents.len(),
        |i: int|
            ObjectInfoModel {
                key: text_or_empty(contents[i].0),
                size: match contents[i].1 {
                    Some(n) => n,
                    None => 0,
                },
            },
    )
}

/// What a page adds to a listing that includes `flags`: its folders where
/// folders are included, and behind them its files where files are.
pub open spec fn spec_page_objects(flags: Include, page: ListingPage) -> Seq<ObjectInfoModel> {
    (if flags.spec_contains(Include::dirs()) && page.common_prefixes is Some {
        folder_objects(page.common_prefixes.unwrap()@)
    } else {
        Seq::empty()
    }) + (if flags.spec_contains(Include::files()) && page.contents is Some {
        file_objects(page.contents.unwrap()@)
    } else {
        Seq::empty()
    })
}

/// A listing that is put together page by page.
pub struct Listing {
    flags: Include,
    objects: Vec<ObjectInfo>,
}

impl Listing {
    /// What the listing includes.
    pub closed spec fn flags(&self) -> Include {
        self.flags
    }

    /// The objects that the listing holds so far.
    pub closed spec fn objects(&self) -> Seq<ObjectInfoModel> {
        self.objects.deep_view()
    }

    /// An empty listing that includes `flags`.
    pub fn new(flags: Include) -> (r: Listing)
        ensures
            r.flags() == flags,
            r.objects() == Seq::<ObjectInfoModel>::empty(),
    {
        let r = Listing { flags, objects: Vec::new() };
        assert(r.objects.deep_view() =~= Seq::empty());
        r
    }

    /// Takes one page in: the objects that the listing includes are put
    /// behind those it already holds. A page that is marked as truncated
    /// asks for one more page, with the token that the page gives.
    pub fn absorb(&mut self, page: ListingPage) -> (r: NextPage)
        ensures
            final(self).flags() == old(self).flags(),
            final(self).objects() == old(self).objects() + spec_page_objects(
                old(self).flags(),
                page,
            ),
            match r {
                NextPage::Done => page.is_truncated != Some(true),
                NextPage::Continue(token) => page.is_truncated == Some(true) && token
                    == page.next_continuation_token,
            },
    {
        let ghost start = self.objects.deep_view();
        let ghost folders = if self.flags.spec_contains(Include::dirs()) && page.common_prefixes
            is Some {
            folder_objects(page.common_prefixes.unwrap()@)
        } else {
            Seq::empty()
        };
        if self.flags.contains(Include::dirs()) {
            if let Some(prefixes) = &page.common_prefixes {
                let mut k: usize = 0;
                assert(start + folders.take(0) =~= start);
                while k < prefixes.len()
                    invariant
                        k <= prefixes@.len(),
                        self.flags == old(self).flags,
                        folders == folder_objects(prefixes@),
                        self.objects.deep_view() == start + folders.take(k as int),
                    decreases prefixes@.len() - k,
                {
                    let ghost held = self.objects.deep_view();
                    let key = match &prefixes[k] {
                        Some(s) => Key::from(s.clone()),
                        None => Key::from(String::new()),
                    };
                    let object = ObjectInfo { key, size: 0 };
                    self.objects.push(object);
                    proof {
                        assert(self.objects.deep_view() =~= held.push(object.deep_view()));
                        assert(folders.take(k + 1) =~= folders.take(k as int).push(
                            folders[k as int],
                        ));
                        assert(held.push(object.deep_view()) =~= start + folders.take(k + 1));
                    }
                    k += 1;
                }
                assert(folders.take(k as int) =~= folders);
            }
        }
        assert(self.objects.deep_view() =~= start + folders);
        let ghost middle = self.objects.deep_view();
        let ghost files = if self.flags.spec_contains(Include::files()) && page.contents is Some {
            file_objects(page.contents.unwrap()@)
        } else {
            Seq::empty()
        };
        if self.flags.contains(Include::files()) {
            if let Some(contents) = &page.contents {
                let mut k: usize = 0;
                assert(middle + files.take(0) =~= middle);
                while k < contents.len()
                    invariant
                        k <= contents@.len(),
                        self.flags == old(self).flags,
                        files == file_objects(contents@),
                        self.objects.deep_view() == middle + files.take(k as int),
                    decreases contents@.len() - k,
                {
                    let ghost held = self.objects.deep_view();
                    let key = match &contents[k].0 {
                        Some(s) => Key::from(s.clone()),
                        None => Key::from(String::new()),
                    };
                    let size = match contents[k].1 {
                        Some(n) => n,
                        None => 0,
                    };
                    let object = ObjectInfo { key, size };
                    self.objects.push(object);
                    proof {
                        assert(self.objects.deep_view() =~= held.push(object.deep_view()));
                        assert(files.take(k + 1) =~= files.take(k as int).push(files[k as int]));
                        assert(held.push(object.deep_view()) =~= middle + files.take(k + 1));
                    }
                    k += 1;
                }
                assert(files.take(k as int) =~= files);
            }
        }
        assert(self.objects.deep_view() =~= start + (folders + files));
        match page.is_truncated {
            Some(true) => NextPage::Continue(page.next_continuation_token),
            _ => NextPage::Done,
        }
    }

    /// The objects of the listing.
    pub fn into_objects(self) -> (r: Vec<ObjectInfo>)
        ensures
            r.deep_view() == self.objects(),
    {
        self.objects
    }
}

} // verus!
