//! Where the local cache keeps the objects it holds.
//!
//! The cache is a directory on disk with one file for every object, under
//! the key of the object. Reading and writing the files is left to whoever
//! owns the disk; the paths are decided here.

use crate::key::{joined, Key};
use vstd::prelude::*;
use vstd::string::*;

verus! {

/// A cache below a directory, or no cache at all.
#[derive(Debug, Clone)]
pub struct Cache {
    root: Option<String>,
}

impl Cache {
    /// The directory of the cache, if there is a cache.
    pub closed spec fn root(&self) -> Option<Seq<char>> {
        match self.root {
            Some(p) => Some(p@),
            None => None,
        }
    }

    /// Where the object `key` is kept: below the directory of the cache,
    /// under its key. Without a cache it is kept nowhere.
    pub open spec fn spec_entry_path(&self, key: Seq<char>) -> Option<Seq<char>> {
        match self.root() {
            Some(root) => Some(joined(root, key)),
            None => None,
        }
    }

    /// The cache below `path`, or no cache where there is no path.
    pub fn new(path: Option<String>) -> (c: Cache)
        ensures
            c.root() == path.deep_view(),
    {
        Cache { root: path }
    }

    /// The file that holds the object `key`.
    pub fn entry_path(&self, key: &Key) -> (r: Option<String>)
        ensures
            r.deep_view() == self.spec_entry_path(key@),
    {
        match &self.root {
            Some(root) => Some(Key::from(root.clone()).join(key.as_str()).into_string()),
            None => None,
        }
    }

    /// The file that an object is written to before it takes its place: a
    /// sibling of its file whose name ends in `.tmp`. An object is put into
    /// the cache by writing this file and renaming it.
    pub fn temp_path(&self, key: &Key) -> (r: Option<String>)
        ensures
            match self.spec_entry_path(key@) {
                Some(path) => r matches Some(tmp) && tmp@ == path + ".tmp"@,
                None => r is None,
            },
    {
        match self.entry_path(key) {
            Some(path) => {
                let mut tmp = path;
                tmp.append(".tmp");
                Some(tmp)
            },
            None => None,
        }
    }
}

} // verus!
