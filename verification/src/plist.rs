//! Property-list documents, as far as the repository uses them: flat
//! dictionaries of strings.

use vstd::prelude::*;
use vstd::string::*;

verus! {

/// The string that the property list `document` holds under `key` at the
/// top of its dictionary. There is none where the document is no property
/// list, where it is no dictionary, where it has no such key, and where the
/// value under the key is no string.
pub uninterp spec fn plist_string_entry(document: Seq<u8>, key: Seq<char>) -> Option<Seq<char>>;

/// `plist::Value::from_reader` on the bytes of a document, and from the
/// value it gives the string under `key` (`Value::as_dictionary`,
/// `Dictionary::get`, `Value::as_string`).
#[verifier::external_body]
pub(crate) fn plist_string(document: &[u8], key: &str) -> (r: Option<String>)
    ensures
        r.deep_view() == plist_string_entry(document@, key@),
{
    let value = plist::Value::from_reader(std::io::Cursor::new(document)).ok()?;
    value.as_dictionary()?.get(key)?.as_string().map(|s| s.to_owned())
}

} // verus!
