//! Objects inside a pack file.
//!
//! A pack file is a 16-byte header and then objects, one behind the other.
//! An object is a media type and a name, both of which may be absent, a
//! 64-bit length, and that many bytes of content.

use crate::constructs::{
    after, got, maybe_string, parsed, sized_bytes, spec_maybe_string, spec_sized_bytes,
    ParseError,
};
use crate::RepoError;
use vstd::prelude::*;
use vstd::slice::slice_to_vec;

verus! {

/// An object as it is kept in a pack file. The content is still encrypted.
#[derive(Debug, Clone, PartialEq, Eq)]
pub struct PackedObject {
    pub mime_type: Option<String>,
    pub name: Option<String>,
    pub content: Vec<u8>,
}

/// A packed object as a mathematical value.
pub struct PackedObjectModel {
    pub mime_type: Option<Seq<char>>,
    pub name: Option<Seq<char>>,
    pub content: Seq<u8>,
}

impl DeepView for PackedObject {
    type V = PackedObjectModel;

    open spec fn deep_view(&self) -> PackedObjectModel {
        PackedObjectModel {
            mime_type: self.mime_type.deep_view(),
            name: self.name.deep_view(),
            content: self.content@,
        }
    }
}

/// One object at the front of `s`.
pub open spec fn spec_packed_object(s: Seq<u8>) -> Option<(PackedObjectModel, Seq<u8>)> {
    let mime_type = spec_maybe_string(s);
    let name = spec_maybe_string(after(mime_type));
    let content = spec_sized_bytes(after(name));
    if mime_type is Some && name is Some && content is Some {
        Some(
            (
                PackedObjectModel {
                    mime_type: got(mime_type),
                    name: got(name),
                    content: got(content),
                },
                after(content),
            ),
        )
    } else {
        None
    }
}

/// The object that `data` starts with, if it starts with one.
pub open spec fn spec_parse_object(data: Seq<u8>) -> Option<PackedObjectModel> {
    match spec_packed_object(data) {
        Some((obj, _)) => Some(obj),
        None => None,
    }
}

/// Reads one object of a pack file.
pub fn packed_object(i: &[u8]) -> (r: Result<(&[u8], PackedObject), ParseError>)
    ensures
        parsed(r, spec_packed_object(i@)),
{
    let (i, mime_type) = maybe_string(i)?;
    let (i, name) = maybe_string(i)?;
    let (i, content) = sized_bytes(i)?;
    let result = PackedObject { mime_type, name, content: slice_to_vec(content) };
    Ok((i, result))
}

/// Decodes the object that `data` starts with. Anything that does not start
/// with a well-formed object is malformed data; what the object leaves over
/// of `data` is dropped.
pub fn parse_object(data: &[u8]) -> (r: Result<PackedObject, RepoError>)
    ensures
        match spec_parse_object(data@) {
            Some(obj) => r matches Ok(x) && x.deep_view() == obj,
            None => r == Err::<PackedObject, RepoError>(RepoError::MalformedData),
        },
{
    match packed_object(data) {
        Ok((_, obj)) => Ok(obj),
        Err(_) => Err(RepoError::MalformedData),
    }
}

} // verus!
