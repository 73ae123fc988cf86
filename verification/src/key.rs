//! Object paths inside a bucket.

use std::ops::Div;
use vstd::prelude::*;
use vstd::std_specs::convert::FromSpecImpl;
use vstd::std_specs::ops::DivSpecImpl;
use vstd::string::*;

verus! {

/// What joining the path `a` with the component `b` gives: the two with
/// exactly one `/` between them, and `b` alone behind an empty `a`.
pub open spec fn joined(a: Seq<char>, b: Seq<char>) -> Seq<char> {
    if a.len() == 0 || a.last() == '/' {
        a + b
    } else {
        a + seq!['/'] + b
    }
}

/// Whether `s` ends with all of `suffix`.
pub open spec fn has_suffix(s: Seq<char>, suffix: Seq<char>) -> bool {
    suffix.len() <= s.len() && s.skip(s.len() - suffix.len()) == suffix
}

/// `str::ends_with` for a string pattern: whether the pattern matches a
/// suffix of the slice, character for character.
#[verifier::external_body]
pub(crate) fn str_ends_with(s: &str, suffix: &str) -> (r: bool)
    ensures
        r == has_suffix(s@, suffix@),
{
    s.ends_with(suffix)
}

/// A bucket-relative object path. Keys are immutable values: composing two
/// of them gives a new one.
#[derive(Debug, Ord, PartialOrd, Eq, PartialEq, Clone, Default)]
pub struct Key(String);

impl View for Key {
    type V = Seq<char>;

    closed spec fn view(&self) -> Seq<char> {
        self.0@
    }
}

/// Joins an owned path with one more component.
fn join(s: String, rhs: &str) -> (r: String)
    ensures
        r@ == joined(s@, rhs@),
{
    let mut out = s;
    let slash = "/";
    proof {
        reveal_strlit("/");
        assert(slash@ =~= seq!['/']);
        if out@.len() > 0 {
            assert(out@.skip(out@.len() - 1) =~= seq![out@.last()]);
            assert(seq![out@.last()][0] == out@.last());
        }
    }
    if !out.as_str().is_empty() && !str_ends_with(out.as_str(), slash) {
        out.append(slash);
    }
    out.append(rhs);
    out
}

impl Key {
    /// The path as a string slice.
    pub fn as_str(&self) -> (s: &str)
        ensures
            s@ == self@,
    {
        self.0.as_str()
    }

    /// The path as an owned string.
    pub fn into_string(self) -> (s: String)
        ensures
            s@ == self@,
    {
        self.0
    }

    /// Whether the path ends with `suffix`.
    pub fn ends_with(&self, suffix: &str) -> (r: bool)
        ensures
            r == has_suffix(self@, suffix@),
    {
        str_ends_with(self.0.as_str(), suffix)
    }

    /// The path with one more component behind it.
    pub fn join(&self, rhs: &str) -> (k: Key)
        ensures
            k@ == joined(self@, rhs@),
    {
        Key(join(self.0.clone(), rhs))
    }

    /// A copy of the path as an owned string.
    pub fn to_string(&self) -> (s: String)
        ensures
            s@ == self@,
    {
        self.0.clone()
    }
}

impl From<String> for Key {
    fn from(s: String) -> (k: Key)
        ensures
            k@ == s@,
    {
        Key(s)
    }
}

impl FromSpecImpl<String> for Key {
    open spec fn obeys_from_spec() -> bool {
        true
    }

    closed spec fn from_spec(s: String) -> Key {
        Key(s)
    }
}

impl<'a> From<&'a str> for Key {
    fn from(s: &'a str) -> (k: Key)
        ensures
            k@ == s@,
    {
        Key(s.to_owned())
    }
}

/// The contract stands on the method itself; nothing more is claimed
/// through the generic form of the trait.
impl<'a> FromSpecImpl<&'a str> for Key {
    open spec fn obeys_from_spec() -> bool {
        false
    }

    open spec fn from_spec(s: &'a str) -> Key {
        arbitrary()
    }
}

impl<'a> Div<&'a str> for Key {
    type Output = Key;

    fn div(self, rhs: &'a str) -> (k: Key)
        ensures
            k@ == joined(self@, rhs@),
    {
        Key(join(self.0, rhs))
    }
}

/// The contract stands on the method itself; nothing more is claimed
/// through the generic form of the trait.
impl<'a> DivSpecImpl<&'a str> for Key {
    open spec fn obeys_div_spec() -> bool {
        false
    }

    open spec fn div_req(self, rhs: &'a str) -> bool {
        true
    }

    open spec fn div_spec(self, rhs: &'a str) -> Key {
        arbitrary()
    }
}

impl Div<Key> for Key {
    type Output = Key;

    fn div(self, rhs: Key) -> (k: Key)
        ensures
            k@ == joined(self@, rhs@),
    {
        Key(join(self.0, rhs.0.as_str()))
    }
}

/// The contract stands on the method itself; nothing more is claimed
/// through the generic form of the trait.
impl DivSpecImpl<Key> for Key {
    open spec fn obeys_div_spec() -> bool {
        false
    }

    open spec fn div_req(self, rhs: Key) -> bool {
        true
    }

    open spec fn div_spec(self, rhs: Key) -> Key {
        arbitrary()
    }
}

impl<'a, 'b> Div<&'a str> for &'b Key {
    type Output = Key;

    fn div(self, rhs: &'a str) -> (k: Key)
        ensures
            k@ == joined(self@, rhs@),
    {
        Key(join(self.0.clone(), rhs))
    }
}

/// The contract stands on the method itself; nothing more is claimed
/// through the generic form of the trait.
impl<'a, 'b> DivSpecImpl<&'a str> for &'b Key {
    open spec fn obeys_div_spec() -> bool {
        false
    }

    open spec fn div_req(self, rhs: &'a str) -> bool {
        true
    }

    open spec fn div_spec(self, rhs: &'a str) -> Key {
        arbitrary()
    }
}

/// Composing a non-empty path with a component puts one `/` between the
/// two unless the path already ends with one.
pub proof fn lemma_key_composition(a: Seq<char>, b: Seq<char>)
    requires
        a.len() > 0,
    ensures
        a.last() != '/' ==> joined(a, b) == a + seq!['/'] + b,
        a.last() == '/' ==> joined(a, b) == a + b,
{
}

/// Behind an empty path a component stands alone, with no leading `/`.
pub proof fn lemma_key_composition_empty(b: Seq<char>)
    ensures
        joined(Seq::empty(), b) == b,
{
    assert(Seq::<char>::empty() + b =~= b);
}

} // verus!
