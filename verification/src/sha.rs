//! Content hashes and their hexadecimal text form.

use vstd::prelude::*;
use vstd::std_specs::convert::TryFromSpecImpl;
use vstd::string::*;
use vstd::utf8::encode_utf8;

verus! {

/// The number a hexadecimal digit stands for, in either case.
pub open spec fn hex_digit_value(c: u8) -> Option<u8> {
    if 0x30 <= c <= 0x39 {
        Some((c - 0x30) as u8)
    } else if 0x61 <= c <= 0x66 {
        Some((c - 0x61 + 10) as u8)
    } else if 0x41 <= c <= 0x46 {
        Some((c - 0x41 + 10) as u8)
    } else {
        None
    }
}

/// Whether `text` is an even number of hexadecimal digits.
pub open spec fn is_hex(text: Seq<u8>) -> bool {
    &&& text.len() % 2 == 0
    &&& forall|i: int| 0 <= i < text.len() ==> (#[trigger] hex_digit_value(text[i])) is Some
}

/// The bytes that the hexadecimal text `text` spells, two digits to a byte,
/// the high digit first.
pub open spec fn hex_decoded(text: Seq<u8>) -> Seq<u8> {
    Seq::new(
        text.len() / 2,
        |k: int|
            (hex_digit_value(text[2 * k]).unwrap() * 16 + hex_digit_value(
                text[2 * k + 1],
            ).unwrap()) as u8,
    )
}

/// The lower-case digit for a number below sixteen.
pub open spec fn lower_hex_digit(n: int) -> char {
    seq!['0', '1', '2', '3', '4', '5', '6', '7', '8', '9', 'a', 'b', 'c', 'd', 'e', 'f'][n]
}

/// The lower-case hexadecimal text of `bytes`.
pub open spec fn hex_encoded(bytes: Seq<u8>) -> Seq<char> {
    Seq::new(
        2 * bytes.len(),
        |i: int|
            if i % 2 == 0 {
                lower_hex_digit(bytes[i / 2] as int / 16)
            } else {
                lower_hex_digit(bytes[i / 2] as int % 16)
            },
    )
}

/// `hex::encode`: each byte becomes two lower-case digits, the high four
/// bits first.
#[verifier::external_body]
pub(crate) fn hex_encode(data: &[u8]) -> (r: String)
    ensures
        r@ == hex_encoded(data@),
{
    hex::encode(data)
}

/// `hex::decode`: fails on an odd length or on any byte that is no
/// hexadecimal digit, and else gives one byte for every two digits.
#[verifier::external_body]
pub(crate) fn hex_decode(text: &[u8]) -> (r: Option<Vec<u8>>)
    ensures
        r is Some <==> is_hex(text@),
        r matches Some(v) ==> v@ == hex_decoded(text@),
{
    hex::decode(text).ok()
}

/// A 20-byte content hash.
#[derive(Clone, Copy, Debug, PartialEq, Eq, Hash)]
pub struct SHA1([u8; 20]);

impl View for SHA1 {
    type V = Seq<u8>;

    closed spec fn view(&self) -> Seq<u8> {
        self.0@
    }
}

impl DeepView for SHA1 {
    type V = Seq<u8>;

    open spec fn deep_view(&self) -> Seq<u8> {
        self@
    }
}

/// The hash that a text of 40 hexadecimal digits spells.
pub open spec fn sha_of_hex(text: Seq<u8>) -> Option<Seq<u8>> {
    if is_hex(text) && text.len() == 40 {
        Some(hex_decoded(text))
    } else {
        None
    }
}

impl SHA1 {
    /// Every hash is 20 bytes long.
    pub proof fn lemma_len(&self)
        ensures
            self@.len() == 20,
    {
    }

    /// The hash made of the 20 bytes of `bytes`, or nothing for any other
    /// length.
    pub fn from_slice(bytes: &[u8]) -> (r: Option<SHA1>)
        ensures
            r is Some <==> bytes@.len() == 20,
            r matches Some(h) ==> h@ == bytes@,
    {
        if bytes.len() != 20 {
            return None;
        }
        let mut a = [0u8; 20];
        let mut k: usize = 0;
        while k < 20
            invariant
                k <= 20,
                bytes@.len() == 20,
                forall|j: int| 0 <= j < k ==> a@[j] == bytes@[j],
            decreases 20 - k,
        {
            a[k] = bytes[k];
            k += 1;
        }
        assert(a@ =~= bytes@);
        Some(SHA1(a))
    }

    /// The hash that `text` spells in hexadecimal, or nothing where `text`
    /// is not 40 hexadecimal digits.
    pub fn from_hex(text: &[u8]) -> (r: Option<SHA1>)
        ensures
            r.deep_view() == sha_of_hex(text@),
    {
        match hex_decode(text) {
            None => None,
            Some(v) => SHA1::from_slice(v.as_slice()),
        }
    }

    /// The bytes of the hash.
    pub fn as_bytes(&self) -> (b: &[u8])
        ensures
            b@ == self@,
    {
        self.0.as_slice()
    }

    /// The hash in lower-case hexadecimal.
    pub fn as_string(&self) -> (s: String)
        ensures
            s@ == hex_encoded(self@),
    {
        hex_encode(self.0.as_slice())
    }

    /// The hash in lower-case hexadecimal, as it is displayed.
    pub fn to_string(&self) -> (s: String)
        ensures
            s@ == hex_encoded(self@),
    {
        self.as_string()
    }

    /// Whether two hashes hold the same bytes.
    pub fn same(&self, other: &SHA1) -> (r: bool)
        ensures
            r == (self@ == other@),
    {
        let mut k: usize = 0;
        while k < 20
            invariant
                k <= 20,
                forall|j: int| 0 <= j < k ==> self.0@[j] == other.0@[j],
            decreases 20 - k,
        {
            if self.0[k] != other.0[k] {
                return false;
            }
            k += 1;
        }
        assert(self.0@ =~= other.0@);
        true
    }
}

impl TryFrom<Vec<u8>> for SHA1 {
    type Error = Vec<u8>;

    fn try_from(v: Vec<u8>) -> (r: Result<SHA1, Vec<u8>>)
        ensures
            r is Ok <==> v@.len() == 20,
            r matches Ok(h) ==> h@ == v@,
            r matches Err(e) ==> e@ == v@,
    {
        match SHA1::from_slice(v.as_slice()) {
            Some(h) => Ok(h),
            None => Err(v),
        }
    }
}

/// The contract stands on the method itself; nothing more is claimed
/// through the generic form of the trait.
impl TryFromSpecImpl<Vec<u8>> for SHA1 {
    open spec fn obeys_try_from_spec() -> bool {
        false
    }

    open spec fn try_from_spec(v: Vec<u8>) -> Result<SHA1, Vec<u8>> {
        arbitrary()
    }
}

/// Why a text does not spell a hash: it is no hexadecimal text, or it
/// spells another number of bytes than 20.
pub open spec fn sha_text_error(text: Seq<u8>) -> Seq<char> {
    if is_hex(text) {
        "Not a valid SHA1"@
    } else {
        "Not a valid hex string"@
    }
}

impl<'a> TryFrom<&'a str> for SHA1 {
    type Error = &'static str;

    fn try_from(s: &'a str) -> (r: Result<SHA1, &'static str>)
        ensures
            match sha_of_hex(encode_utf8(s@)) {
                Some(h) => r matches Ok(x) && x@ == h,
                None => r matches Err(e) && e@ == sha_text_error(encode_utf8(s@)),
            },
    {
        match hex_decode(s.as_bytes()) {
            Some(v) => match SHA1::from_slice(v.as_slice()) {
                Some(h) => Ok(h),
                None => Err("Not a valid SHA1"),
            },
            None => Err("Not a valid hex string"),
        }
    }
}

/// The contract stands on the method itself; nothing more is claimed
/// through the generic form of the trait.
impl<'a> TryFromSpecImpl<&'a str> for SHA1 {
    open spec fn obeys_try_from_spec() -> bool {
        false
    }

    open spec fn try_from_spec(s: &'a str) -> Result<SHA1, &'static str> {
        arbitrary()
    }
}

impl TryFrom<String> for SHA1 {
    type Error = &'static str;

    fn try_from(s: String) -> (r: Result<SHA1, &'static str>)
        ensures
            match sha_of_hex(encode_utf8(s@)) {
                Some(h) => r matches Ok(x) && x@ == h,
                None => r matches Err(e) && e@ == sha_text_error(encode_utf8(s@)),
            },
    {
        match hex_decode(s.as_str().as_bytes()) {
            Some(v) => match SHA1::from_slice(v.as_slice()) {
                Some(h) => Ok(h),
                None => Err("Not a valid SHA1"),
            },
            None => Err("Not a valid hex string"),
        }
    }
}

/// The contract stands on the method itself; nothing more is claimed
/// through the generic form of the trait.
impl TryFromSpecImpl<String> for SHA1 {
    open spec fn obeys_try_from_spec() -> bool {
        false
    }

    open spec fn try_from_spec(s: String) -> Result<SHA1, &'static str> {
        arbitrary()
    }
}

} // verus!
