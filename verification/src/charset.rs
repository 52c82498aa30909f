//! Character encodings, known by the names that the Encoding Standard gives
//! them.

use vstd::prelude::*;
use vstd::utf8::encode_utf8;

verus! {

/// The name of the encoding that `Encoding::for_label` of encoding_rs finds
/// for a label, if it finds one.
pub uninterp spec fn encoding_for_label(label: Seq<u8>) -> Option<Seq<char>>;

/// The name of the UTF-8 encoding.
pub open spec fn utf_8() -> Seq<char> {
    "UTF-8"@
}

/// The name of the little-endian UTF-16 encoding.
pub open spec fn utf_16le() -> Seq<char> {
    "UTF-16LE"@
}

/// The name of the big-endian UTF-16 encoding.
pub open spec fn utf_16be() -> Seq<char> {
    "UTF-16BE"@
}

/// The name is a label of the encoding that it names.
pub open spec fn names_itself(name: Seq<char>) -> bool {
    encoding_for_label(encode_utf8(name)) == Some(name)
}

/// A character encoding. Two values stand for the same encoding exactly
/// when their names are equal.
#[derive(Debug)]
pub struct Charset {
    name: String,
}

impl View for Charset {
    type V = Seq<char>;

    closed spec fn view(&self) -> Seq<char> {
        self.name@
    }
}

/// The names of two optional encodings.
pub open spec fn charset_view(encoding: Option<Charset>) -> Option<Seq<char>> {
    match encoding {
        Some(c) => Some(c@),
        None => None,
    }
}

/// The name that was found, as a plain value.
pub open spec fn name_view(found: Option<String>) -> Option<Seq<char>> {
    match found {
        Some(n) => Some(n@),
        None => None,
    }
}

/// `Encoding::for_label` of encoding_rs, followed by `Encoding::name` on
/// what it found: the name of the encoding that the label stands for, and
/// nothing for a label that stands for none. The contract gives the result
/// its name, and says of it what the table of labels shows: the name of an
/// encoding is, whatever its case, one of the labels of that encoding, and
/// so are the names of UTF-8 and of both forms of UTF-16.
#[verifier::external_body]
fn name_for_label(label: &[u8]) -> (r: Option<String>)
    ensures
        name_view(r) == encoding_for_label(label@),
        r matches Some(n) ==> names_itself(n@),
        label@ == encode_utf8(utf_8()) ==> name_view(r) == Some(utf_8()),
        label@ == encode_utf8(utf_16le()) ==> name_view(r) == Some(utf_16le()),
        label@ == encode_utf8(utf_16be()) ==> name_view(r) == Some(utf_16be()),
{
    encoding_rs::Encoding::for_label(label).map(|e| e.name().to_string())
}

impl Clone for Charset {
    fn clone(&self) -> (r: Self)
        ensures
            r@ == self@,
    {
        proof {
            use_type_invariant(self);
        }
        Charset { name: self.name.clone() }
    }
}

impl Charset {
    #[verifier::type_invariant]
    spec fn name_is_label(&self) -> bool {
        names_itself(self.name@)
    }

    /// The name of the encoding, as the bytes of a label.
    pub open spec fn label(&self) -> Seq<u8> {
        encode_utf8(self@)
    }

    fn named(name: &str) -> (r: Charset)
        requires
            name@ == utf_8() || name@ == utf_16le() || name@ == utf_16be(),
        ensures
            r@ == name@,
    {
        match name_for_label(name.as_bytes()) {
            Some(found) => Charset { name: found },
            None => {
                assert(false);
                Charset { name: name.to_owned() }
            },
        }
    }

    /// The encoding that a label stands for.
    pub fn for_label(label: &[u8]) -> (r: Option<Charset>)
        ensures
            charset_view(r) == encoding_for_label(label@),
    {
        match name_for_label(label) {
            Some(name) => Some(Charset { name }),
            None => None,
        }
    }

    /// UTF-8.
    pub fn utf8() -> (r: Charset)
        ensures
            r@ == utf_8(),
    {
        Charset::named("UTF-8")
    }

    /// UTF-16, little-endian.
    pub fn utf16le() -> (r: Charset)
        ensures
            r@ == utf_16le(),
    {
        Charset::named("UTF-16LE")
    }

    /// UTF-16, big-endian.
    pub fn utf16be() -> (r: Charset)
        ensures
            r@ == utf_16be(),
    {
        Charset::named("UTF-16BE")
    }

    /// The name of the encoding, which is a label of it.
    pub fn name(&self) -> (r: &str)
        ensures
            r@ == self@,
            names_itself(self@),
    {
        proof {
            use_type_invariant(self);
        }
        self.name.as_str()
    }

    /// Whether `self` and `other` are the same encoding.
    pub fn same(&self, other: &Charset) -> (r: bool)
        ensures
            r == (self@ == other@),
    {
        self.name == other.name
    }

    /// Whether this is the encoding of the given name.
    pub fn is_named(&self, name: &str) -> (r: bool)
        ensures
            r == (self@ == name@),
    {
        let other = name.to_owned();
        self.name == other
    }
}

/// Whether two optional encodings are the same.
pub fn same_encoding(a: &Option<Charset>, b: &Option<Charset>) -> (r: bool)
    ensures
        r == (charset_view(*a) == charset_view(*b)),
{
    match (a, b) {
        (Some(x), Some(y)) => x.same(y),
        (None, None) => true,
        _ => false,
    }
}

} // verus!
