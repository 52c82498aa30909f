//! Turning the tokenizer's bytes into text.

use vstd::prelude::*;
use vstd::slice::slice_to_vec;
use vstd::utf8::{decode_utf8, valid_utf8};

use crate::error::ParseError;

verus! {

/// The lower-case form of a text, as `str::to_lowercase` of std computes it
/// from the Unicode tables.
pub uninterp spec fn lowercase(text: Seq<char>) -> Seq<char>;

/// `String::from_utf8` of std: the text that the bytes encode if they are
/// UTF-8, and nothing if they are not.
#[verifier::external_body]
fn string_from_utf8(bytes: Vec<u8>) -> (r: Option<String>)
    ensures
        r is Some <==> valid_utf8(bytes@),
        r matches Some(s) ==> s@ == decode_utf8(bytes@),
{
    match String::from_utf8(bytes) {
        Ok(s) => Some(s),
        Err(_) => None,
    }
}

/// `str::to_lowercase` of std. The contract only gives the result its name.
#[verifier::external_body]
pub(crate) fn to_lowercase(s: &str) -> (r: String)
    ensures
        r@ == lowercase(s@),
{
    s.to_lowercase()
}

/// `str::strip_prefix` of std with a text as the pattern: what follows
/// `prefix` in `s` if `s` starts with it, and nothing if it does not.
#[verifier::external_body]
fn str_strip_prefix<'a>(s: &'a str, prefix: &str) -> (r: Option<&'a str>)
    ensures
        r matches Some(t) ==> s@ == prefix@ + t@,
        r is None ==> !prefix@.is_prefix_of(s@),
{
    s.strip_prefix(prefix)
}

/// The text that `bytes` encode in UTF-8.
pub fn decode_text(bytes: &[u8]) -> (r: Result<String, ParseError>)
    ensures
        valid_utf8(bytes@) ==> (r matches Ok(s) && s@ == decode_utf8(bytes@)),
        !valid_utf8(bytes@) ==> r matches Err(ParseError::InvalidUtf8),
{
    match string_from_utf8(slice_to_vec(bytes)) {
        Some(s) => Ok(s),
        None => Err(ParseError::InvalidUtf8),
    }
}

/// What follows `prefix` in `s`, if `s` starts with `prefix`.
pub fn strip_prefix(s: &str, prefix: &str) -> (r: Option<String>)
    ensures
        prefix@.is_prefix_of(s@) ==> (r matches Some(t) && t@ == s@.skip(prefix@.len() as int)),
        !prefix@.is_prefix_of(s@) ==> r is None,
{
    match str_strip_prefix(s, prefix) {
        Some(t) => {
            proof {
                assert(prefix@.is_prefix_of(s@)) by {
                    assert((prefix@ + t@).subrange(0, prefix@.len() as int) =~= prefix@);
                }
                assert(s@.skip(prefix@.len() as int) =~= t@);
            }
            Some(t.to_owned())
        },
        None => None,
    }
}

} // verus!
