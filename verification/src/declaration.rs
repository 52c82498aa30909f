//! What an XML declaration says, and which encoding a stream is read with.

use vstd::prelude::*;
use vstd::utf8::{decode_utf8, valid_utf8};

use crate::charset::{charset_view, encoding_for_label, utf_16be, utf_16le, utf_8, Charset};
use crate::error::{error_kind, ErrorKind, Malformation, ParseError};
use crate::text::lowercase;
use crate::tokenizer::{
    encoding_key, first_with_key, leading_version, standalone_key, RawAttribute,
};

verus! {

/// What a declaration says.
pub struct DeclView {
    pub version: Seq<char>,
    /// The declared encoding; none where the declaration names none.
    pub encoding: Option<Seq<char>>,
    pub standalone: bool,
}

/// The meaning of the lower-case form of a `standalone` value.
pub open spec fn standalone_of(lowered: Seq<char>) -> Result<bool, ErrorKind> {
    if lowered == "yes"@ {
        Ok(true)
    } else if lowered == "no"@ {
        Ok(false)
    } else {
        Err(ErrorKind::MalformedXML(Malformation::StandaloneNotBoolean))
    }
}

/// The encoding that a declaration names, from what its label was found to
/// stand for: the label must be known.
pub open spec fn declared_of(found: Option<Seq<char>>) -> Result<Seq<char>, ErrorKind> {
    match found {
        None => Err(ErrorKind::CannotDecode),
        Some(name) => Ok(name),
    }
}

/// The version that a declaration with the given attributes gives.
pub open spec fn version_of(items: Seq<RawAttribute>) -> Result<Seq<char>, ErrorKind> {
    match leading_version(items) {
        None => Err(ErrorKind::Tokenizer),
        Some(v) => if valid_utf8(v) {
            Ok(decode_utf8(v))
        } else {
            Err(ErrorKind::InvalidUtf8)
        },
    }
}

/// The encoding that a declaration with the given attributes names; none
/// where it has no `encoding`.
pub open spec fn encoding_of(items: Seq<RawAttribute>) -> Result<Option<Seq<char>>, ErrorKind> {
    match first_with_key(items, encoding_key()) {
        None => Ok(None),
        Some(None) => Err(ErrorKind::Tokenizer),
        Some(Some(label)) => match declared_of(encoding_for_label(label)) {
            Ok(name) => Ok(Some(name)),
            Err(k) => Err(k),
        },
    }
}

/// Whether a declaration with the given attributes calls the document
/// standalone.
pub open spec fn standalone_flag_of(items: Seq<RawAttribute>) -> Result<bool, ErrorKind> {
    match first_with_key(items, standalone_key()) {
        None => Ok(false),
        Some(None) => Err(ErrorKind::Tokenizer),
        Some(Some(v)) => if valid_utf8(v) {
            standalone_of(lowercase(decode_utf8(v)))
        } else {
            Err(ErrorKind::InvalidUtf8)
        },
    }
}

/// What a declaration with the given attributes says: its version, then its
/// encoding, then its standalone flag, up to the first of them that fails.
pub open spec fn declaration_of(items: Seq<RawAttribute>) -> Result<DeclView, ErrorKind> {
    match version_of(items) {
        Err(k) => Err(k),
        Ok(version) => match encoding_of(items) {
            Err(k) => Err(k),
            Ok(encoding) => match standalone_flag_of(items) {
                Err(k) => Err(k),
                Ok(standalone) => Ok(DeclView { version, encoding, standalone }),
            },
        },
    }
}

/// The standalone flag that the lower-case form of a value stands for:
/// `yes` or `no`, and nothing else.
pub fn standalone_flag(lowered: &str) -> (r: Result<bool, ParseError>)
    ensures
        match standalone_of(lowered@) {
            Ok(flag) => r == Ok::<bool, ParseError>(flag),
            Err(k) => r matches Err(e) && error_kind(e) == k,
        },
{
    let text = lowered.to_owned();
    let yes = "yes".to_owned();
    let no = "no".to_owned();
    if text == yes {
        Ok(true)
    } else if text == no {
        Ok(false)
    } else {
        Err(ParseError::MalformedXML(Malformation::StandaloneNotBoolean))
    }
}

/// The encoding that a declaration names, from what its label was found to
/// stand for: an unknown label is an error.
pub fn declared_encoding(found: Option<Charset>) -> (r: Result<Charset, ParseError>)
    ensures
        match declared_of(charset_view(found)) {
            Ok(name) => r matches Ok(c) && c@ == name,
            Err(k) => r matches Err(e) && error_kind(e) == k,
        },
{
    match found {
        None => Err(ParseError::CannotDecode),
        Some(c) => Ok(c),
    }
}

/// The encoding that a stream is read as when reading began with `initial`:
/// UTF-8 where no encoding was sniffed or configured.
pub open spec fn reading_as(initial: Option<Seq<char>>) -> Seq<char> {
    match initial {
        Some(name) => name,
        None => utf_8(),
    }
}

/// Whether the declaration calls for another decoder than the one that
/// reading began with. It does where it names an encoding that differs from
/// the one that the stream is read as, except that little-endian UTF-16,
/// which a plain `UTF-16` label stands for, leaves a stream alone that was
/// found to be big-endian UTF-16. A declaration that names no encoding
/// never does.
pub open spec fn redecode_needed(declared: Option<Seq<char>>, initial: Option<Seq<char>>) -> bool {
    match declared {
        None => false,
        Some(name) => name != reading_as(initial) && !(name == utf_16le() && initial == Some(
            utf_16be(),
        )),
    }
}

/// The decoder that a declared encoding is read with: none for UTF-8, whose
/// bytes pass through as they are.
pub open spec fn decoder_of(declared: Seq<char>) -> Option<Seq<char>> {
    if declared == utf_8() {
        None
    } else {
        Some(declared)
    }
}

/// Whether the decoder has to be replaced after the declaration.
pub fn needs_redecode(declared: &Option<Charset>, initial: &Option<Charset>) -> (r: bool)
    ensures
        r == redecode_needed(charset_view(*declared), charset_view(*initial)),
{
    match declared {
        None => false,
        Some(d) => {
            let same = match initial {
                Some(i) => d.same(i),
                None => d.is_named("UTF-8"),
            };
            let le_over_be = match initial {
                Some(i) => d.is_named("UTF-16LE") && i.is_named("UTF-16BE"),
                None => false,
            };
            !same && !le_over_be
        },
    }
}

/// The decoder that a declared encoding is read with.
pub fn decoder_for(declared: &Charset) -> (r: Option<Charset>)
    ensures
        charset_view(r) == decoder_of(declared@),
{
    if declared.is_named("UTF-8") {
        None
    } else {
        Some(declared.clone())
    }
}

/// The encoding that reading begins with: the configured one in place of the
/// sniffed one where a label is configured, which must be known.
/// `configured` is what the configured label was found to stand for.
pub open spec fn chosen_of(
    sniffed: Option<Seq<char>>,
    configured: Option<Option<Seq<char>>>,
) -> Result<Option<Seq<char>>, ErrorKind> {
    match configured {
        None => Ok(sniffed),
        Some(None) => Err(ErrorKind::CannotDecode),
        Some(Some(name)) => Ok(Some(name)),
    }
}

/// The encoding that reading begins with, from the sniffed one and from
/// what the configured label, if there is one, was found to stand for.
pub fn chosen_encoding(sniffed: Option<Charset>, configured: Option<Option<Charset>>) -> (r:
    Result<Option<Charset>, ParseError>)
    ensures
        match chosen_of(
            charset_view(sniffed),
            match configured {
                Some(found) => Some(charset_view(found)),
                None => None,
            },
        ) {
            Ok(encoding) => r matches Ok(c) && charset_view(c) == encoding,
            Err(k) => r matches Err(e) && error_kind(e) == k,
        },
{
    match configured {
        None => Ok(sniffed),
        Some(None) => Err(ParseError::CannotDecode),
        Some(Some(c)) => Ok(Some(c)),
    }
}

} // verus!
