//! The errors that end a parse.

use vstd::prelude::*;

verus! {

#[verifier::external_type_specification]
#[verifier::external_body]
pub struct ExTokenizerError(quick_xml::Error);

/// The structural rule that a document broke.
#[derive(Debug, Clone, Copy, PartialEq, Eq, Structural)]
pub enum Malformation {
    /// The document does not start with an XML declaration although one is
    /// required.
    MissingDeclaration,
    /// An XML declaration stands somewhere after the start of the document.
    MisplacedDeclaration,
    /// The `standalone` attribute of the declaration is neither `yes` nor
    /// `no`.
    StandaloneNotBoolean,
}

/// Why a parse was given up. No document comes out of a parse that failed.
#[derive(Debug)]
pub enum ParseError {
    /// An encoding label, declared or configured, that names no known
    /// encoding.
    CannotDecode,
    /// The document breaks a structural rule.
    MalformedXML(Malformation),
    /// A name, an attribute, or the content of a node is not UTF-8.
    InvalidUtf8,
    /// The tokenizer rejected its input; its error is passed on untouched.
    Tokenizer(quick_xml::Error),
}

/// The kind of an error: the error without what the tokenizer attached to
/// it.
#[derive(Debug, Clone, Copy, PartialEq, Eq, Structural)]
pub enum ErrorKind {
    CannotDecode,
    MalformedXML(Malformation),
    InvalidUtf8,
    Tokenizer,
}

/// The kind of an error.
pub open spec fn error_kind(e: ParseError) -> ErrorKind {
    match e {
        ParseError::CannotDecode => ErrorKind::CannotDecode,
        ParseError::MalformedXML(m) => ErrorKind::MalformedXML(m),
        ParseError::InvalidUtf8 => ErrorKind::InvalidUtf8,
        ParseError::Tokenizer(_) => ErrorKind::Tokenizer,
    }
}

impl ParseError {
    /// The kind of this error.
    pub fn kind(&self) -> (k: ErrorKind)
        ensures
            k == error_kind(*self),
    {
        match self {
            ParseError::CannotDecode => ErrorKind::CannotDecode,
            ParseError::MalformedXML(m) => ErrorKind::MalformedXML(*m),
            ParseError::InvalidUtf8 => ErrorKind::InvalidUtf8,
            ParseError::Tokenizer(_) => ErrorKind::Tokenizer,
        }
    }
}

/// Passes on what the tokenizer computed, and its error untouched.
pub fn tokenized<T>(r: Result<T, quick_xml::Error>) -> (out: Result<T, ParseError>)
    ensures
        r matches Ok(v) ==> out == Ok::<T, ParseError>(v),
        r matches Err(e) ==> out == Err::<T, ParseError>(ParseError::Tokenizer(e)),
{
    match r {
        Ok(v) => Ok(v),
        Err(e) => Err(ParseError::Tokenizer(e)),
    }
}

impl Malformation {
    /// A sentence that describes the broken rule.
    pub fn message(&self) -> (text: &'static str)
        ensures
            text@ == (match *self {
                Malformation::MissingDeclaration =>
                    "Didn't find XML Declaration at the start of file"@,
                Malformation::MisplacedDeclaration =>
                    "XML declaration found in the middle of the document"@,
                Malformation::StandaloneNotBoolean =>
                    "Standalone Document Declaration has non boolean value"@,
            }),
    {
        match self {
            Malformation::MissingDeclaration => "Didn't find XML Declaration at the start of file",
            Malformation::MisplacedDeclaration =>
                "XML declaration found in the middle of the document",
            Malformation::StandaloneNotBoolean =>
                "Standalone Document Declaration has non boolean value",
        }
    }
}

} // verus!
