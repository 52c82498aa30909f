//! The lexical events that the tokenizer hands over, as plain values, and
//! what the tokenizer computes from the bytes of one event.

use vstd::prelude::*;
use vstd::slice::slice_subrange;

verus! {

/// One attribute as the tokenizer cuts it out of a tag: the bytes of the key
/// and the bytes of the value without its quotes. `None` stands for an
/// attribute that the tokenizer rejects (malformed, or a key that stands
/// twice); nothing follows it.
pub type RawAttribute = Option<(Seq<u8>, Seq<u8>)>;

/// The attributes that the iterator `BytesStart::attributes` of quick-xml
/// yields for a tag with the given content, whose name ends at `name_len`,
/// in their order.
pub uninterp spec fn tag_attributes(content: Seq<u8>, name_len: nat) -> Seq<RawAttribute>;

/// What `quick_xml::escape::unescape` makes of `raw`: the bytes with each
/// `&...;` reference resolved, and nothing where a reference is not known
/// or not well formed.
pub uninterp spec fn unescaped(raw: Seq<u8>) -> Option<Seq<u8>>;

/// The bytes of `version`.
pub open spec fn version_key() -> Seq<u8> {
    seq![0x76u8, 0x65, 0x72, 0x73, 0x69, 0x6f, 0x6e]
}

/// The bytes of `encoding`.
pub open spec fn encoding_key() -> Seq<u8> {
    seq![0x65u8, 0x6e, 0x63, 0x6f, 0x64, 0x69, 0x6e, 0x67]
}

/// The bytes of `standalone`.
pub open spec fn standalone_key() -> Seq<u8> {
    seq![0x73u8, 0x74, 0x61, 0x6e, 0x64, 0x61, 0x6c, 0x6f, 0x6e, 0x65]
}

/// Goes through the attributes up to the first that is rejected or has the
/// given key: `None` where there is no such attribute, `Some(None)` where
/// the first is a rejected one, and else the value found.
pub open spec fn first_with_key(items: Seq<RawAttribute>, key: Seq<u8>) -> Option<Option<Seq<u8>>>
    decreases items.len(),
{
    if items.len() == 0 {
        None
    } else {
        match items[0] {
            None => Some(None),
            Some((k, v)) => if k == key {
                Some(Some(v))
            } else {
                first_with_key(items.drop_first(), key)
            },
        }
    }
}

/// The value of the first attribute if that is `version`, and nothing where
/// there is no attribute or the first is rejected or another one.
pub open spec fn leading_version(items: Seq<RawAttribute>) -> Option<Seq<u8>> {
    if items.len() == 0 {
        None
    } else {
        match items[0] {
            Some((k, v)) => if k == version_key() {
                Some(v)
            } else {
                None
            },
            None => None,
        }
    }
}

/// The attributes that the tokenizer cut out of a tag: those that it took,
/// in their order, and the error of the one that it rejected after them, if
/// it rejected one.
pub struct TagAttributes {
    pub pairs: Vec<(Vec<u8>, Vec<u8>)>,
    pub rejected: Option<quick_xml::Error>,
}

impl View for TagAttributes {
    type V = Seq<RawAttribute>;

    open spec fn view(&self) -> Seq<RawAttribute> {
        let taken = Seq::new(
            self.pairs@.len(),
            |i: int| Some((self.pairs@[i].0@, self.pairs@[i].1@)),
        );
        if self.rejected is Some {
            taken.push(None)
        } else {
            taken
        }
    }
}

/// The plain value of bytes that the tokenizer computed or refused.
pub open spec fn bytes_view(r: Result<Vec<u8>, quick_xml::Error>) -> Option<Seq<u8>> {
    match r {
        Ok(v) => Some(v@),
        Err(_) => None,
    }
}

/// The plain value of an attribute that an accessor of the declaration
/// looked for.
pub open spec fn found_view(r: Option<Result<Vec<u8>, quick_xml::Error>>) -> Option<
    Option<Seq<u8>>,
> {
    match r {
        Some(found) => Some(bytes_view(found)),
        None => None,
    }
}

/// The bytes between `<` and `>` of a start tag, an empty tag or a
/// declaration: the name, and after it the attributes as written.
#[derive(Debug)]
pub struct RawTag {
    content: Vec<u8>,
    name_len: usize,
}

impl RawTag {
    #[verifier::type_invariant]
    spec fn name_within_content(&self) -> bool {
        self.name_len <= self.content@.len()
    }

    /// All bytes of the tag.
    pub closed spec fn content(&self) -> Seq<u8> {
        self.content@
    }

    /// Where the name ends.
    pub closed spec fn name_len(&self) -> nat {
        self.name_len as nat
    }

    /// The bytes of the name.
    pub open spec fn name(&self) -> Seq<u8> {
        self.content().take(self.name_len() as int)
    }

    /// The attributes that the tokenizer finds in the tag.
    pub open spec fn attributes(&self) -> Seq<RawAttribute> {
        tag_attributes(self.content(), self.name_len())
    }

    /// A tag of the given bytes, whose name is the first `name_len` of them;
    /// nothing where there are fewer bytes than that.
    pub fn new(content: Vec<u8>, name_len: usize) -> (r: Option<RawTag>)
        ensures
            r is Some <==> name_len <= content@.len(),
            r matches Some(tag) ==> tag.content() == content@ && tag.name_len() == name_len,
    {
        if name_len <= content.len() {
            Some(RawTag { content, name_len })
        } else {
            None
        }
    }

    /// The bytes of the name.
    pub fn name_bytes(&self) -> (r: &[u8])
        ensures
            self.name_len() <= self.content().len(),
            r@ == self.name(),
    {
        proof {
            use_type_invariant(self);
        }
        slice_subrange(self.content.as_slice(), 0, self.name_len)
    }

    /// `BytesStart::attributes` of quick-xml, run to its end on the tag that
    /// `BytesStart::borrowed` makes of the bytes. The iterator stops after
    /// the first attribute that it rejects, so the error comes last. The
    /// contract only gives the items their name.
    #[verifier::external_body]
    pub(crate) fn read_attributes(&self) -> (items: TagAttributes)
        ensures
            items@ == tag_attributes(self.content(), self.name_len()),
    {
        let start = quick_xml::events::BytesStart::borrowed(&self.content, self.name_len);
        let mut items = TagAttributes { pairs: Vec::new(), rejected: None };
        for attribute in start.attributes() {
            match attribute {
                Ok(a) => items.pairs.push((a.key.to_vec(), a.value.into_owned())),
                Err(e) => items.rejected = Some(e),
            }
        }
        items
    }

    /// `BytesDecl::version` of quick-xml: the value of the first attribute
    /// of the declaration where that is `version`, an error where it is
    /// not.
    #[verifier::external_body]
    pub(crate) fn read_version(&self) -> (r: Result<Vec<u8>, quick_xml::Error>)
        ensures
            bytes_view(r) == leading_version(tag_attributes(self.content(), self.name_len())),
    {
        let start = quick_xml::events::BytesStart::borrowed(&self.content, self.name_len);
        match quick_xml::events::BytesDecl::from_start(start).version() {
            Ok(v) => Ok(v.into_owned()),
            Err(e) => Err(e),
        }
    }

    /// `BytesDecl::encoding` of quick-xml: the value of the attribute
    /// `encoding` of the declaration, looked for up to the first attribute
    /// that the tokenizer rejects.
    #[verifier::external_body]
    pub(crate) fn read_encoding(&self) -> (r: Option<Result<Vec<u8>, quick_xml::Error>>)
        ensures
            found_view(r) == first_with_key(
                tag_attributes(self.content(), self.name_len()),
                encoding_key(),
            ),
    {
        let start = quick_xml::events::BytesStart::borrowed(&self.content, self.name_len);
        match quick_xml::events::BytesDecl::from_start(start).encoding() {
            Some(Ok(v)) => Some(Ok(v.into_owned())),
            Some(Err(e)) => Some(Err(e)),
            None => None,
        }
    }

    /// `BytesDecl::standalone` of quick-xml: the value of the attribute
    /// `standalone` of the declaration, looked for up to the first
    /// attribute that the tokenizer rejects.
    #[verifier::external_body]
    pub(crate) fn read_standalone(&self) -> (r: Option<Result<Vec<u8>, quick_xml::Error>>)
        ensures
            found_view(r) == first_with_key(
                tag_attributes(self.content(), self.name_len()),
                standalone_key(),
            ),
    {
        let start = quick_xml::events::BytesStart::borrowed(&self.content, self.name_len);
        match quick_xml::events::BytesDecl::from_start(start).standalone() {
            Some(Ok(v)) => Some(Ok(v.into_owned())),
            Some(Err(e)) => Some(Err(e)),
            None => None,
        }
    }
}

/// `quick_xml::escape::unescape`. The contract only gives the result its
/// name.
#[verifier::external_body]
pub(crate) fn unescape(raw: &[u8]) -> (r: Result<Vec<u8>, quick_xml::Error>)
    ensures
        bytes_view(r) == unescaped(raw@),
{
    match quick_xml::escape::unescape(raw) {
        Ok(v) => Ok(v.into_owned()),
        Err(e) => Err(quick_xml::Error::EscapeError(e)),
    }
}

/// One lexical event.
#[derive(Debug)]
pub enum XmlEvent {
    /// A start tag.
    Start(RawTag),
    /// An end tag.
    End,
    /// An empty (self-closing) tag.
    Empty(RawTag),
    /// Character data between tags.
    Text(Vec<u8>),
    /// A comment.
    Comment(Vec<u8>),
    /// A CDATA section.
    CData(Vec<u8>),
    /// An XML declaration.
    Decl(RawTag),
    /// A processing instruction.
    PI(Vec<u8>),
    /// A document type declaration.
    DocType(Vec<u8>),
    /// The end of the stream.
    Eof,
}

} // verus!
