//! The document builder: a state machine over lexical events that keeps the
//! stack of open elements.

use vstd::prelude::*;
use vstd::utf8::{decode_utf8, encode_utf8, valid_utf8};

use crate::charset::{charset_view, encoding_for_label, utf_16be, utf_16le, Charset};
use crate::declaration::{
    chosen_encoding, chosen_of, declaration_of, declared_encoding, decoder_for, decoder_of,
    needs_redecode, redecode_needed, standalone_flag, DeclView,
};
use crate::decode::DecodeReader;
use crate::document::{
    lemma_with_child_valid, lemma_with_element_valid, Document, DocumentView, Element,
    ElementData, ElementView, Node, NodeView,
};
use crate::error::{error_kind, tokenized, ErrorKind, Malformation, ParseError};
use crate::normalize::{normalize_space, normalized_space};
use crate::sniff::{
    encoding_of_lead, lemma_mark_within_stream, mark_len, mark_len_of_lead, sniff_lead,
    sniffed_encoding,
};
use crate::string_map::StringMap;
use crate::text::{decode_text, strip_prefix, to_lowercase};
use crate::tokenizer::{unescape, unescaped, RawAttribute, RawTag, TagAttributes, XmlEvent};

verus! {

/// Options when parsing XML.
///
/// `empty_text_node`: `<tag></tag>` gets an empty text node as its only
/// child, while `<tag />` gets none.
///
/// `trim_text`: the tokenizer trims the white space around text nodes.
///
/// `require_decl`: a document that does not start with an XML declaration
/// is an error.
///
/// `encoding`: the label of the encoding to start reading with, in place of
/// the sniffed one. The declaration still takes over where it names
/// another.
#[derive(Debug, Clone, PartialEq, Eq)]
pub struct ReadOptions {
    pub empty_text_node: bool,
    pub trim_text: bool,
    pub require_decl: bool,
    pub encoding: Option<String>,
}

impl ReadOptions {
    /// All three flags set, and no encoding.
    pub fn default() -> (r: ReadOptions)
        ensures
            r.empty_text_node,
            r.trim_text,
            r.require_decl,
            r.encoding is None,
    {
        ReadOptions { empty_text_node: true, trim_text: true, require_decl: true, encoding: None }
    }
}

/// The namespace prefix that an attribute key declares: the empty prefix for
/// `xmlns`, what follows the colon for `xmlns:...`, and none for any other
/// key.
pub open spec fn namespace_prefix(key: Seq<char>) -> Option<Seq<char>> {
    if key == "xmlns"@ {
        Some(Seq::empty())
    } else if "xmlns:"@.is_prefix_of(key) {
        Some(key.skip("xmlns:"@.len() as int))
    } else {
        None
    }
}

/// The key and the value of one attribute as text: the value has its white
/// space normalized first and its references resolved then.
pub open spec fn attribute_of(item: RawAttribute) -> Result<(Seq<char>, Seq<char>), ErrorKind> {
    match item {
        None => Err(ErrorKind::Tokenizer),
        Some((key, value)) => if !valid_utf8(key) {
            Err(ErrorKind::InvalidUtf8)
        } else {
            match unescaped(normalized_space(value)) {
                None => Err(ErrorKind::Tokenizer),
                Some(plain) => if valid_utf8(plain) {
                    Ok((decode_utf8(key), decode_utf8(plain)))
                } else {
                    Err(ErrorKind::InvalidUtf8)
                },
            }
        },
    }
}

/// The attributes and the namespace declarations of an element with one
/// more attribute: a key that declares a namespace puts the value under its
/// prefix among the declarations, any other key puts it under itself among
/// the attributes.
pub open spec fn routed(
    maps: (Map<Seq<char>, Seq<char>>, Map<Seq<char>, Seq<char>>),
    key: Seq<char>,
    value: Seq<char>,
) -> (Map<Seq<char>, Seq<char>>, Map<Seq<char>, Seq<char>>) {
    match namespace_prefix(key) {
        Some(prefix) => (maps.0, maps.1.insert(prefix, value)),
        None => (maps.0.insert(key, value), maps.1),
    }
}

/// The attributes and the namespace declarations that the attributes of a
/// tag make, taken in their order up to the first that fails; of two with
/// one key or one prefix the later one counts.
pub open spec fn collected(items: Seq<RawAttribute>) -> Result<
    (Map<Seq<char>, Seq<char>>, Map<Seq<char>, Seq<char>>),
    ErrorKind,
>
    decreases items.len(),
{
    if items.len() == 0 {
        Ok((Map::empty(), Map::empty()))
    } else {
        match collected(items.drop_last()) {
            Err(k) => Err(k),
            Ok(maps) => match attribute_of(items.last()) {
                Err(k) => Err(k),
                Ok((key, value)) => Ok(routed(maps, key, value)),
            },
        }
    }
}

/// The element that a tag with the given name and attributes makes.
pub open spec fn element_of(name: Seq<u8>, items: Seq<RawAttribute>) -> Result<
    ElementView,
    ErrorKind,
> {
    if !valid_utf8(name) {
        Err(ErrorKind::InvalidUtf8)
    } else {
        match collected(items) {
            Err(k) => Err(k),
            Ok((attributes, namespaces)) => Ok(
                ElementView { attributes, namespaces, ..ElementView::fresh(decode_utf8(name)) },
            ),
        }
    }
}

/// The text of a text node or a document type: the bytes as they are.
pub open spec fn plain_text(bytes: Seq<u8>) -> Result<Seq<char>, ErrorKind> {
    if valid_utf8(bytes) {
        Ok(decode_utf8(bytes))
    } else {
        Err(ErrorKind::InvalidUtf8)
    }
}

/// The text of a comment, a CDATA section or a processing instruction: the
/// bytes with their references resolved.
pub open spec fn resolved_text(bytes: Seq<u8>) -> Result<Seq<char>, ErrorKind> {
    match unescaped(bytes) {
        None => Err(ErrorKind::Tokenizer),
        Some(plain) => plain_text(plain),
    }
}

proof fn lemma_collected_error_stays(items: Seq<RawAttribute>, n: int)
    requires
        0 <= n <= items.len(),
        collected(items.take(n)) is Err,
    ensures
        collected(items) == collected(items.take(n)),
    decreases items.len() - n,
{
    if n == items.len() {
        assert(items.take(n) =~= items);
    } else {
        assert(items.drop_last().take(n) =~= items.take(n));
        lemma_collected_error_stays(items.drop_last(), n);
    }
}

/// How the parse goes on after the first event.
#[derive(Debug)]
pub enum Start {
    /// The first event was the end of the stream: the document is complete.
    Finished,
    /// The events that follow are read as before.
    Continue,
    /// The declaration names another encoding than the one that reading
    /// began with: the decoder is replaced and the tokenizer rebuilt
    /// before the events that follow are read.
    Redecode(Option<Charset>),
}

/// What a `Start` holds.
pub enum StartView {
    Finished,
    Continue,
    Redecode(Option<Seq<char>>),
}

impl View for Start {
    type V = StartView;

    open spec fn view(&self) -> StartView {
        match *self {
            Start::Finished => StartView::Finished,
            Start::Continue => StartView::Continue,
            Start::Redecode(c) => StartView::Redecode(charset_view(c)),
        }
    }
}

/// What the builder holds.
pub struct ParserView {
    pub doc: DocumentView,
    /// The open elements, the container first.
    pub stack: Seq<int>,
    /// The encoding that the declaration named, if it named one.
    pub encoding: Option<Seq<char>>,
    pub empty_text_node: bool,
    pub require_decl: bool,
}

/// Builds a document from lexical events.
pub struct DocumentParser {
    document: Document,
    read_opts: ReadOptions,
    encoding: Option<Charset>,
    element_stack: Vec<Element>,
}

impl View for DocumentParser {
    type V = ParserView;

    closed spec fn view(&self) -> ParserView {
        ParserView {
            doc: self.document@,
            stack: Seq::new(self.element_stack@.len(), |i: int| self.element_stack@[i]@),
            encoding: charset_view(self.encoding),
            empty_text_node: self.read_opts.empty_text_node,
            require_decl: self.read_opts.require_decl,
        }
    }
}

impl ParserView {
    /// The container is open, and every open element is in the document.
    pub open spec fn valid(self) -> bool {
        &&& self.doc.valid()
        &&& self.stack.len() >= 1
        &&& self.stack[0] == 0
        &&& forall|i: int| 0 <= i < self.stack.len() ==> self.doc.holds(#[trigger] self.stack[i])
    }

    /// The element that nodes are appended to.
    pub open spec fn top(self) -> int {
        self.stack.last()
    }

    /// The builder with a new element as the last child of the top element.
    pub open spec fn with_element(self, data: ElementView) -> ParserView {
        ParserView {
            doc: self.doc.with_element(data).with_child(
                self.top(),
                NodeView::Element(self.doc.elements.len() as int),
            ),
            ..self
        }
    }

    /// The builder with a node that is no element as the last child of the
    /// top element.
    pub open spec fn with_node(self, node: NodeView) -> ParserView {
        ParserView { doc: self.doc.with_child(self.top(), node), ..self }
    }

    /// The builder with the top element closed; with `empty_text_node` an
    /// element without children gets an empty text node first.
    pub open spec fn closed(self) -> ParserView {
        let doc = if self.empty_text_node && self.doc.elements[self.top()].children.len() == 0 {
            self.doc.with_child(self.top(), NodeView::Text(Seq::empty()))
        } else {
            self.doc
        };
        ParserView { doc, stack: self.stack.drop_last(), ..self }
    }

    /// The builder after a declaration.
    pub open spec fn with_declaration(self, decl: DeclView) -> ParserView {
        ParserView {
            doc: DocumentView { version: decl.version, standalone: decl.standalone, ..self.doc },
            encoding: decl.encoding,
            ..self
        }
    }
}

/// The builder after an event, and whether the document is complete; or the
/// error that the event gives.
pub open spec fn after_event(state: ParserView, event: XmlEvent) -> Result<
    (ParserView, bool),
    ErrorKind,
> {
    match event {
        XmlEvent::Start(tag) => match element_of(tag.name(), tag.attributes()) {
            Ok(data) => Ok(
                (
                    ParserView {
                        stack: state.stack.push(state.doc.elements.len() as int),
                        ..state.with_element(data)
                    },
                    false,
                ),
            ),
            Err(k) => Err(k),
        },
        XmlEvent::Empty(tag) => match element_of(tag.name(), tag.attributes()) {
            Ok(data) => Ok((state.with_element(data), false)),
            Err(k) => Err(k),
        },
        XmlEvent::End => Ok((state.closed(), false)),
        XmlEvent::Text(bytes) => match plain_text(bytes@) {
            Ok(text) => Ok((state.with_node(NodeView::Text(text)), false)),
            Err(k) => Err(k),
        },
        XmlEvent::DocType(bytes) => match plain_text(bytes@) {
            Ok(text) => Ok((state.with_node(NodeView::DocType(text)), false)),
            Err(k) => Err(k),
        },
        XmlEvent::Comment(bytes) => match resolved_text(bytes@) {
            Ok(text) => Ok((state.with_node(NodeView::Comment(text)), false)),
            Err(k) => Err(k),
        },
        XmlEvent::CData(bytes) => match resolved_text(bytes@) {
            Ok(text) => Ok((state.with_node(NodeView::CData(text)), false)),
            Err(k) => Err(k),
        },
        XmlEvent::PI(bytes) => match resolved_text(bytes@) {
            Ok(text) => Ok((state.with_node(NodeView::PI(text)), false)),
            Err(k) => Err(k),
        },
        XmlEvent::Decl(_) => Err(ErrorKind::MalformedXML(Malformation::MisplacedDeclaration)),
        XmlEvent::Eof => Ok((state, true)),
    }
}

/// The builder after the first event of a stream whose reading began with
/// the encoding `initial`, and how the parse goes on; or the error that
/// the event gives. A declaration is taken over; any other event is an
/// error where a declaration is required, and is taken as it comes where
/// none is.
pub open spec fn after_first_event(
    state: ParserView,
    first: XmlEvent,
    initial: Option<Seq<char>>,
) -> Result<(ParserView, StartView), ErrorKind> {
    match first {
        XmlEvent::Decl(tag) => match declaration_of(tag.attributes()) {
            Ok(decl) => Ok(
                (
                    state.with_declaration(decl),
                    if redecode_needed(decl.encoding, initial) {
                        StartView::Redecode(decoder_of(decl.encoding->0))
                    } else {
                        StartView::Continue
                    },
                ),
            ),
            Err(k) => Err(k),
        },
        _ => if state.require_decl {
            Err(ErrorKind::MalformedXML(Malformation::MissingDeclaration))
        } else {
            match after_event(state, first) {
                Ok((next, finished)) => Ok(
                    (
                        next,
                        if finished {
                            StartView::Finished
                        } else {
                            StartView::Continue
                        },
                    ),
                ),
                Err(k) => Err(k),
            }
        },
    }
}

/// The text that the bytes of a text node or a document type encode.
pub fn read_plain_text(bytes: &[u8]) -> (r: Result<String, ParseError>)
    ensures
        match plain_text(bytes@) {
            Ok(text) => r matches Ok(s) && s@ == text,
            Err(k) => r matches Err(e) && error_kind(e) == k,
        },
{
    decode_text(bytes)
}

/// The text of a comment, a CDATA section or a processing instruction.
pub fn read_resolved_text(bytes: &[u8]) -> (r: Result<String, ParseError>)
    ensures
        match resolved_text(bytes@) {
            Ok(text) => r matches Ok(s) && s@ == text,
            Err(k) => r matches Err(e) && error_kind(e) == k,
        },
{
    match tokenized(unescape(bytes)) {
        Ok(plain) => decode_text(plain.as_slice()),
        Err(e) => Err(e),
    }
}

/// Puts one attribute where its key sends it: under its prefix among the
/// namespace declarations where the key is `xmlns` or starts with `xmlns:`,
/// and under its key among the attributes where it is any other.
pub fn route_attribute(
    attributes: &mut StringMap,
    namespaces: &mut StringMap,
    key: String,
    value: String,
)
    ensures
        (final(attributes)@, final(namespaces)@) == routed(
            (old(attributes)@, old(namespaces)@),
            key@,
            value@,
        ),
{
    let xmlns = "xmlns".to_owned();
    if key == xmlns {
        namespaces.insert(String::new(), value);
    } else {
        match strip_prefix(key.as_str(), "xmlns:") {
            Some(prefix) => {
                namespaces.insert(prefix, value);
            },
            None => {
                attributes.insert(key, value);
            },
        }
    }
}

/// The key and the value of one attribute as text.
pub fn read_attribute(key: &[u8], value: &[u8]) -> (r: Result<(String, String), ParseError>)
    ensures
        match attribute_of(Some((key@, value@))) {
            Ok((k, v)) => r matches Ok(pair) && pair.0@ == k && pair.1@ == v,
            Err(kind) => r matches Err(e) && error_kind(e) == kind,
        },
{
    let normalized = normalize_space(value);
    let key = match decode_text(key) {
        Ok(s) => s,
        Err(e) => {
            return Err(e);
        },
    };
    let plain = match tokenized(unescape(normalized.as_slice())) {
        Ok(v) => v,
        Err(e) => {
            return Err(e);
        },
    };
    match decode_text(plain.as_slice()) {
        Ok(value) => Ok((key, value)),
        Err(e) => Err(e),
    }
}

/// The attributes and the namespace declarations that the scanned
/// attributes of a tag make. The error of an attribute that the tokenizer
/// rejected comes out untouched where none before it fails.
pub fn collect_attributes(items: TagAttributes) -> (r: Result<(StringMap, StringMap), ParseError>)
    ensures
        match collected(items@) {
            Ok(maps) => r matches Ok(made) && (made.0@, made.1@) == maps,
            Err(k) => r matches Err(e) && error_kind(e) == k,
        },
        collected(items@.take(items.pairs@.len() as int)) is Ok ==> (match items.rejected {
            Some(x) => r == Err::<(StringMap, StringMap), ParseError>(ParseError::Tokenizer(x)),
            None => r is Ok,
        }),
{
    let ghost all = items@;
    let mut attributes = StringMap::new();
    let mut namespaces = StringMap::new();
    let mut i: usize = 0;
    assert(all.take(0) =~= Seq::<RawAttribute>::empty());
    while i < items.pairs.len()
        invariant
            i <= items.pairs@.len(),
            all == items@,
            collected(all.take(i as int)) == Ok::<_, ErrorKind>((attributes@, namespaces@)),
        decreases items.pairs.len() - i,
    {
        let pair = &items.pairs[i];
        proof {
            assert(all.take(i + 1).drop_last() =~= all.take(i as int));
            assert(all.take(i + 1).last() == Some((pair.0@, pair.1@)));
            if attribute_of(all[i as int]) is Err {
                lemma_collected_error_stays(all, i + 1);
                lemma_collected_error_stays(all.take(items.pairs@.len() as int), i + 1);
                assert(all.take(items.pairs@.len() as int).take(i + 1) =~= all.take(i + 1));
            }
        }
        match read_attribute(pair.0.as_slice(), pair.1.as_slice()) {
            Ok((key, value)) => {
                route_attribute(&mut attributes, &mut namespaces, key, value);
            },
            Err(e) => {
                return Err(e);
            },
        }
        i += 1;
    }
    match items.rejected {
        Some(e) => {
            proof {
                assert(all.drop_last() =~= all.take(i as int));
            }
            Err(ParseError::Tokenizer(e))
        },
        None => {
            proof {
                assert(all.take(i as int) =~= all);
            }
            Ok((attributes, namespaces))
        },
    }
}

impl DocumentParser {
    /// The invariant of the builder.
    pub closed spec fn wf(&self) -> bool {
        self.document.wf() && self@.valid()
    }

    /// A well-formed builder holds a valid view: the container is open, and
    /// every open element is in the document. The flags of its view are
    /// those of its options.
    pub proof fn lemma_wf_is_valid(&self)
        requires
            self.wf(),
        ensures
            self@.valid(),
            self@.empty_text_node == self.options().empty_text_node,
            self@.require_decl == self.options().require_decl,
    {
    }

    /// The options that the builder was made with.
    pub closed spec fn options(&self) -> ReadOptions {
        self.read_opts
    }

    /// A builder on an empty document, with only the container open.
    pub fn new(opts: ReadOptions) -> (parser: DocumentParser)
        ensures
            parser.wf(),
            parser.options() == opts,
            parser@ == (ParserView {
                doc: Document::new_view(),
                stack: seq![0int],
                encoding: None,
                empty_text_node: opts.empty_text_node,
                require_decl: opts.require_decl,
            }),
    {
        let doc = Document::new();
        let mut element_stack: Vec<Element> = Vec::new();
        element_stack.push(doc.container());
        let parser = DocumentParser {
            document: doc,
            read_opts: opts,
            encoding: None,
            element_stack,
        };
        assert(parser@.stack =~= seq![0int]);
        parser
    }

    /// The document as far as it is built.
    pub fn document(&self) -> (doc: &Document)
        requires
            self.wf(),
        ensures
            doc.wf(),
            doc@ == self@.doc,
    {
        &self.document
    }

    /// Ends the parse and hands out the document.
    pub fn into_document(self) -> (doc: Document)
        requires
            self.wf(),
        ensures
            doc.wf(),
            doc@ == self@.doc,
    {
        self.document
    }

    /// The number of open elements, the container among them.
    pub fn depth(&self) -> (n: usize)
        ensures
            n == self@.stack.len(),
    {
        self.element_stack.len()
    }

    /// The encoding that the declaration named, if it named one.
    pub fn encoding(&self) -> (r: &Option<Charset>)
        ensures
            charset_view(*r) == self@.encoding,
    {
        &self.encoding
    }

    /// Takes over what the declaration says: the version and the standalone
    /// flag go to the document, the encoding is kept for the caller. A
    /// declaration that fails leaves the builder as it was.
    pub fn handle_decl(&mut self, tag: &RawTag) -> (r: Result<(), ParseError>)
        requires
            old(self).wf(),
        ensures
            final(self).wf(),
            final(self).options() == old(self).options(),
            match declaration_of(tag.attributes()) {
                Ok(decl) => r is Ok && final(self)@ == old(self)@.with_declaration(decl),
                Err(k) => r matches Err(e) && error_kind(e) == k && final(self)@ == old(self)@,
            },
    {
        let version_bytes = match tokenized(tag.read_version()) {
            Ok(v) => v,
            Err(e) => {
                return Err(e);
            },
        };
        let version = match decode_text(version_bytes.as_slice()) {
            Ok(s) => s,
            Err(e) => {
                return Err(e);
            },
        };
        let encoding = match tag.read_encoding() {
            Some(Ok(label)) => match declared_encoding(Charset::for_label(label.as_slice())) {
                Ok(c) => Some(c),
                Err(e) => {
                    return Err(e);
                },
            },
            Some(Err(e)) => {
                return Err(ParseError::Tokenizer(e));
            },
            None => None,
        };
        let standalone = match tag.read_standalone() {
            Some(Ok(value)) => {
                let text = match decode_text(value.as_slice()) {
                    Ok(s) => s,
                    Err(e) => {
                        return Err(e);
                    },
                };
                let lowered = to_lowercase(text.as_str());
                match standalone_flag(lowered.as_str()) {
                    Ok(flag) => flag,
                    Err(e) => {
                        return Err(e);
                    },
                }
            },
            Some(Err(e)) => {
                return Err(ParseError::Tokenizer(e));
            },
            None => false,
        };
        self.document.set_declaration(version, standalone);
        self.encoding = encoding;
        Ok(())
    }

    /// The element that nodes are appended to.
    fn top(&self) -> (e: Element)
        requires
            self.wf(),
        ensures
            e@ == self@.top(),
            self@.doc.holds(e@),
    {
        let e = self.element_stack[self.element_stack.len() - 1];
        assert(self@.stack[self@.stack.len() - 1] == e@);
        e
    }

    fn push_node(&mut self, node: Node)
        requires
            old(self).wf(),
            !(node is Element),
        ensures
            final(self).wf(),
            final(self).options() == old(self).options(),
            final(self)@ == old(self)@.with_node(node@),
    {
        let parent = self.top();
        parent.push_child(&mut self.document, node);
        assert(self@.stack =~= old(self)@.stack);
    }

    /// Makes the element of a start tag or an empty tag and appends it to
    /// the children of `parent`. The name and the attributes are read
    /// first; a tag that fails leaves the builder as it was.
    pub fn create_element(&mut self, parent: Element, tag: &RawTag) -> (r: Result<
        Element,
        ParseError,
    >)
        requires
            old(self).wf(),
            old(self)@.doc.holds(parent@),
        ensures
            final(self).wf(),
            final(self).options() == old(self).options(),
            match element_of(tag.name(), tag.attributes()) {
                Ok(data) => r matches Ok(e) && e@ == old(self)@.doc.elements.len() && final(self)@
                    == (ParserView {
                    doc: old(self)@.doc.with_element(data).with_child(
                        parent@,
                        NodeView::Element(e@),
                    ),
                    ..old(self)@
                }),
                Err(k) => r matches Err(e) && error_kind(e) == k && final(self)@ == old(self)@,
            },
    {
        let full_name = match decode_text(tag.name_bytes()) {
            Ok(s) => s,
            Err(e) => {
                return Err(e);
            },
        };
        let (attributes, namespaces) = match collect_attributes(tag.read_attributes()) {
            Ok(maps) => maps,
            Err(e) => {
                return Err(e);
            },
        };
        let element = self.document.add(ElementData::new(full_name, attributes, namespaces));
        parent.push_child(&mut self.document, Node::Element(element));
        proof {
            assert(self@.stack =~= old(self)@.stack);
        }
        Ok(element)
    }

    /// Takes one event, and says whether the document is complete. An event
    /// that fails leaves the builder as it was.
    pub fn handle_event(&mut self, event: XmlEvent) -> (r: Result<bool, ParseError>)
        requires
            old(self).wf(),
            event is End ==> old(self)@.stack.len() > 1,
        ensures
            final(self).wf(),
            final(self).options() == old(self).options(),
            match after_event(old(self)@, event) {
                Ok((next, finished)) => r matches Ok(f) && f == finished && final(self)@ == next,
                Err(k) => r matches Err(e) && error_kind(e) == k && final(self)@ == old(self)@,
            },
    {
        match event {
            XmlEvent::Start(tag) => {
                let parent = self.top();
                match self.create_element(parent, &tag) {
                    Ok(element) => {
                        self.element_stack.push(element);
                        assert(self@.stack =~= old(self)@.stack.push(element@));
                        Ok(false)
                    },
                    Err(e) => Err(e),
                }
            },
            XmlEvent::End => {
                let element = self.top();
                self.element_stack.pop();
                assert(self@.stack =~= old(self)@.stack.drop_last());
                if self.read_opts.empty_text_node && !element.has_children(&self.document) {
                    element.push_child(&mut self.document, Node::Text(String::new()));
                }
                Ok(false)
            },
            XmlEvent::Empty(tag) => {
                let parent = self.top();
                match self.create_element(parent, &tag) {
                    Ok(_) => Ok(false),
                    Err(e) => Err(e),
                }
            },
            XmlEvent::Text(bytes) => {
                match read_plain_text(bytes.as_slice()) {
                    Ok(content) => {
                        self.push_node(Node::Text(content));
                        Ok(false)
                    },
                    Err(e) => Err(e),
                }
            },
            XmlEvent::DocType(bytes) => {
                match read_plain_text(bytes.as_slice()) {
                    Ok(content) => {
                        self.push_node(Node::DocType(content));
                        Ok(false)
                    },
                    Err(e) => Err(e),
                }
            },
            XmlEvent::Comment(bytes) => {
                match read_resolved_text(bytes.as_slice()) {
                    Ok(content) => {
                        self.push_node(Node::Comment(content));
                        Ok(false)
                    },
                    Err(e) => Err(e),
                }
            },
            XmlEvent::CData(bytes) => {
                match read_resolved_text(bytes.as_slice()) {
                    Ok(content) => {
                        self.push_node(Node::CData(content));
                        Ok(false)
                    },
                    Err(e) => Err(e),
                }
            },
            XmlEvent::PI(bytes) => {
                match read_resolved_text(bytes.as_slice()) {
                    Ok(content) => {
                        self.push_node(Node::PI(content));
                        Ok(false)
                    },
                    Err(e) => Err(e),
                }
            },
            XmlEvent::Decl(_) => Err(
                ParseError::MalformedXML(Malformation::MisplacedDeclaration),
            ),
            XmlEvent::Eof => Ok(true),
        }
    }

    /// Sniffs the encoding from the bytes that the buffer offers, which are
    /// the first of the stream, and skips a byte-order mark. The buffer
    /// holds enough of the stream to tell its start, however the source
    /// cut it into reads.
    pub fn sniff_encoding(&mut self, reader: &mut DecodeReader) -> (r: Option<Charset>)
        requires
            old(reader).wf(),
            old(reader).lead_ready(),
        ensures
            *final(self) == *old(self),
            final(reader).wf(),
            charset_view(r) == sniffed_encoding(old(reader).buffered()),
            final(reader).buffered() == old(reader).buffered().skip(
                mark_len(old(reader).buffered()) as int,
            ),
            final(reader).decoding() == old(reader).decoding(),
            final(reader).encoding() == old(reader).encoding(),
            final(reader).exhausted() == old(reader).exhausted(),
            old(reader).decoding() ==> final(reader).raw() == old(reader).raw(),
            !old(reader).decoding() ==> final(reader).text() == old(reader).text(),
    {
        let lead = sniff_lead(reader.buffer());
        proof {
            lemma_mark_within_stream(reader.buffered());
        }
        let skipped = mark_len_of_lead(&lead);
        reader.consume(skipped);
        encoding_of_lead(&lead)
    }

    /// The encoding that reading begins with: the one that the options
    /// name, which must be known, or else the sniffed one.
    pub fn initial_encoding(&self, sniffed: Option<Charset>) -> (r: Result<
        Option<Charset>,
        ParseError,
    >)
        ensures
            match chosen_of(
                charset_view(sniffed),
                match self.options().encoding {
                    Some(label) => Some(encoding_for_label(encode_utf8(label@))),
                    None => None,
                },
            ) {
                Ok(encoding) => r matches Ok(c) && charset_view(c) == encoding,
                Err(k) => r matches Err(e) && error_kind(e) == k,
            },
    {
        let configured = match &self.read_opts.encoding {
            Some(label) => Some(Charset::for_label(label.as_str().as_bytes())),
            None => None,
        };
        chosen_encoding(sniffed, configured)
    }

    /// Takes the first event of the stream, whose reading began with the
    /// encoding `initial`, and says how the parse goes on. An event that
    /// fails leaves the builder as it was.
    pub fn parse_start(&mut self, first: XmlEvent, initial: &Option<Charset>) -> (r: Result<
        Start,
        ParseError,
    >)
        requires
            old(self).wf(),
            first is End ==> old(self)@.require_decl || old(self)@.stack.len() > 1,
        ensures
            final(self).wf(),
            final(self).options() == old(self).options(),
            match after_first_event(old(self)@, first, charset_view(*initial)) {
                Ok((next, start)) => r matches Ok(s) && s@ == start && final(self)@ == next,
                Err(k) => r matches Err(e) && error_kind(e) == k && final(self)@ == old(self)@,
            },
    {
        match first {
            XmlEvent::Decl(tag) => {
                match self.handle_decl(&tag) {
                    Ok(()) => {
                        if needs_redecode(&self.encoding, initial) {
                            match &self.encoding {
                                Some(declared) => Ok(Start::Redecode(decoder_for(declared))),
                                None => Ok(Start::Continue),
                            }
                        } else {
                            Ok(Start::Continue)
                        }
                    },
                    Err(e) => Err(e),
                }
            },
            other => {
                if self.read_opts.require_decl {
                    Err(ParseError::MalformedXML(Malformation::MissingDeclaration))
                } else {
                    match self.handle_event(other) {
                        Ok(true) => Ok(Start::Finished),
                        Ok(false) => Ok(Start::Continue),
                        Err(e) => Err(e),
                    }
                }
            },
        }
    }
}

/// The container stays open and every open element stays in the document:
/// an event that the builder takes leaves a valid builder valid. An end tag
/// is only taken while an element other than the container is open.
pub proof fn lemma_event_keeps_valid(state: ParserView, event: XmlEvent)
    requires
        state.valid(),
        event is End ==> state.stack.len() > 1,
    ensures
        after_event(state, event) matches Ok((next, _)) ==> next.valid(),
{
    let top = state.top();
    assert(state.doc.holds(state.stack[state.stack.len() - 1]));
    match event {
        XmlEvent::Start(tag) => {
            if let Ok(data) = element_of(tag.name(), tag.attributes()) {
                lemma_element_keeps_valid(state, data);
                let next = after_event(state, event)->Ok_0.0;
                assert forall|i: int| 0 <= i < next.stack.len() implies next.doc.holds(
                    #[trigger] next.stack[i],
                ) by {
                    if i < state.stack.len() {
                        assert(state.doc.holds(state.stack[i]));
                    }
                }
            }
        },
        XmlEvent::Empty(tag) => {
            if let Ok(data) = element_of(tag.name(), tag.attributes()) {
                lemma_element_keeps_valid(state, data);
            }
        },
        XmlEvent::End => {
            let text = NodeView::Text(Seq::empty());
            lemma_with_child_valid(state.doc, top, text);
            let next = state.closed();
            assert forall|i: int| 0 <= i < next.stack.len() implies next.doc.holds(
                #[trigger] next.stack[i],
            ) by {
                assert(state.doc.holds(state.stack[i]));
            }
        },
        XmlEvent::Text(bytes) => {
            if let Ok(text) = plain_text(bytes@) {
                lemma_node_keeps_valid(state, NodeView::Text(text));
            }
        },
        XmlEvent::DocType(bytes) => {
            if let Ok(text) = plain_text(bytes@) {
                lemma_node_keeps_valid(state, NodeView::DocType(text));
            }
        },
        XmlEvent::Comment(bytes) => {
            if let Ok(text) = resolved_text(bytes@) {
                lemma_node_keeps_valid(state, NodeView::Comment(text));
            }
        },
        XmlEvent::CData(bytes) => {
            if let Ok(text) = resolved_text(bytes@) {
                lemma_node_keeps_valid(state, NodeView::CData(text));
            }
        },
        XmlEvent::PI(bytes) => {
            if let Ok(text) = resolved_text(bytes@) {
                lemma_node_keeps_valid(state, NodeView::PI(text));
            }
        },
        XmlEvent::Decl(_) => {},
        XmlEvent::Eof => {},
    }
}

proof fn lemma_node_keeps_valid(state: ParserView, node: NodeView)
    requires
        state.valid(),
        !(node is Element),
    ensures
        state.with_node(node).valid(),
{
    assert(state.doc.holds(state.stack[state.stack.len() - 1]));
    lemma_with_child_valid(state.doc, state.top(), node);
    let next = state.with_node(node);
    assert forall|i: int| 0 <= i < next.stack.len() implies next.doc.holds(
        #[trigger] next.stack[i],
    ) by {
        assert(state.doc.holds(state.stack[i]));
    }
}

proof fn lemma_element_keeps_valid(state: ParserView, data: ElementView)
    requires
        state.valid(),
        data.parent is None,
        data.children.len() == 0,
    ensures
        state.with_element(data).valid(),
        state.with_element(data).doc.elements.len() == state.doc.elements.len() + 1,
{
    assert(state.doc.holds(state.stack[state.stack.len() - 1]));
    lemma_with_element_valid(state.doc, data);
    let grown = state.doc.with_element(data);
    lemma_with_child_valid(grown, state.top(), NodeView::Element(state.doc.elements.len() as int));
    let next = state.with_element(data);
    assert forall|i: int| 0 <= i < next.stack.len() implies next.doc.holds(
        #[trigger] next.stack[i],
    ) by {
        assert(state.doc.holds(state.stack[i]));
    }
}

/// Where a declaration is required, a stream that starts with anything else
/// fails as one whose declaration is missing; where none is required, its
/// first event is taken as any later event is.
pub proof fn lemma_first_event_without_declaration(
    state: ParserView,
    first: XmlEvent,
    initial: Option<Seq<char>>,
)
    requires
        !(first is Decl),
    ensures
        state.require_decl ==> after_first_event(state, first, initial) == Err::<
            (ParserView, StartView),
            ErrorKind,
        >(ErrorKind::MalformedXML(Malformation::MissingDeclaration)),
        !state.require_decl ==> match after_event(state, first) {
            Ok((next, _)) => after_first_event(state, first, initial) matches Ok((started, _))
                && started == next,
            Err(k) => after_first_event(state, first, initial) == Err::<
                (ParserView, StartView),
                ErrorKind,
            >(k),
        },
{
}

/// A declaration that names no encoding leaves the decoder alone, whatever
/// the stream was found to be.
pub proof fn lemma_declaration_without_encoding_keeps_decoder(
    state: ParserView,
    tag: RawTag,
    initial: Option<Seq<char>>,
)
    requires
        declaration_of(tag.attributes()) matches Ok(decl) && decl.encoding is None,
    ensures
        after_first_event(state, XmlEvent::Decl(tag), initial) matches Ok((_, start)) && start
            == StartView::Continue,
{
}

/// A declaration whose label stands for little-endian UTF-16, as the plain
/// label `UTF-16` does, leaves the decoder alone where the stream was found
/// to be big-endian UTF-16.
pub proof fn lemma_little_endian_label_keeps_big_endian(state: ParserView, tag: RawTag)
    requires
        declaration_of(tag.attributes()) matches Ok(decl) && decl.encoding == Some(utf_16le()),
    ensures
        after_first_event(state, XmlEvent::Decl(tag), Some(utf_16be())) matches Ok((_, start))
            && start == StartView::Continue,
{
}

/// An empty tag makes an element without children, whatever the options
/// say.
pub proof fn lemma_empty_tag_has_no_children(state: ParserView, tag: RawTag)
    requires
        state.valid(),
        element_of(tag.name(), tag.attributes()) is Ok,
    ensures
        after_event(state, XmlEvent::Empty(tag)) matches Ok((next, _)) && next.stack == state.stack
            && next.doc.elements[state.doc.elements.len() as int].children.len() == 0,
{
    assert(state.doc.holds(state.stack[state.stack.len() - 1]));
}

/// A start tag that its end tag follows at once makes an element whose only
/// child is an empty text node where `empty_text_node` is set, and an
/// element without children where it is not.
pub proof fn lemma_start_end_children(state: ParserView, tag: RawTag)
    requires
        state.valid(),
        element_of(tag.name(), tag.attributes()) is Ok,
    ensures
        after_event(state, XmlEvent::Start(tag)) matches Ok((opened, _)) && after_event(
            opened,
            XmlEvent::End,
        ) matches Ok((next, _)) && next.stack == state.stack
            && next.doc.elements[state.doc.elements.len() as int].children
            == (if state.empty_text_node {
            seq![NodeView::Text(Seq::empty())]
        } else {
            Seq::<NodeView>::empty()
        }),
{
    assert(state.doc.holds(state.stack[state.stack.len() - 1]));
    let e = state.doc.elements.len() as int;
    let opened = after_event(state, XmlEvent::Start(tag))->Ok_0.0;
    assert(opened.stack.last() == e);
    assert(opened.stack.drop_last() =~= state.stack);
    assert(opened.doc.elements[e].children =~= Seq::<NodeView>::empty());
    let next = after_event(opened, XmlEvent::End)->Ok_0.0;
    if state.empty_text_node {
        assert(next.doc.elements[e].children =~= seq![NodeView::Text(Seq::empty())]);
    }
}

/// The key of an attribute as text.
pub open spec fn key_of(item: RawAttribute) -> Seq<char> {
    attribute_of(item)->Ok_0.0
}

/// The value of an attribute as text.
pub open spec fn value_of(item: RawAttribute) -> Seq<char> {
    attribute_of(item)->Ok_0.1
}

/// Every attribute of a tag is found in the element: under its prefix among
/// the namespace declarations where its key declares a namespace, and
/// under its key among the attributes where it does not. It is found with
/// its own value where no later attribute has the same prefix or key.
pub proof fn lemma_collected_holds_each(items: Seq<RawAttribute>, i: int)
    requires
        collected(items) is Ok,
        0 <= i < items.len(),
    ensures
        attribute_of(items[i]) is Ok,
        namespace_prefix(key_of(items[i])) matches Some(prefix) ==> {
            &&& collected(items)->Ok_0.1.contains_key(prefix)
            &&& (forall|j: int|
                i < j < items.len() ==> namespace_prefix(key_of(#[trigger] items[j])) != Some(
                    prefix,
                )) ==> collected(items)->Ok_0.1[prefix] == value_of(items[i])
        },
        namespace_prefix(key_of(items[i])) is None ==> {
            &&& collected(items)->Ok_0.0.contains_key(key_of(items[i]))
            &&& (forall|j: int|
                i < j < items.len() ==> key_of(#[trigger] items[j]) != key_of(items[i]))
                ==> collected(items)->Ok_0.0[key_of(items[i])] == value_of(items[i])
        },
    decreases items.len(),
{
    let front = items.drop_last();
    let last = items.len() - 1;
    if i < last {
        assert(front[i] == items[i]);
        lemma_collected_holds_each(front, i);
        let key = key_of(items[i]);
        match namespace_prefix(key) {
            Some(prefix) => {
                if forall|j: int|
                    i < j < items.len() ==> namespace_prefix(key_of(#[trigger] items[j])) != Some(
                        prefix,
                    ) {
                    assert(namespace_prefix(key_of(items[last])) != Some(prefix));
                    assert forall|j: int| i < j < front.len() implies namespace_prefix(
                        key_of(#[trigger] front[j]),
                    ) != Some(prefix) by {
                        assert(front[j] == items[j]);
                    }
                }
            },
            None => {
                if forall|j: int| i < j < items.len() ==> key_of(#[trigger] items[j]) != key {
                    assert(key_of(items[last]) != key);
                    assert forall|j: int| i < j < front.len() implies key_of(#[trigger] front[j])
                        != key by {
                        assert(front[j] == items[j]);
                    }
                }
            },
        }
    }
}

/// The element holds nothing but what the attributes of its tag make: each
/// of its attributes is the key of one of them, which declares no
/// namespace, and each of its namespace declarations is the prefix that
/// the key of one of them declares.
pub proof fn lemma_collected_holds_nothing_else(items: Seq<RawAttribute>, key: Seq<char>)
    requires
        collected(items) is Ok,
    ensures
        collected(items)->Ok_0.0.contains_key(key) ==> namespace_prefix(key) is None && exists|
            i: int,
        |
            0 <= i < items.len() && key_of(#[trigger] items[i]) == key,
        collected(items)->Ok_0.1.contains_key(key) ==> exists|i: int|
            0 <= i < items.len() && namespace_prefix(key_of(#[trigger] items[i])) == Some(key),
    decreases items.len(),
{
    if items.len() > 0 {
        let front = items.drop_last();
        let last = items.len() - 1;
        lemma_collected_holds_nothing_else(front, key);
        let maps = collected(items)->Ok_0;
        let before = collected(front)->Ok_0;
        if maps.0.contains_key(key) {
            if before.0.contains_key(key) {
                let i = choose|i: int| 0 <= i < front.len() && key_of(#[trigger] front[i]) == key;
                assert(items[i] == front[i]);
            } else {
                assert(key_of(items[last]) == key);
            }
        }
        if maps.1.contains_key(key) {
            if before.1.contains_key(key) {
                let i = choose|i: int|
                    0 <= i < front.len() && namespace_prefix(key_of(#[trigger] front[i])) == Some(
                        key,
                    );
                assert(items[i] == front[i]);
            } else {
                assert(namespace_prefix(key_of(items[last])) == Some(key));
            }
        }
    }
}

} // verus!
