use std::io::{BufRead, Read};

use quick_xml::events::Event;
use quick_xml::Reader;
use xml_doc::parser::Start;
use xml_doc::{
    DecodeReader, Document, DocumentParser, Element, ErrorKind, Malformation, Node, ParseError,
    RawTag, ReadOptions, XmlEvent,
};

/// A byte source that hands out at most `step` bytes with each read.
struct Steps {
    data: Vec<u8>,
    pos: usize,
    step: usize,
}

impl Read for Steps {
    fn read(&mut self, buf: &mut [u8]) -> std::io::Result<usize> {
        let n = buf.len().min(self.step).min(self.data.len() - self.pos);
        buf[..n].copy_from_slice(&self.data[self.pos..self.pos + n]);
        self.pos += n;
        Ok(n)
    }
}

struct Source {
    inner: Steps,
    state: DecodeReader,
    scratch: Vec<u8>,
}

impl Source {
    fn fill_lead(&mut self) -> std::io::Result<()> {
        while !self.state.is_lead_ready() {
            let room = self.state.lead_read_room();
            let read = self.inner.read(&mut self.scratch[..room])?;
            self.state.fill_lead(&self.scratch[..read]);
        }
        Ok(())
    }

    fn fill(&mut self) -> std::io::Result<()> {
        loop {
            let room = self.state.read_room();
            let read = if room > 0 {
                self.inner.read(&mut self.scratch[..room])?
            } else {
                0
            };
            self.state.fill_buf(&self.scratch[..read]);
            if !self.state.is_starved() {
                return Ok(());
            }
        }
    }
}

impl Read for Source {
    fn read(&mut self, buf: &mut [u8]) -> std::io::Result<usize> {
        self.state.text_region().read(buf)
    }
}

impl BufRead for Source {
    fn fill_buf(&mut self) -> std::io::Result<&[u8]> {
        self.fill()?;
        Ok(self.state.buffer())
    }

    fn consume(&mut self, amt: usize) {
        self.state.consume(amt);
    }
}

fn tag(content: &[u8], name_len: usize) -> RawTag {
    RawTag::new(content.to_vec(), name_len).unwrap()
}

fn convert(event: Event) -> XmlEvent {
    match event {
        Event::Start(e) => XmlEvent::Start(tag(&e, e.name().len())),
        Event::End(_) => XmlEvent::End,
        Event::Empty(e) => XmlEvent::Empty(tag(&e, e.name().len())),
        Event::Text(e) => XmlEvent::Text(e.to_vec()),
        Event::Comment(e) => XmlEvent::Comment(e.to_vec()),
        Event::CData(e) => XmlEvent::CData(e.to_vec()),
        Event::Decl(e) => XmlEvent::Decl(tag(&e, 3)),
        Event::PI(e) => XmlEvent::PI(e.to_vec()),
        Event::DocType(e) => XmlEvent::DocType(e.to_vec()),
        Event::Eof => XmlEvent::Eof,
    }
}

fn next_event(
    reader: &mut Reader<Source>,
    buf: &mut Vec<u8>,
    parser: &DocumentParser,
) -> Result<XmlEvent, ParseError> {
    let event = match reader.read_event(buf) {
        Ok(event) => convert(event),
        Err(e) => return Err(ParseError::Tokenizer(e)),
    };
    if let XmlEvent::End = event {
        assert!(parser.depth() > 1);
    }
    Ok(event)
}

fn tokenizer(source: Source, opts: &ReadOptions) -> Reader<Source> {
    let mut reader = Reader::from_reader(source);
    reader.trim_text(opts.trim_text);
    reader
}

fn parse_steps(data: &[u8], step: usize, opts: ReadOptions) -> Result<Document, ParseError> {
    let mut parser = DocumentParser::new(opts.clone());
    let mut source = Source {
        inner: Steps {
            data: data.to_vec(),
            pos: 0,
            step,
        },
        state: DecodeReader::new(None),
        scratch: vec![0; 4096],
    };
    source.fill_lead().unwrap();
    let sniffed = parser.sniff_encoding(&mut source.state);
    let initial = parser.initial_encoding(sniffed)?;
    source.state.set_encoding(initial.as_ref());
    let mut reader = tokenizer(source, &opts);
    let mut buf = Vec::new();
    let first = next_event(&mut reader, &mut buf, &parser)?;
    match parser.parse_start(first, &initial)? {
        Start::Finished => return Ok(parser.into_document()),
        Start::Continue => {}
        Start::Redecode(encoding) => {
            let mut source = reader.into_underlying_reader();
            source.state.set_encoding(encoding.as_ref());
            reader = tokenizer(source, &opts);
        }
    }
    loop {
        let event = next_event(&mut reader, &mut buf, &parser)?;
        if parser.handle_event(event)? {
            return Ok(parser.into_document());
        }
    }
}

fn parse(data: &[u8], opts: ReadOptions) -> Result<Document, ParseError> {
    parse_steps(data, usize::MAX, opts)
}

fn write_element(doc: &Document, element: Element, out: &mut String) {
    out.push_str(&format!("<{}", element.full_name(doc)));
    for node in element.children(doc) {
        match node {
            Node::Element(e) => write_element(doc, *e, out),
            Node::Text(s) => out.push_str(&format!("[text {:?}]", s)),
            Node::Comment(s) => out.push_str(&format!("[comment {:?}]", s)),
            Node::CData(s) => out.push_str(&format!("[cdata {:?}]", s)),
            Node::DocType(s) => out.push_str(&format!("[doctype {:?}]", s)),
            Node::PI(s) => out.push_str(&format!("[pi {:?}]", s)),
        }
    }
    out.push('>');
}

fn outline(doc: &Document) -> String {
    let mut out = format!("{:?} {:?} ", doc.version(), doc.standalone());
    write_element(doc, doc.container(), &mut out);
    out
}

fn utf16(text: &str, big_endian: bool) -> Vec<u8> {
    let mut bytes = Vec::new();
    for unit in text.encode_utf16() {
        if big_endian {
            bytes.extend_from_slice(&unit.to_be_bytes());
        } else {
            bytes.extend_from_slice(&unit.to_le_bytes());
        }
    }
    bytes
}

fn lenient() -> ReadOptions {
    ReadOptions {
        empty_text_node: true,
        trim_text: true,
        require_decl: false,
        encoding: None,
    }
}

#[test]
fn simple_document() {
    let doc = parse(
        b"<?xml version=\"1.0\" standalone=\"yes\"?><a><b>hi</b><!--c--><c/></a>",
        ReadOptions::default(),
    )
    .unwrap();
    assert_eq!(
        outline(&doc),
        "\"1.0\" true <<a<b[text \"hi\"]>[comment \"c\"]<c>>>"
    );
}

#[test]
fn utf8_mark_is_ignored() {
    let plain = b"<?xml version=\"1.0\"?><a x=\"1\">t</a>".to_vec();
    let mut marked = vec![0xef, 0xbb, 0xbf];
    marked.extend_from_slice(&plain);
    let with_mark = parse(&marked, ReadOptions::default()).unwrap();
    let without = parse(&plain, ReadOptions::default()).unwrap();
    assert_eq!(outline(&with_mark), outline(&without));
    assert_eq!(outline(&with_mark), "\"1.0\" false <<a[text \"t\"]>>");
}

#[test]
fn utf16_big_endian_is_detected_without_mark() {
    let data = utf16(
        "<?xml version=\"1.0\" encoding=\"UTF-16\"?><a>h\u{e9}\u{20ac}</a>",
        true,
    );
    assert_eq!(&data[..4], &[0x00, 0x3c, 0x00, 0x3f]);
    let doc = parse(&data, ReadOptions::default()).unwrap();
    assert_eq!(
        outline(&doc),
        "\"1.0\" false <<a[text \"h\u{e9}\u{20ac}\"]>>"
    );
}

#[test]
fn utf16_little_endian_is_detected_without_mark() {
    let data = utf16(
        "<?xml version=\"1.0\" encoding=\"utf-16le\"?><a>h\u{e9}</a>",
        false,
    );
    assert_eq!(&data[..4], &[0x3c, 0x00, 0x3f, 0x00]);
    let doc = parse(&data, ReadOptions::default()).unwrap();
    assert_eq!(outline(&doc), "\"1.0\" false <<a[text \"h\u{e9}\"]>>");
}

#[test]
fn generic_utf16_declaration_after_big_endian_mark_is_read_big_endian() {
    let mut data = vec![0xfe, 0xff];
    data.extend_from_slice(&utf16(
        "<?xml version=\"1.0\" encoding=\"UTF-16\"?><a>\u{4e2d}</a>",
        true,
    ));
    let doc = parse(&data, ReadOptions::default()).unwrap();
    assert_eq!(outline(&doc), "\"1.0\" false <<a[text \"\u{4e2d}\"]>>");
}

#[test]
fn document_with_utf16_little_endian_mark() {
    let mut data = vec![0xff, 0xfe];
    data.extend_from_slice(&utf16(
        "<?xml version=\"1.0\" encoding=\"UTF-16\"?><a>\u{4e2d}</a>",
        false,
    ));
    let doc = parse(&data, ReadOptions::default()).unwrap();
    assert_eq!(outline(&doc), "\"1.0\" false <<a[text \"\u{4e2d}\"]>>");
}

#[test]
fn declared_encoding_replaces_the_decoder() {
    let mut data = b"<?xml version=\"1.0\" encoding=\"windows-1252\"?><a>caf".to_vec();
    data.push(0xe9);
    data.extend_from_slice(b"</a>");
    let doc = parse(&data, ReadOptions::default()).unwrap();
    assert_eq!(outline(&doc), "\"1.0\" false <<a[text \"caf\u{e9}\"]>>");
}

#[test]
fn configured_encoding_is_used_without_declaration() {
    let mut data = b"<a>caf".to_vec();
    data.push(0xe9);
    data.extend_from_slice(b"</a>");
    let mut opts = lenient();
    opts.encoding = Some("latin1".to_string());
    let doc = parse(&data, opts).unwrap();
    assert_eq!(outline(&doc), "\"\" false <<a[text \"caf\u{e9}\"]>>");
}

#[test]
fn configured_unknown_encoding_fails() {
    let mut opts = lenient();
    opts.encoding = Some("nope".to_string());
    let err = parse(b"<a/>", opts).err().unwrap();
    assert_eq!(err.kind(), ErrorKind::CannotDecode);
}

#[test]
fn empty_and_text_bearing_elements() {
    let mut opts = lenient();
    let doc = parse(b"<a></a>", opts.clone()).unwrap();
    assert_eq!(outline(&doc), "\"\" false <<a[text \"\"]>>");
    let doc = parse(b"<a/>", opts.clone()).unwrap();
    assert_eq!(outline(&doc), "\"\" false <<a>>");
    opts.empty_text_node = false;
    let doc = parse(b"<a></a>", opts.clone()).unwrap();
    assert_eq!(outline(&doc), "\"\" false <<a>>");
    let doc = parse(b"<a/>", opts).unwrap();
    assert_eq!(outline(&doc), "\"\" false <<a>>");
}

#[test]
fn namespace_routing() {
    let doc = parse(
        b"<a xmlns=\"http://x\" xmlns:p=\"http://y\" q=\"1\"/>",
        lenient(),
    )
    .unwrap();
    let a = match &doc.container().children(&doc)[0] {
        Node::Element(e) => *e,
        _ => panic!("element expected"),
    };
    assert_eq!(a.full_name(&doc), "a");
    assert_eq!(a.namespace_decls(&doc).len(), 2);
    assert_eq!(a.namespace_decls(&doc).get("").unwrap(), "http://x");
    assert_eq!(a.namespace_decls(&doc).get("p").unwrap(), "http://y");
    assert_eq!(a.attributes(&doc).len(), 1);
    assert_eq!(a.attributes(&doc).get("q").unwrap(), "1");
    assert!(!a.attributes(&doc).contains_key("xmlns"));
    assert!(!a.attributes(&doc).contains_key("xmlns:p"));
}

#[test]
fn required_declaration() {
    let mut opts = lenient();
    opts.require_decl = true;
    let err = parse(b"<a>t</a>", opts).err().unwrap();
    assert_eq!(
        err.kind(),
        ErrorKind::MalformedXML(Malformation::MissingDeclaration)
    );
    let doc = parse(b"<a>t</a>", lenient()).unwrap();
    assert_eq!(outline(&doc), "\"\" false <<a[text \"t\"]>>");
}

#[test]
fn second_declaration_fails() {
    let err = parse(
        b"<?xml version=\"1.0\"?><a/><?xml version=\"1.0\"?>",
        ReadOptions::default(),
    )
    .err().unwrap();
    assert_eq!(
        err.kind(),
        ErrorKind::MalformedXML(Malformation::MisplacedDeclaration)
    );
}

#[test]
fn mismatched_tags_are_the_tokenizers_error() {
    let err = parse(b"<a></b>", lenient()).err().unwrap();
    assert_eq!(err.kind(), ErrorKind::Tokenizer);
    let err = parse(b"</a>", lenient()).err().unwrap();
    assert_eq!(err.kind(), ErrorKind::Tokenizer);
}

#[test]
fn text_is_trimmed_by_the_tokenizer_on_demand() {
    let mut opts = lenient();
    let doc = parse(b"<a>  t  </a>", opts.clone()).unwrap();
    assert_eq!(outline(&doc), "\"\" false <<a[text \"t\"]>>");
    opts.trim_text = false;
    let doc = parse(b"<a>  t  </a>", opts).unwrap();
    assert_eq!(
        outline(&doc),
        "\"\" false <[text \"\"]<a[text \"  t  \"]>>"
    );
}

#[test]
fn utf16_with_mark_in_small_reads() {
    for big_endian in [true, false] {
        let mut data = if big_endian {
            vec![0xfe, 0xff]
        } else {
            vec![0xff, 0xfe]
        };
        data.extend_from_slice(&utf16(
            "<?xml version=\"1.0\" encoding=\"UTF-16\"?><a b=\"\u{e9}\">\u{4e2d}\u{1f600}</a>",
            big_endian,
        ));
        let whole = parse(&data, ReadOptions::default()).unwrap();
        assert_eq!(
            outline(&whole),
            "\"1.0\" false <<a[text \"\u{4e2d}\u{1f600}\"]>>"
        );
        for step in [1usize, 2, 3, 5, 64] {
            let parts = parse_steps(&data, step, ReadOptions::default()).unwrap();
            assert_eq!(outline(&parts), outline(&whole));
        }
    }
}

#[test]
fn utf16_without_mark_in_small_reads() {
    let data = utf16(
        "<?xml version=\"1.0\" encoding=\"UTF-16\"?><a>h\u{e9}\u{20ac}</a>",
        true,
    );
    for step in [1usize, 2, 3, 7] {
        let doc = parse_steps(&data, step, ReadOptions::default()).unwrap();
        assert_eq!(
            outline(&doc),
            "\"1.0\" false <<a[text \"h\u{e9}\u{20ac}\"]>>"
        );
    }
}

#[test]
fn sniffed_utf16_stays_where_the_declaration_names_no_encoding() {
    for big_endian in [true, false] {
        let data = utf16("<?xml version=\"1.0\"?><a>hi</a>", big_endian);
        for step in [1usize, 4, 4096] {
            let doc = parse_steps(&data, step, ReadOptions::default()).unwrap();
            assert_eq!(outline(&doc), "\"1.0\" false <<a[text \"hi\"]>>");
        }
        let mut marked = if big_endian {
            vec![0xfe, 0xff]
        } else {
            vec![0xff, 0xfe]
        };
        marked.extend_from_slice(&data);
        let doc = parse(&marked, ReadOptions::default()).unwrap();
        assert_eq!(outline(&doc), "\"1.0\" false <<a[text \"hi\"]>>");
    }
}

#[test]
fn two_byte_characters_in_one_byte_reads() {
    let mut data = b"<?xml version=\"1.0\" encoding=\"Shift_JIS\"?><a>".to_vec();
    data.extend_from_slice(&[0x93, 0xfa, 0x96, 0x7b]);
    data.extend_from_slice(b"</a>");
    let whole = parse(&data, ReadOptions::default()).unwrap();
    assert_eq!(outline(&whole), "\"1.0\" false <<a[text \"\u{65e5}\u{672c}\"]>>");
    for step in [1usize, 2, 3] {
        let parts = parse_steps(&data, step, ReadOptions::default()).unwrap();
        assert_eq!(outline(&parts), outline(&whole));
    }
}

#[test]
fn small_reads_give_the_same_document() {
    let text = "<?xml version=\"1.0\" encoding=\"UTF-8\"?>\n<r a=\"\u{e9}\">\u{4e2d}\u{6587}<b>\u{1f600}</b><!-- \u{20ac} --></r>";
    let whole = parse(text.as_bytes(), ReadOptions::default()).unwrap();
    assert_eq!(
        outline(&whole),
        "\"1.0\" false <<r[text \"\u{4e2d}\u{6587}\"]<b[text \"\u{1f600}\"]>[comment \" \u{20ac} \"]>>"
    );
    for step in [1usize, 2, 3, 5, 7, 64] {
        let parts = parse_steps(text.as_bytes(), step, ReadOptions::default()).unwrap();
        assert_eq!(outline(&parts), outline(&whole));
    }
}

#[test]
fn small_reads_through_a_single_byte_decoder() {
    let mut data = b"<?xml version=\"1.0\" encoding=\"windows-1252\"?><a b=\"".to_vec();
    data.push(0xe9);
    data.extend_from_slice(b"\">caf");
    data.push(0xe9);
    data.extend_from_slice(b"</a>");
    let whole = parse(&data, ReadOptions::default()).unwrap();
    assert_eq!(outline(&whole), "\"1.0\" false <<a[text \"caf\u{e9}\"]>>");
    for step in [1usize, 2, 3, 33, 100] {
        let parts = parse_steps(&data, step, ReadOptions::default()).unwrap();
        assert_eq!(outline(&parts), outline(&whole));
    }
}

#[test]
fn long_document_crosses_the_raw_region() {
    let mut text = String::from("<?xml version=\"1.0\" encoding=\"iso-8859-1\"?><r>");
    for i in 0..2000 {
        text.push_str(&format!("<e n=\"{}\">x</e>", i));
    }
    text.push_str("</r>");
    let whole = parse(text.as_bytes(), ReadOptions::default()).unwrap();
    assert_eq!(whole.element_count(), 2002);
    for step in [1000usize, 4096] {
        let parts = parse_steps(text.as_bytes(), step, ReadOptions::default()).unwrap();
        assert_eq!(outline(&parts), outline(&whole));
    }
}
