//! Building an XML document tree from a byte stream whose character encoding
//! is sniffed from its first bytes or declared in its prolog.

pub mod charset;
pub mod declaration;
pub mod decode;
pub mod document;
pub mod error;
pub mod normalize;
pub mod parser;
pub mod sniff;
pub mod string_map;
pub mod text;
pub mod tokenizer;

pub use charset::Charset;
pub use decode::DecodeReader;
pub use document::{Document, Element, Node};
pub use error::{ErrorKind, Malformation, ParseError};
pub use normalize::normalize_space;
pub use parser::{DocumentParser, ReadOptions};
pub use tokenizer::{RawTag, XmlEvent};
