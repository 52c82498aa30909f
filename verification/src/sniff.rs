//! Guessing the encoding of a stream from its first bytes.

use vstd::prelude::*;

use crate::charset::{charset_view, utf_16be, utf_16le, Charset};

verus! {

/// What the first bytes of a stream tell about its encoding.
pub enum Lead {
    /// `<?` in an encoding that extends ASCII.
    Prolog,
    /// The byte-order mark of big-endian UTF-16.
    Utf16BeMark,
    /// The byte-order mark of little-endian UTF-16.
    Utf16LeMark,
    /// The byte-order mark of UTF-8.
    Utf8Mark,
    /// `<?` in big-endian UTF-16, without a byte-order mark.
    Utf16BeProlog,
    /// `<?` in little-endian UTF-16, without a byte-order mark.
    Utf16LeProlog,
    /// Nothing that is recognized.
    Unknown,
}

/// The first of the leads, in the order of the variants of `Lead`, that
/// `bytes` start with.
pub open spec fn lead_of(bytes: Seq<u8>) -> Lead {
    if seq![0x3cu8, 0x3f].is_prefix_of(bytes) {
        Lead::Prolog
    } else if seq![0xfeu8, 0xff].is_prefix_of(bytes) {
        Lead::Utf16BeMark
    } else if seq![0xffu8, 0xfe].is_prefix_of(bytes) {
        Lead::Utf16LeMark
    } else if seq![0xefu8, 0xbb, 0xbf].is_prefix_of(bytes) {
        Lead::Utf8Mark
    } else if seq![0x00u8, 0x3c, 0x00, 0x3f].is_prefix_of(bytes) {
        Lead::Utf16BeProlog
    } else if seq![0x3cu8, 0x00, 0x3f, 0x00].is_prefix_of(bytes) {
        Lead::Utf16LeProlog
    } else {
        Lead::Unknown
    }
}

/// The encoding that a lead stands for; none means UTF-8 until the
/// declaration says otherwise.
pub open spec fn lead_encoding(lead: Lead) -> Option<Seq<char>> {
    match lead {
        Lead::Utf16BeMark | Lead::Utf16BeProlog => Some(utf_16be()),
        Lead::Utf16LeMark | Lead::Utf16LeProlog => Some(utf_16le()),
        Lead::Prolog | Lead::Utf8Mark | Lead::Unknown => None,
    }
}

/// The number of bytes of a lead that are a byte-order mark, to be skipped.
pub open spec fn lead_mark_len(lead: Lead) -> nat {
    match lead {
        Lead::Utf16BeMark | Lead::Utf16LeMark => 2,
        Lead::Utf8Mark => 3,
        Lead::Prolog | Lead::Utf16BeProlog | Lead::Utf16LeProlog | Lead::Unknown => 0,
    }
}

/// The encoding sniffed from the first bytes of a stream.
pub open spec fn sniffed_encoding(bytes: Seq<u8>) -> Option<Seq<char>> {
    lead_encoding(lead_of(bytes))
}

/// The length of the byte-order mark that the stream starts with.
pub open spec fn mark_len(bytes: Seq<u8>) -> nat {
    lead_mark_len(lead_of(bytes))
}

/// Classifies the first bytes of a stream.
pub fn sniff_lead(bytes: &[u8]) -> (lead: Lead)
    ensures
        lead == lead_of(bytes@),
{
    let n = bytes.len();
    if n >= 2 && bytes[0] == 0x3c && bytes[1] == 0x3f {
        Lead::Prolog
    } else if n >= 2 && bytes[0] == 0xfe && bytes[1] == 0xff {
        Lead::Utf16BeMark
    } else if n >= 2 && bytes[0] == 0xff && bytes[1] == 0xfe {
        Lead::Utf16LeMark
    } else if n >= 3 && bytes[0] == 0xef && bytes[1] == 0xbb && bytes[2] == 0xbf {
        Lead::Utf8Mark
    } else if n >= 4 && bytes[0] == 0x00 && bytes[1] == 0x3c && bytes[2] == 0x00 && bytes[3]
        == 0x3f {
        Lead::Utf16BeProlog
    } else if n >= 4 && bytes[0] == 0x3c && bytes[1] == 0x00 && bytes[2] == 0x3f && bytes[3]
        == 0x00 {
        Lead::Utf16LeProlog
    } else {
        proof {
            lemma_lead_by_bytes(bytes@);
        }
        Lead::Unknown
    }
}

/// What it means, byte by byte, that a stream starts with one of the leads.
pub proof fn lemma_lead_by_bytes(bytes: Seq<u8>)
    ensures
        seq![0x3cu8, 0x3f].is_prefix_of(bytes) <==> bytes.len() >= 2 && bytes[0] == 0x3c
            && bytes[1] == 0x3f,
        seq![0xfeu8, 0xff].is_prefix_of(bytes) <==> bytes.len() >= 2 && bytes[0] == 0xfe
            && bytes[1] == 0xff,
        seq![0xffu8, 0xfe].is_prefix_of(bytes) <==> bytes.len() >= 2 && bytes[0] == 0xff
            && bytes[1] == 0xfe,
        seq![0xefu8, 0xbb, 0xbf].is_prefix_of(bytes) <==> bytes.len() >= 3 && bytes[0] == 0xef
            && bytes[1] == 0xbb && bytes[2] == 0xbf,
        seq![0x00u8, 0x3c, 0x00, 0x3f].is_prefix_of(bytes) <==> bytes.len() >= 4 && bytes[0]
            == 0x00 && bytes[1] == 0x3c && bytes[2] == 0x00 && bytes[3] == 0x3f,
        seq![0x3cu8, 0x00, 0x3f, 0x00].is_prefix_of(bytes) <==> bytes.len() >= 4 && bytes[0]
            == 0x3c && bytes[1] == 0x00 && bytes[2] == 0x3f && bytes[3] == 0x00,
{
    lemma_prefix2(bytes, 0x3c, 0x3f);
    lemma_prefix2(bytes, 0xfe, 0xff);
    lemma_prefix2(bytes, 0xff, 0xfe);
    let p3 = seq![0xefu8, 0xbb, 0xbf];
    if bytes.len() >= 3 {
        assert(p3.is_prefix_of(bytes) <==> bytes.subrange(0, 3) =~= p3);
        if p3.is_prefix_of(bytes) {
            assert(bytes.subrange(0, 3)[0] == p3[0]);
            assert(bytes.subrange(0, 3)[1] == p3[1]);
            assert(bytes.subrange(0, 3)[2] == p3[2]);
        }
    }
    lemma_prefix4(bytes, 0x00, 0x3c, 0x00, 0x3f);
    lemma_prefix4(bytes, 0x3c, 0x00, 0x3f, 0x00);
}

proof fn lemma_prefix2(bytes: Seq<u8>, a: u8, b: u8)
    ensures
        seq![a, b].is_prefix_of(bytes) <==> bytes.len() >= 2 && bytes[0] == a && bytes[1] == b,
{
    let p = seq![a, b];
    if bytes.len() >= 2 {
        assert(p.is_prefix_of(bytes) <==> bytes.subrange(0, 2) =~= p);
        if p.is_prefix_of(bytes) {
            assert(bytes.subrange(0, 2)[0] == p[0]);
            assert(bytes.subrange(0, 2)[1] == p[1]);
        }
    }
}

proof fn lemma_prefix4(bytes: Seq<u8>, a: u8, b: u8, c: u8, d: u8)
    ensures
        seq![a, b, c, d].is_prefix_of(bytes) <==> bytes.len() >= 4 && bytes[0] == a && bytes[1]
            == b && bytes[2] == c && bytes[3] == d,
{
    let p = seq![a, b, c, d];
    if bytes.len() >= 4 {
        assert(p.is_prefix_of(bytes) <==> bytes.subrange(0, 4) =~= p);
        if p.is_prefix_of(bytes) {
            assert(bytes.subrange(0, 4)[0] == p[0]);
            assert(bytes.subrange(0, 4)[1] == p[1]);
            assert(bytes.subrange(0, 4)[2] == p[2]);
            assert(bytes.subrange(0, 4)[3] == p[3]);
        }
    }
}

/// The encoding that a lead stands for.
pub fn encoding_of_lead(lead: &Lead) -> (encoding: Option<Charset>)
    ensures
        charset_view(encoding) == lead_encoding(*lead),
{
    match lead {
        Lead::Utf16BeMark | Lead::Utf16BeProlog => Some(Charset::utf16be()),
        Lead::Utf16LeMark | Lead::Utf16LeProlog => Some(Charset::utf16le()),
        Lead::Prolog | Lead::Utf8Mark | Lead::Unknown => None,
    }
}

/// The number of bytes of a lead that are a byte-order mark.
pub fn mark_len_of_lead(lead: &Lead) -> (len: usize)
    ensures
        len == lead_mark_len(*lead),
{
    match lead {
        Lead::Utf16BeMark | Lead::Utf16LeMark => 2,
        Lead::Utf8Mark => 3,
        Lead::Prolog | Lead::Utf16BeProlog | Lead::Utf16LeProlog | Lead::Unknown => 0,
    }
}

/// A byte-order mark is only counted where the stream holds all of it.
pub proof fn lemma_mark_within_stream(bytes: Seq<u8>)
    ensures
        mark_len(bytes) <= bytes.len(),
{
    lemma_lead_by_bytes(bytes);
}

/// The first four bytes of a stream, or all of a shorter one, tell its lead:
/// what is sniffed from them is what is sniffed from the stream, and what
/// is left of them behind the byte-order mark is the start of what is left
/// of the stream.
pub proof fn lemma_lead_of_start(start: Seq<u8>, stream: Seq<u8>)
    requires
        start.is_prefix_of(stream),
        start.len() >= 4 || start == stream,
    ensures
        lead_of(start) == lead_of(stream),
        sniffed_encoding(start) == sniffed_encoding(stream),
        mark_len(start) == mark_len(stream),
        start.skip(mark_len(start) as int).is_prefix_of(stream.skip(mark_len(stream) as int)),
{
    lemma_lead_by_bytes(start);
    lemma_lead_by_bytes(stream);
    assert(start.skip(mark_len(start) as int) =~= stream.skip(mark_len(stream) as int).subrange(
        0,
        start.len() - mark_len(start),
    ));
    if start.len() >= 4 {
        assert(stream[0] == start[0]);
        assert(stream[1] == start[1]);
        assert(stream[2] == start[2]);
        assert(stream[3] == start[3]);
    }
}

/// A stream that starts with the byte-order mark of UTF-8 before `<?` is
/// read as the stream without the mark: the same encoding is sniffed, and
/// the same bytes are left once the mark is skipped.
pub proof fn lemma_utf8_mark_is_skipped(rest: Seq<u8>)
    requires
        seq![0x3cu8, 0x3f].is_prefix_of(rest),
    ensures
        sniffed_encoding(seq![0xefu8, 0xbb, 0xbf] + rest) == sniffed_encoding(rest),
        (seq![0xefu8, 0xbb, 0xbf] + rest).skip(mark_len(seq![0xefu8, 0xbb, 0xbf] + rest) as int)
            == rest.skip(mark_len(rest) as int),
{
    let marked = seq![0xefu8, 0xbb, 0xbf] + rest;
    lemma_lead_by_bytes(marked);
    lemma_lead_by_bytes(rest);
    assert(marked[0] == 0xef && marked[1] == 0xbb && marked[2] == 0xbf);
    assert(marked.skip(3) =~= rest);
    assert(rest.skip(0) =~= rest);
}

/// A stream that starts with the byte-order mark of UTF-8 is read as UTF-8,
/// and the three bytes of the mark are skipped.
pub proof fn lemma_utf8_mark_is_detected(bytes: Seq<u8>)
    requires
        seq![0xefu8, 0xbb, 0xbf].is_prefix_of(bytes),
    ensures
        sniffed_encoding(bytes) is None,
        mark_len(bytes) == 3,
{
    lemma_lead_by_bytes(bytes);
}

/// A stream that starts with the byte-order mark of big-endian UTF-16 is
/// found to be big-endian UTF-16, and the two bytes of the mark are
/// skipped.
pub proof fn lemma_utf16be_mark_is_detected(bytes: Seq<u8>)
    requires
        seq![0xfeu8, 0xff].is_prefix_of(bytes),
    ensures
        sniffed_encoding(bytes) == Some(utf_16be()),
        mark_len(bytes) == 2,
{
    lemma_lead_by_bytes(bytes);
}

/// A stream that starts with the byte-order mark of little-endian UTF-16 is
/// found to be little-endian UTF-16, and the two bytes of the mark are
/// skipped.
pub proof fn lemma_utf16le_mark_is_detected(bytes: Seq<u8>)
    requires
        seq![0xffu8, 0xfe].is_prefix_of(bytes),
    ensures
        sniffed_encoding(bytes) == Some(utf_16le()),
        mark_len(bytes) == 2,
{
    lemma_lead_by_bytes(bytes);
}

/// A stream that starts with `<?` in big-endian UTF-16 is found to be
/// big-endian UTF-16 although it has no byte-order mark, and none of its
/// bytes is skipped.
pub proof fn lemma_utf16be_prolog_is_detected(bytes: Seq<u8>)
    requires
        seq![0x00u8, 0x3c, 0x00, 0x3f].is_prefix_of(bytes),
    ensures
        sniffed_encoding(bytes) == Some(utf_16be()),
        mark_len(bytes) == 0,
{
    lemma_lead_by_bytes(bytes);
}

/// A stream that starts with `<?` in little-endian UTF-16 is found to be
/// little-endian UTF-16 although it has no byte-order mark, and none of
/// its bytes is skipped.
pub proof fn lemma_utf16le_prolog_is_detected(bytes: Seq<u8>)
    requires
        seq![0x3cu8, 0x00, 0x3f, 0x00].is_prefix_of(bytes),
    ensures
        sniffed_encoding(bytes) == Some(utf_16le()),
        mark_len(bytes) == 0,
{
    lemma_lead_by_bytes(bytes);
}

} // verus!
