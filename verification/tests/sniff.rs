use xml_doc::sniff::{encoding_of_lead, mark_len_of_lead, sniff_lead, Lead};

fn sniff(bytes: &[u8]) -> (Option<String>, usize) {
    let lead = sniff_lead(bytes);
    (
        encoding_of_lead(&lead).map(|c| c.name().to_string()),
        mark_len_of_lead(&lead),
    )
}

#[test]
fn prolog_in_ascii_is_utf8_without_mark() {
    assert!(matches!(sniff_lead(b"<?xml"), Lead::Prolog));
    assert_eq!(sniff(b"<?xml version=\"1.0\"?>"), (None, 0));
}

#[test]
fn utf16_big_endian_mark() {
    assert_eq!(
        sniff(&[0xfe, 0xff, 0x00, 0x3c]),
        (Some("UTF-16BE".to_string()), 2)
    );
}

#[test]
fn utf16_little_endian_mark() {
    assert_eq!(
        sniff(&[0xff, 0xfe, 0x3c, 0x00]),
        (Some("UTF-16LE".to_string()), 2)
    );
}

#[test]
fn utf8_mark() {
    assert_eq!(sniff(&[0xef, 0xbb, 0xbf, 0x3c, 0x3f]), (None, 3));
}

#[test]
fn utf16_big_endian_without_mark() {
    assert_eq!(
        sniff(&[0x00, 0x3c, 0x00, 0x3f, 0x00, 0x78]),
        (Some("UTF-16BE".to_string()), 0)
    );
}

#[test]
fn utf16_little_endian_without_mark() {
    assert_eq!(
        sniff(&[0x3c, 0x00, 0x3f, 0x00, 0x78, 0x00]),
        (Some("UTF-16LE".to_string()), 0)
    );
}

#[test]
fn anything_else_is_tried_as_utf8() {
    assert_eq!(sniff(b"<a/>"), (None, 0));
    assert_eq!(sniff(b""), (None, 0));
    assert_eq!(sniff(&[0xfe]), (None, 0));
    assert_eq!(sniff(&[0xef, 0xbb]), (None, 0));
    assert_eq!(sniff(&[0x00, 0x3c, 0x00]), (None, 0));
    assert!(matches!(sniff_lead(&[0x3c, 0x00, 0x3f]), Lead::Unknown));
}

#[test]
fn stream_with_utf8_mark_reads_as_stream_without() {
    let plain = b"<?xml version=\"1.0\"?><a/>".to_vec();
    let mut marked = vec![0xef, 0xbb, 0xbf];
    marked.extend_from_slice(&plain);
    let (encoding_marked, skip_marked) = sniff(&marked);
    let (encoding_plain, skip_plain) = sniff(&plain);
    assert_eq!(encoding_marked, encoding_plain);
    assert_eq!(&marked[skip_marked..], &plain[skip_plain..]);
}
