use xml_doc::normalize_space;

#[test]
fn collapses_inner_runs_and_trims_both_ends() {
    assert_eq!(normalize_space(b"  a   b\t\nc  "), b"a b c".to_vec());
}

#[test]
fn only_white_space_gives_nothing() {
    assert_eq!(normalize_space(b"   "), Vec::<u8>::new());
    assert_eq!(normalize_space(b"\r\n\t "), Vec::<u8>::new());
}

#[test]
fn empty_value_stays_empty() {
    assert_eq!(normalize_space(b""), Vec::<u8>::new());
}

#[test]
fn value_without_white_space_is_unchanged() {
    assert_eq!(normalize_space(b"abc"), b"abc".to_vec());
    assert_eq!(normalize_space(b"a b"), b"a b".to_vec());
}

#[test]
fn each_white_space_byte_becomes_a_space() {
    assert_eq!(normalize_space(b"a\rb"), b"a b".to_vec());
    assert_eq!(normalize_space(b"a\nb"), b"a b".to_vec());
    assert_eq!(normalize_space(b"a\tb"), b"a b".to_vec());
}

#[test]
fn other_bytes_are_kept() {
    assert_eq!(
        normalize_space(b" \x0b\x0c\xc3\xa9 \x00 "),
        b"\x0b\x0c\xc3\xa9 \x00".to_vec()
    );
}

#[test]
fn single_trailing_and_leading_space() {
    assert_eq!(normalize_space(b" a"), b"a".to_vec());
    assert_eq!(normalize_space(b"a "), b"a".to_vec());
    assert_eq!(normalize_space(b"a \t\r\n"), b"a".to_vec());
}

#[test]
fn normalizing_twice_changes_nothing() {
    let inputs: Vec<&[u8]> = vec![
        b"",
        b" ",
        b"a",
        b"  a   b\t\nc  ",
        b"\t\tx\r\ny z \n",
        b"one two  three   four",
    ];
    for input in inputs {
        let once = normalize_space(input);
        let twice = normalize_space(&once);
        assert_eq!(once, twice);
    }
}

#[test]
fn text_is_kept_in_its_order() {
    let inputs: Vec<&[u8]> = vec![b"  a   b\t\nc  ", b"x\ry\nz", b" \t ", b"no-space"];
    for input in inputs {
        let text = |bytes: &[u8]| -> Vec<u8> {
            bytes
                .iter()
                .copied()
                .filter(|b| !matches!(b, b' ' | b'\t' | b'\n' | b'\r'))
                .collect()
        };
        assert_eq!(text(&normalize_space(input)), text(input));
    }
}

#[test]
fn result_is_in_normal_form() {
    let inputs: Vec<&[u8]> = vec![b"  a   b\t\nc  ", b"x\ry\nz ", b" \t ", b"a b", b""];
    for input in inputs {
        let out = normalize_space(input);
        assert!(!out.contains(&b'\t') && !out.contains(&b'\n') && !out.contains(&b'\r'));
        assert!(out.first() != Some(&b' '));
        assert!(out.last() != Some(&b' '));
        assert!(!out.windows(2).any(|w| w == b"  "));
    }
}
