use rusty_thermostat::text::{
    copy_range, hex_encode, matches_ignoring_case, same_bytes, split_fields, trimmed_len,
};

#[test]
fn trimming_leaves_out_white_space_at_the_end_only() {
    assert_eq!(trimmed_len(b""), 0);
    assert_eq!(trimmed_len(b"abc"), 3);
    assert_eq!(trimmed_len(b"abc\n"), 3);
    assert_eq!(trimmed_len(b"abc \t\r\n\x0b\x0c"), 3);
    assert_eq!(trimmed_len(b" abc"), 4);
    assert_eq!(trimmed_len(b"a b\n"), 3);
    assert_eq!(trimmed_len(b" \n "), 0);
    assert_eq!(trimmed_len(b"abc\x00"), 4);
    assert_eq!(trimmed_len(b"abc\xa0"), 4);
}

#[test]
fn splitting_keeps_empty_pieces() {
    assert_eq!(split_fields(b"", b'#'), vec![Vec::<u8>::new()]);
    assert_eq!(split_fields(b"abc", b'#'), vec![b"abc".to_vec()]);
    assert_eq!(split_fields(b"a#b", b'#'), vec![b"a".to_vec(), b"b".to_vec()]);
    assert_eq!(split_fields(b"#", b'#'), vec![Vec::<u8>::new(), Vec::new()]);
    assert_eq!(
        split_fields(b"SET#delay#5###", b'#'),
        vec![b"SET".to_vec(), b"delay".to_vec(), b"5".to_vec(), Vec::new(), Vec::new(), Vec::new()]
    );
    let text = b"a##bc#";
    let ours = split_fields(text, b'#');
    let theirs: Vec<Vec<u8>> = text.split(|b| *b == b'#').map(|p| p.to_vec()).collect();
    assert_eq!(ours, theirs);
}

#[test]
fn comparing_and_copying() {
    assert!(same_bytes(b"", b""));
    assert!(same_bytes(b"abc", b"abc"));
    assert!(!same_bytes(b"abc", b"abd"));
    assert!(!same_bytes(b"abc", b"ab"));
    assert!(matches_ignoring_case(b"TrUe", b"true"));
    assert!(!matches_ignoring_case(b"true", b"TRUE"));
    assert!(!matches_ignoring_case(b"tru", b"true"));
    assert!(!matches_ignoring_case(b"[RUE", b"{rue"));
    assert_eq!(copy_range(b"abcdef", 2, 4), b"cd".to_vec());
    assert_eq!(copy_range(b"abcdef", 3, 3), Vec::<u8>::new());
}

#[test]
fn hexadecimal_text() {
    assert_eq!(hex_encode(&[]), Vec::<u8>::new());
    assert_eq!(hex_encode(&[0x00, 0x0f, 0xa5, 0xff]), b"000fa5ff".to_vec());
}
