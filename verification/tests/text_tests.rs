use model_pipeline::text::{bytes_eq, lines_of, parse_u32, slash_fields_of, tokens_of};

fn toks(line: &[u8]) -> Vec<Vec<u8>> {
    tokens_of(&line.to_vec())
}

#[test]
fn parse_u32_reads_decimal() {
    assert_eq!(parse_u32(&b"0".to_vec()), Some(0));
    assert_eq!(parse_u32(&b"123".to_vec()), Some(123));
    assert_eq!(parse_u32(&b"007".to_vec()), Some(7));
    assert_eq!(parse_u32(&b"4294967295".to_vec()), Some(u32::MAX));
}

#[test]
fn parse_u32_rejects_junk_and_overflow() {
    assert_eq!(parse_u32(&b"".to_vec()), None);
    assert_eq!(parse_u32(&b"12a".to_vec()), None);
    assert_eq!(parse_u32(&b"-3".to_vec()), None);
    assert_eq!(parse_u32(&b"4294967296".to_vec()), None);
    assert_eq!(parse_u32(&b"99999999999999999999".to_vec()), None);
}

#[test]
fn tokens_split_on_blanks() {
    let t = toks(b"v 1.0  2.0\t3.0\r");
    assert_eq!(t, vec![b"v".to_vec(), b"1.0".to_vec(), b"2.0".to_vec(), b"3.0".to_vec()]);
    assert_eq!(toks(b"   \t\r"), Vec::<Vec<u8>>::new());
}

#[test]
fn lines_split_on_line_feeds() {
    let l = lines_of(&b"a\nbb\n\ncc".to_vec());
    assert_eq!(l, vec![b"a".to_vec(), b"bb".to_vec(), b"".to_vec(), b"cc".to_vec()]);
    let trailing = lines_of(&b"a\n".to_vec());
    assert_eq!(trailing, vec![b"a".to_vec()]);
    assert_eq!(lines_of(&b"".to_vec()), Vec::<Vec<u8>>::new());
}

#[test]
fn slash_fields_keep_empties() {
    assert_eq!(
        slash_fields_of(&b"1//3".to_vec()),
        vec![b"1".to_vec(), b"".to_vec(), b"3".to_vec()]
    );
    assert_eq!(slash_fields_of(&b"7".to_vec()), vec![b"7".to_vec()]);
}

#[test]
fn bytes_eq_compares_contents() {
    assert!(bytes_eq(&b"abc".to_vec(), &b"abc".to_vec()));
    assert!(!bytes_eq(&b"abc".to_vec(), &b"abd".to_vec()));
    assert!(!bytes_eq(&b"abc".to_vec(), &b"ab".to_vec()));
}
