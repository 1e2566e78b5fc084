use geotz::tokenizer::{copy_range, tokenize, FieldTokenizer, TokenError};

fn fields(line: &[u8]) -> Vec<Vec<u8>> {
    tokenize(line).expect("the line splits")
}

#[test]
fn plain_fields_split_at_commas() {
    assert_eq!(fields(b"a,b,c"), vec![b"a".to_vec(), b"b".to_vec(), b"c".to_vec()]);
}

#[test]
fn quoted_field_keeps_embedded_comma() {
    assert_eq!(fields(b"\"a,b\",c"), vec![b"a,b".to_vec(), b"c".to_vec()]);
}

#[test]
fn empty_line_has_no_fields() {
    assert_eq!(fields(b""), Vec::<Vec<u8>>::new());
}

#[test]
fn trailing_comma_yields_no_extra_field() {
    assert_eq!(fields(b"a,b,"), vec![b"a".to_vec(), b"b".to_vec()]);
}

#[test]
fn empty_fields_in_the_middle_are_kept() {
    assert_eq!(fields(b"a,,b"), vec![b"a".to_vec(), b"".to_vec(), b"b".to_vec()]);
    assert_eq!(fields(b",a"), vec![b"".to_vec(), b"a".to_vec()]);
}

#[test]
fn embedded_quotes_are_not_unescaped() {
    assert_eq!(fields(b"\"a\"\"b\",c"), vec![b"a\"\"b".to_vec(), b"c".to_vec()]);
    assert_eq!(fields(b"x,\"\",y"), vec![b"x".to_vec(), b"".to_vec(), b"y".to_vec()]);
}

#[test]
fn quote_inside_plain_field_is_ordinary() {
    assert_eq!(fields(b"a\"b,c"), vec![b"a\"b".to_vec(), b"c".to_vec()]);
}

#[test]
fn quoted_last_field_without_comma_is_an_error() {
    assert_eq!(tokenize(b"a,\"b\""), Err(TokenError::UnterminatedQuote));
    assert_eq!(tokenize(b"\"abc"), Err(TokenError::UnterminatedQuote));
    assert_eq!(tokenize(b"\""), Err(TokenError::UnterminatedQuote));
    assert_eq!(tokenize(b"\",x"), Err(TokenError::UnterminatedQuote));
}

#[test]
fn quoted_last_field_with_comma_is_read() {
    assert_eq!(fields(b"a,\"b,c\","), vec![b"a".to_vec(), b"b,c".to_vec()]);
}

#[test]
fn malformed_utf8_is_an_error() {
    assert_eq!(tokenize(&[b'a', b',', 0xff, b',', b'b']), Err(TokenError::InvalidUtf8));
    assert_eq!(tokenize(&[0xc3]), Err(TokenError::InvalidUtf8));
}

#[test]
fn multibyte_text_passes_through() {
    let line = "Zürich,東京".as_bytes();
    assert_eq!(fields(line), vec!["Zürich".as_bytes().to_vec(), "東京".as_bytes().to_vec()]);
}

#[test]
fn cursor_hands_out_fields_one_by_one() {
    let mut t = FieldTokenizer::new(b"x,\"y,z\",w").ok().expect("text");
    assert_eq!(t.next_field(), Ok(Some(b"x".to_vec())));
    assert_eq!(t.next_field(), Ok(Some(b"y,z".to_vec())));
    assert_eq!(t.next_field(), Ok(Some(b"w".to_vec())));
    assert_eq!(t.next_field(), Ok(None));
    assert_eq!(t.next_field(), Ok(None));
}

#[test]
fn cursor_stays_put_on_error() {
    let mut t = FieldTokenizer::new(b"x,\"y").ok().expect("text");
    assert_eq!(t.next_field(), Ok(Some(b"x".to_vec())));
    assert_eq!(t.next_field(), Err(TokenError::UnterminatedQuote));
    assert_eq!(t.next_field(), Err(TokenError::UnterminatedQuote));
}

#[test]
fn cursor_refuses_malformed_utf8() {
    assert_eq!(FieldTokenizer::new(&[b'a', 0x80]).err(), Some(TokenError::InvalidUtf8));
}

#[test]
fn each_call_starts_afresh() {
    assert_eq!(fields(b"a,b"), fields(b"a,b"));
}

#[test]
fn copy_range_takes_the_bytes_between() {
    assert_eq!(copy_range(b"hello", 1, 4), b"ell".to_vec());
    assert_eq!(copy_range(b"hello", 2, 2), Vec::<u8>::new());
    assert_eq!(copy_range(b"hello", 0, 5), b"hello".to_vec());
}
