use pal::jsonl::{decode_records, encode_record, is_white_space_char};

#[test]
fn decode_trims_lines_and_skips_blank_ones() {
    let text = "{\"a\":1}\n\n   \n  {\"b\":2} \r\n{\"c\":3}";
    assert_eq!(
        decode_records(text),
        vec!["{\"a\":1}".to_string(), "{\"b\":2}".to_string(), "{\"c\":3}".to_string()]
    );
}

#[test]
fn decode_of_empty_or_blank_text_is_empty() {
    assert!(decode_records("").is_empty());
    assert!(decode_records("\n \t\r\n\u{3000}\n").is_empty());
}

#[test]
fn decode_trims_unicode_white_space() {
    assert_eq!(decode_records("\u{a0}x y\u{2028}\n"), vec!["x y".to_string()]);
}

#[test]
fn encoded_records_read_back_in_order() {
    let mut text = String::new();
    text.push_str(&encode_record("{\"n\":1}"));
    text.push_str(&encode_record("{\"n\":2}"));
    assert_eq!(text, "{\"n\":1}\n{\"n\":2}\n");
    assert_eq!(
        decode_records(&text),
        vec!["{\"n\":1}".to_string(), "{\"n\":2}".to_string()]
    );
}

#[test]
fn white_space_is_unicode_white_space() {
    for c in [' ', '\t', '\n', '\r', '\u{b}', '\u{c}', '\u{85}', '\u{a0}', '\u{1680}', '\u{2000}',
        '\u{200a}', '\u{2028}', '\u{2029}', '\u{202f}', '\u{205f}', '\u{3000}']
    {
        assert!(is_white_space_char(c), "{:?}", c);
        assert_eq!(is_white_space_char(c), c.is_whitespace());
    }
    for c in ['a', '{', '\u{200b}', '\u{feff}', '0'] {
        assert!(!is_white_space_char(c), "{:?}", c);
        assert_eq!(is_white_space_char(c), c.is_whitespace());
    }
}
