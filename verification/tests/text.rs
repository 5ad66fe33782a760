use yellowstone_grpc_geyser::text::{
    chars_of, parse_unsigned, push_decimal, push_zero_padded, remove_char, split_chars,
    split_once_chars, string_of, IntError,
};

fn decimal_of(n: u64) -> String {
    let mut out = String::new();
    push_decimal(&mut out, n);
    out
}

fn padded_of(n: u64, width: usize) -> String {
    let mut out = String::from("<");
    push_zero_padded(&mut out, n, width);
    out
}

fn pieces_of(text: &str, sep: char) -> Vec<String> {
    split_chars(&chars_of(text), sep).iter().map(string_of).collect()
}

#[test]
fn decimal_notation_reads_back() {
    for n in [0, 7, 10, 99, 100, 12_345, u64::MAX] {
        assert_eq!(decimal_of(n), n.to_string());
        assert_eq!(parse_unsigned(&chars_of(&decimal_of(n)), u64::MAX), Ok(n));
    }
}

#[test]
fn numbers_are_bounded() {
    assert_eq!(parse_unsigned(&chars_of("255"), 255), Ok(255));
    assert_eq!(parse_unsigned(&chars_of("256"), 255), Err(IntError::PosOverflow));
    assert_eq!(parse_unsigned(&chars_of("256x"), 255), Err(IntError::PosOverflow));
    assert_eq!(parse_unsigned(&chars_of("25x"), 255), Err(IntError::InvalidDigit));
}

#[test]
fn padding_fills_up_with_zeros() {
    assert_eq!(padded_of(7, 2), "<07");
    assert_eq!(padded_of(42, 6), "<000042");
    assert_eq!(padded_of(1_234, 2), "<1234");
    assert_eq!(padded_of(0, 0), "<0");
}

#[test]
fn pieces_join_to_the_text() {
    for text in ["", ",", "a", "a,b", ",a,,b,", "a,b,c"] {
        let pieces = pieces_of(text, ',');
        assert_eq!(pieces.join(","), text);
        assert_eq!(pieces, text.split(',').map(str::to_owned).collect::<Vec<String>>());
    }
}

#[test]
fn the_first_separator_splits_once() {
    let (before, behind) = split_once_chars(&chars_of("1-2-3"), '-').unwrap();
    assert_eq!((string_of(&before).as_str(), string_of(&behind).as_str()), ("1", "2-3"));
    assert!(split_once_chars(&chars_of("123"), '-').is_none());
}

#[test]
fn a_character_is_removed_everywhere() {
    assert_eq!(string_of(&remove_char(&chars_of("_1__000_"), '_')), "1000");
    assert_eq!(string_of(&remove_char(&chars_of("\u{e9}_\u{1f600}"), '_')), "\u{e9}\u{1f600}");
}
