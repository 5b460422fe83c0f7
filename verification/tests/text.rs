use pinocchio_util::text::{parse_length, text_is};

#[test]
fn text_is_compares_characters() {
    assert!(text_is("len", "len"));
    assert!(!text_is("len", "id"));
    assert!(!text_is("len", "len "));
    assert!(!text_is("Len", "len"));
    assert!(text_is("", ""));
    assert!(text_is("\u{e9}", "\u{e9}"));
    assert!(!text_is("e\u{301}", "\u{e9}"));
}

#[test]
fn a_length_is_read_in_base_ten() {
    assert_eq!(parse_length("0"), Some(0));
    assert_eq!(parse_length("7"), Some(7));
    assert_eq!(parse_length("64"), Some(64));
    assert_eq!(parse_length("0064"), Some(64));
    assert_eq!(parse_length("1234567890"), Some(1234567890));
}

#[test]
fn a_length_is_digits_and_nothing_else() {
    assert_eq!(parse_length(""), None);
    assert_eq!(parse_length("+5"), None);
    assert_eq!(parse_length("-5"), None);
    assert_eq!(parse_length("5 "), None);
    assert_eq!(parse_length("0x10"), None);
    assert_eq!(parse_length("1_000"), None);
    assert_eq!(parse_length("12a"), None);
    assert_eq!(parse_length("a12"), None);
    assert_eq!(parse_length("\u{661}"), None);
    assert_eq!(parse_length("/"), None);
    assert_eq!(parse_length(":"), None);
}

#[test]
fn a_length_has_to_fit_an_index() {
    let max = usize::MAX.to_string();
    assert_eq!(parse_length(&max), Some(usize::MAX));
    let mut beyond = max.clone();
    beyond.push('0');
    assert_eq!(parse_length(&beyond), None);
    let next = (usize::MAX as u128 + 1).to_string();
    assert_eq!(parse_length(&next), None);
    assert_eq!(parse_length("99999999999999999999999999999999999999999"), None);
    assert_eq!(parse_length("99999999999999999999999999999999999999999x"), None);
}
