use warehouse::opt_str;
use warehouse::text::{first_word_of, is_whitespace, push_decimal, string_of, to_chars, trim, trim_end_char};

#[test]
fn opt_str_maps_empty_to_none() {
    assert_eq!(opt_str(""), None);
    assert_eq!(opt_str("x"), Some("x".to_string()));
    assert_eq!(opt_str(" "), Some(" ".to_string()));
}

#[test]
fn decimal_text_of_integers() {
    let mut s = String::from("n=");
    push_decimal(&mut s, 0);
    assert_eq!(s, "n=0");
    let mut s = String::new();
    push_decimal(&mut s, 1234567);
    assert_eq!(s, "1234567");
    let mut s = String::new();
    push_decimal(&mut s, -45);
    assert_eq!(s, "-45");
    let mut s = String::new();
    push_decimal(&mut s, i64::MIN);
    assert_eq!(s, i64::MIN.to_string());
    let mut s = String::new();
    push_decimal(&mut s, i64::MAX);
    assert_eq!(s, i64::MAX.to_string());
}

#[test]
fn trim_matches_std() {
    for s in ["", "  ", " a b ", "\u{3000}x\u{a0}", "\t\n y \r", "z"] {
        assert_eq!(trim(s), s.trim());
    }
}

#[test]
fn whitespace_matches_std() {
    for c in ['\t', '\n', '\u{b}', '\u{c}', '\r', ' ', '\u{85}', '\u{a0}', '\u{1680}', '\u{2000}',
        '\u{200a}', '\u{200b}', '\u{2028}', '\u{2029}', '\u{202f}', '\u{205f}', '\u{3000}', 'a', '\u{feff}'] {
        assert_eq!(is_whitespace(c), c.is_whitespace(), "{:?}", c);
    }
}

#[test]
fn first_word_is_the_first_whitespace_separated_word() {
    assert_eq!(first_word_of("12.50 RON"), "12.50");
    assert_eq!(first_word_of("   7 RON"), "7");
    assert_eq!(first_word_of("   "), "");
    assert_eq!(first_word_of(""), "");
    assert_eq!(first_word_of("single"), "single");
}

#[test]
fn trailing_characters_are_stripped() {
    assert_eq!(trim_end_char("http://h///", '/'), "http://h");
    assert_eq!(trim_end_char("///", '/'), "");
    assert_eq!(trim_end_char("a/b", '/'), "a/b");
}

#[test]
fn characters_round_trip() {
    let cs = to_chars("ăîș ok");
    assert_eq!(cs.len(), 6);
    assert_eq!(string_of(&cs, 0, cs.len()), "ăîș ok");
    assert_eq!(string_of(&cs, 1, 3), "îș");
}
