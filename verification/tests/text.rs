use capdrop::text::{decimal_text, replace_text, split, strip_leading_char, trim};

#[test]
fn trim_removes_unicode_white_space() {
    assert_eq!(trim(" \t a b \u{3000}\n"), "a b");
    assert_eq!(trim("   "), "");
    assert_eq!(trim("x"), "x");
}

#[test]
fn split_keeps_empty_pieces() {
    assert_eq!(split("a+b", '+'), vec!["a".to_string(), "b".to_string()]);
    assert_eq!(split("", '+'), vec!["".to_string()]);
    assert_eq!(split("+a+", '+'), vec!["".to_string(), "a".to_string(), "".to_string()]);
}

#[test]
fn replace_matches_std() {
    for (s, p, r) in [("aaaa", "aa", "b"), ("x{ms}y{ms}", "{ms}", "123"), ("abc", "zz", "q"), ("a", "abc", "q")] {
        assert_eq!(replace_text(s, p, r), s.replace(p, r));
    }
}

#[test]
fn strip_leading() {
    assert_eq!(strip_leading_char("~~/x", '~'), "/x");
    assert_eq!(strip_leading_char("///", '/'), "");
    assert_eq!(strip_leading_char("a~", '~'), "a~");
}

#[test]
fn decimals() {
    for n in [0u32, 7, 10, 305, 4294967295] {
        assert_eq!(decimal_text(n), n.to_string());
    }
}
