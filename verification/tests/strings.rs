//! Text primitives.

use cube_terminal::strings::{
    chars_of, copy_option, decimal, ends_with_char, eq_ignore_ascii_case, parse_i64, parse_u16,
    rsplit_once_char, same_text, split, split_once, strip_prefix, trim, trim_end_char,
};

#[test]
fn trimming_agrees_with_std() {
    for text in ["", " ", "a", "  a b\t", "\u{2003}x\u{3000}", "\u{200b}x", "\r\n", "\u{85}y\u{a0}"] {
        assert_eq!(trim(text), text.trim());
        assert_eq!(trim_end_char(text, 'b'), text.trim_end_matches('b'));
    }
    assert_eq!(trim_end_char("a//", '/'), "a");
    assert_eq!(trim_end_char("///", '/'), "");
}

#[test]
fn splitting_agrees_with_std() {
    for text in ["", ",", "a", "a,b", ",a,,é,", "日,本"] {
        let pieces: Vec<&str> = text.split(',').collect();
        assert_eq!(split(text, ','), pieces);
        assert_eq!(rsplit_once_char(text, ','), text.rsplit_once(','));
        assert_eq!(split_once(text, ","), text.split_once(","));
    }
    assert_eq!(split_once("a:::b", "::"), Some(("a", ":b")));
    assert_eq!(split_once("a:", "::"), None);
}

#[test]
fn prefixes_and_suffixes() {
    assert_eq!(strip_prefix("cube.x", "cube."), Some("x"));
    assert_eq!(strip_prefix("cube", "cube"), Some(""));
    assert_eq!(strip_prefix("cub", "cube"), None);
    assert_eq!(strip_prefix("é!", "é"), Some("!"));
    assert!(ends_with_char("[::1]", ']'));
    assert!(!ends_with_char("", ']'));
}

#[test]
fn case_is_ignored_in_ascii_only() {
    assert!(eq_ignore_ascii_case("Example.COM", "example.com"));
    assert!(!eq_ignore_ascii_case("É", "é"));
    assert!(!eq_ignore_ascii_case("a", "ab"));
    assert!(!eq_ignore_ascii_case("@", "`"));
    assert!(same_text("a", "a"));
    assert!(!same_text("a", "A"));
}

#[test]
fn numbers_read_and_write() {
    for n in [0, 7, 10, 49983, u64::MAX] {
        assert_eq!(decimal(n), n.to_string());
    }
    for text in ["", "+", "-", "0", "+7", "-7", "007", "65535", "65536", "1 ", "٣", "1_0"] {
        assert_eq!(parse_u16(text), text.parse::<u16>().ok());
        assert_eq!(parse_i64(text), text.parse::<i64>().ok());
    }
    for text in ["99999999999999999999", "-99999999999999999999", "9223372036854775808"] {
        assert_eq!(parse_i64(text), None);
    }
    assert_eq!(parse_i64("-9223372036854775808"), Some(i64::MIN));
}

#[test]
fn copies_hold_the_same_text() {
    assert_eq!(chars_of("aé"), vec!['a', 'é']);
    assert_eq!(copy_option(&Some("x".to_string())), Some("x".to_string()));
    assert_eq!(copy_option(&None), None);
}
