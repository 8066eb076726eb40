use knx_home::text::{chars_of, find_chars, str_eq, string_from, trim_chars, white_space};
use knx_home::youless::{last_field, lines_of, power_reading};

#[test]
fn string_equality() {
    assert!(str_eq("abc", "abc"));
    assert!(!str_eq("abc", "abd"));
    assert!(!str_eq("abc", "ab"));
    assert!(str_eq("", ""));
    assert!(str_eq("äöü", "äöü"));
}

#[test]
fn searching() {
    let s = chars_of("a/actor/b/c");
    assert_eq!(find_chars(&s, &chars_of("/")), Some(1));
    assert_eq!(find_chars(&s, &chars_of("/actor/")), Some(1));
    assert_eq!(find_chars(&s, &chars_of("b/c")), Some(8));
    assert_eq!(find_chars(&s, &chars_of("x")), None);
    assert_eq!(find_chars(&s, &chars_of("")), Some(0));
    assert_eq!(find_chars(&chars_of("ab"), &chars_of("abc")), None);
}

#[test]
fn trimming() {
    assert_eq!(trim_chars(&chars_of("  a b \t\n")), "a b");
    assert_eq!(trim_chars(&chars_of("\u{3000}x\u{a0}")), "x");
    assert_eq!(trim_chars(&chars_of("   ")), "");
    assert_eq!(trim_chars(&chars_of("")), "");
    for c in ['\t', '\n', '\u{b}', '\u{c}', '\r', ' ', '\u{85}', '\u{a0}', '\u{1680}', '\u{2000}', '\u{200a}', '\u{2028}', '\u{2029}', '\u{202f}', '\u{205f}', '\u{3000}'] {
        assert!(white_space(c));
        assert_eq!(white_space(c), c.is_whitespace());
    }
    for c in ['a', '\u{200b}', '\u{1f}', '0', '\u{feff}'] {
        assert_eq!(white_space(c), c.is_whitespace());
    }
    let s: String = string_from(&['h', 'i']);
    assert_eq!(s, "hi");
}

#[test]
fn lines_like_std() {
    for text in ["", "a", "a\n", "a\nb", "a\r\nb\r\n", "a\r", "\n\n", "x\r\r\n y", "one\ntwo\nthree\n"] {
        let expected: Vec<String> = text.lines().map(|l| l.to_string()).collect();
        assert_eq!(lines_of(text), expected, "{:?}", text);
    }
}

#[test]
fn last_fields() {
    assert_eq!(last_field("12:00 1234 567 "), Some("567".to_string()));
    assert_eq!(last_field("single"), Some("single".to_string()));
    assert_eq!(last_field(" \t "), None);
    assert_eq!(last_field(""), None);
    for text in ["a b", " a  b  ", "x\u{3000}y"] {
        assert_eq!(last_field(text), text.split_whitespace().last().map(|w| w.to_string()));
    }
}

#[test]
fn power_readings() {
    let page = "header\n2024-01-01 10:00 415\n2024-01-01 10:01 420\n";
    assert_eq!(
        power_reading(page),
        Some(("2024-01-01 10:00 415".to_string(), Some("415".to_string())))
    );
    assert_eq!(power_reading("only one line\n"), None);
    assert_eq!(power_reading("\n\nlast"), Some(("".to_string(), None)));
}
