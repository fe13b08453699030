use hearth_web::text;
use hearth_web::text::Separator;

fn owned(v: &[&str]) -> Vec<String> {
    v.iter().map(|s| s.to_string()).collect()
}

#[test]
fn trims_as_std_does() {
    for s in ["", " ", " a ", "\t a b \n", "\u{3000}x\u{a0}", "\u{200b}y"] {
        assert_eq!(text::trim(s), s.trim());
    }
    assert_eq!(text::trim_end_char("a//", '/'), "a");
    assert_eq!(text::trim_end_char("//", '/'), "");
    assert_eq!(text::trim_end_char("a/b", '/'), "a/b");
}

#[test]
fn splits_as_std_does() {
    for s in ["", ",", "a,b", ",a,,b,", "ä,ö"] {
        let want: Vec<String> = s.split(',').map(String::from).collect();
        assert_eq!(text::split(s, Separator::Char(',')), want);
    }
    for s in ["", "  ", "a b", " a \n\tb\u{2003}c "] {
        let want: Vec<String> = s.split_whitespace().map(String::from).collect();
        assert_eq!(text::split_whitespace(s), want);
    }
}

#[test]
fn lines_as_std_does() {
    for s in ["", "\n", "a", "a\n", "a\nb", "a\r\nb\r\n", "a\n\nb\n", "a\r", "\r\n", "a\r\r\n"] {
        let want: Vec<String> = s.lines().map(String::from).collect();
        assert_eq!(text::lines(s), want, "{:?}", s);
    }
}

#[test]
fn joined_lines_come_back() {
    let codes = owned(&["users.read", "users.write", "a b"]);
    let joined = text::join(&codes, "\n");
    assert_eq!(joined, "users.read\nusers.write\na b");
    assert_eq!(text::read_lines(joined.as_str()), codes);
    let ended = joined + "\n";
    assert_eq!(text::read_lines(ended.as_str()), codes);
    assert_eq!(text::read_lines("  a \n\n \n b"), owned(&["a", "b"]));
}

#[test]
fn joined_words_come_back() {
    let words = owned(&["openid", "profile", "email"]);
    let joined = text::join(&words, " ");
    assert_eq!(joined, "openid profile email");
    assert_eq!(text::split_whitespace(joined.as_str()), words);
}

#[test]
fn the_first_piece_stands_before_the_separator() {
    assert_eq!(text::split("host:80:1", Separator::Char(':'))[0], "host");
    assert_eq!(text::split("host", Separator::Char(':')), owned(&["host"]));
}

#[test]
fn finds_and_strips() {
    assert!(text::contains("abcabc", "ca"));
    assert!(!text::contains("abc", "cb"));
    assert!(text::contains("abc", ""));
    assert_eq!(text::strip_prefix("realm=x", "realm="), Some("x".to_string()));
    assert_eq!(text::strip_prefix("realm", "realm="), None);
    assert_eq!(text::find(&text::chars_of("a: b: c"), &text::chars_of(": ")), Some(1));
}

#[test]
fn lower_case_as_std_does_for_ascii() {
    assert_eq!(text::to_lower("AbC-9"), "abc-9");
    assert!(text::contains_nocase("Acme Corp", "CORP"));
    assert!(!text::contains_nocase("Acme", "b"));
}

#[test]
fn letters_beyond_ascii_keep_their_case() {
    assert_eq!(text::to_lower("ÄB"), "Äb");
    assert!(!text::contains_nocase("MÜNCHEN", "münchen"));
}

#[test]
fn byte_lengths() {
    assert!(!text::two_bytes_or_more("a"));
    assert!(text::two_bytes_or_more("ä"));
    assert!(text::two_bytes_or_more("ab"));
    assert!(text::longer_than("0123456789abcdef0", 16));
    assert!(!text::longer_than("0123456789abcdef", 16));
    assert_eq!(text::cut_bytes("0123456789", 4), "0123");
}

#[test]
fn order_is_that_of_bytes() {
    let words = ["", "a", "A", "ab", "b", "ä", "z", "\u{10000}", "\u{ffff}"];
    for a in words {
        for b in words {
            assert_eq!(text::le(a, b), a <= b, "{:?} {:?}", a, b);
        }
    }
}

#[test]
fn decimals() {
    for n in [0u64, 7, 10, 99, 1234567, u64::MAX] {
        assert_eq!(text::decimal_u64(n), n.to_string());
    }
    for n in [0i64, 7, -3, 2024, -12345, i64::MIN] {
        assert_eq!(text::decimal_i64_width(n, 4), format!("{n:04}"));
    }
    for s in ["0", "-5", "+7", "", "-", "12a", "9223372036854775807", "9223372036854775808", " 1"] {
        assert_eq!(text::parse_i64(s), s.parse::<i64>().ok(), "{:?}", s);
    }
}

#[test]
fn replaces_characters() {
    assert_eq!(text::replace_char("a\"b", '"', "\\\""), "a\\\"b");
}

#[test]
fn numbers_come_back_over_any_width() {
    for n in [0i64, 7, 42, 1969, -1, -305, i64::MAX] {
        for width in [1usize, 2, 4, 9] {
            assert_eq!(text::parse_i64(&text::decimal_i64_width(n, width)), Some(n));
        }
    }
    assert_eq!(text::decimal_i64_width(7, 4), "0007");
    assert_eq!(text::decimal_i64_width(-7, 4), "-007");
}

#[test]
fn empty_strings_are_dropped() {
    let v = vec!["a".to_string(), String::new(), "b".to_string()];
    assert_eq!(text::keep_non_empty(&v), ["a", "b"]);
    assert_eq!(text::clone_all(&v), v);
    assert_eq!(text::clone_opt(&Some("x".to_string())), Some("x".to_string()));
    assert_eq!(text::slice_string(&vec!['a', 'b', 'c'], 1, 3), "bc");
}

#[test]
fn characters_are_told_apart_as_the_standard_library_does() {
    for n in 0..=0x10ffffu32 {
        if let Some(c) = char::from_u32(n) {
            assert_eq!(text::white(c), c.is_whitespace());
            assert_eq!(text::lower_char(c), c.to_ascii_lowercase());
        }
    }
}
