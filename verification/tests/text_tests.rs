use statix_agent::text::ascii::{is_alphanumeric, is_hex_digit, is_white, to_lower};
use statix_agent::text::edit::{equal_ignoring_case, lowered, replaced, shortened, shortened_front};
use statix_agent::text::number::{decimal_text, hex_text, padded_text, parsed};
use statix_agent::text::order::is_before;
use statix_agent::text::search::{begins, ends, has, strip_prefix, strip_suffix};
use statix_agent::text::split::{cut, cut_char, joined, lines_of, pieces, words_of};
use statix_agent::text::trim::{
    trimmed, trimmed_end_char, trimmed_line_end, trimmed_start_char, trimmed_start_text,
};

#[test]
fn characters_are_classed_as_std_does() {
    for code in 0..=0x10FFFFu32 {
        if let Some(c) = char::from_u32(code) {
            assert_eq!(is_white(c), c.is_whitespace(), "{code:x}");
            assert_eq!(is_alphanumeric(c), c.is_ascii_alphanumeric());
            assert_eq!(is_hex_digit(c), c.is_ascii_hexdigit());
            assert_eq!(to_lower(c), c.to_ascii_lowercase());
        }
    }
}

const SAMPLES: [&str; 14] = [
    "", " ", "a", " a b ", "a\nb\r\nc", "\n\n", "a,b,,c,", "x=y=z", "\u{a0}a\u{2003}", "é ü\u{85}z",
    "a\r", "\r\n", "//a//", "::--::",
];

#[test]
fn texts_are_divided_as_std_does() {
    for s in SAMPLES {
        assert_eq!(trimmed(s), s.trim(), "{s:?}");
        assert_eq!(lines_of(s), s.lines().collect::<Vec<_>>(), "{s:?}");
        assert_eq!(words_of(s), s.split_whitespace().collect::<Vec<_>>(), "{s:?}");
        assert_eq!(pieces(s, ','), s.split(',').collect::<Vec<_>>(), "{s:?}");
        let expected = s.split_once('=').map(|(a, b)| (a.to_owned(), b.to_owned()));
        assert_eq!(cut_char(s, '='), expected);
        let expected = s.split_once("b").map(|(a, b)| (a.to_owned(), b.to_owned()));
        assert_eq!(cut(s, "b"), expected);
        assert_eq!(trimmed_end_char(s, '/'), s.trim_end_matches('/'));
        assert_eq!(trimmed_start_char(s, '/'), s.trim_start_matches('/'));
        assert_eq!(trimmed_start_text(s, "::"), s.trim_start_matches("::"));
        assert_eq!(trimmed_line_end(s), s.trim_end_matches(['\r', '\n']));
        assert_eq!(lowered(s), s.to_ascii_lowercase());
        assert_eq!(replaced(s, 'a', "<>"), s.replace('a', "<>"));
        for p in ["", "a", " ", "\n"] {
            assert_eq!(has(s, p), s.contains(p));
            assert_eq!(begins(s, p), s.starts_with(p));
            assert_eq!(ends(s, p), s.ends_with(p));
            assert_eq!(strip_prefix(s, p), s.strip_prefix(p).map(str::to_owned));
            assert_eq!(strip_suffix(s, p), s.strip_suffix(p).map(str::to_owned));
        }
        for t in SAMPLES {
            assert_eq!(is_before(s, t), s < t, "{s:?} {t:?}");
            assert_eq!(equal_ignoring_case(s, t), s.eq_ignore_ascii_case(t));
        }
    }
    let list = vec!["a".to_owned(), "b".to_owned(), String::new()];
    assert_eq!(joined(&list, ", "), list.join(", "));
    assert_eq!(joined(&Vec::new(), ", "), "");
}

#[test]
fn numbers_are_read_and_written_as_std_does() {
    for n in [0u64, 1, 9, 10, 255, 1_000_000, u64::MAX] {
        assert_eq!(decimal_text(n), n.to_string());
        assert_eq!(padded_text(n, 20), format!("{n:020}"));
        assert_eq!(hex_text(n, 16), format!("{n:016x}"));
    }
    let candidates = [
        "", "+", "-", "0", "007", "+5", "-5", "18446744073709551615", "18446744073709551616", "1a",
        " 1", "٣", "++1", "256", "255",
    ];
    for s in candidates {
        assert_eq!(parsed(s, u64::MAX), s.parse::<u64>().ok(), "{s:?}");
        assert_eq!(parsed(s, 255), s.parse::<u8>().ok().map(u64::from), "{s:?}");
    }
}

#[test]
fn texts_are_shortened() {
    assert_eq!(shortened("abcd", 3), "abc...");
    assert_eq!(shortened("abc", 3), "abc");
    assert_eq!(shortened_front("abcd", 3), "...bcd");
    assert_eq!(shortened_front("é", 1), "é");
}
