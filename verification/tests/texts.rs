use panda_dl::number::{decimal_string, hex_string, parse_number};
use panda_dl::text::{
    chars_of, contains, count_before, ends_with, find, joined, lowered_chars, same_ignoring_case,
    same_text, starts_with, string_of, strip, tail_after_last, trim, Edge,
};

fn trimmed(s: &str, e: Edge) -> String {
    string_of(trim(&chars_of(s), e))
}

#[test]
fn white_space_is_what_unicode_says() {
    for n in 0..0x110000u32 {
        if let Some(c) = char::from_u32(n) {
            assert_eq!(Edge::Space.holds(c), c.is_whitespace(), "U+{:04X}", n);
        }
    }
}

#[test]
fn trims_white_space() {
    for s in ["", " ", "\t\n x y \u{a0}\u{3000}", "plain", " left", "right \r\n", "\u{85}\u{2028}"] {
        assert_eq!(trimmed(s, Edge::Space), s.trim());
    }
}

#[test]
fn trims_quotes_and_ornaments() {
    assert_eq!(trimmed("\"a\"b\"\"", Edge::Quote), "a\"b");
    assert_eq!(trimmed("\"\"\"", Edge::Quote), "");
    assert_eq!(trimmed(" .-a.b-c. -", Edge::Ornament), "a.b-c");
    assert_eq!(trimmed("-- ..", Edge::Ornament), "");
}

#[test]
fn trimming_twice_is_trimming_once() {
    let once = trimmed(" . -x- . ", Edge::Ornament);
    assert_eq!(once, "x");
    assert_eq!(trimmed(&once, Edge::Ornament), once);
}

#[test]
fn finds_the_first_occurrence() {
    let s = chars_of("a''b''c");
    assert_eq!(find(&s, &chars_of("''")), Some(1));
    assert_eq!(find(&s, &chars_of("b''c")), Some(3));
    assert_eq!(find(&s, &chars_of("x")), None);
    assert_eq!(find(&s, &[]), Some(0));
    assert_eq!(find(&[], &[]), Some(0));
    assert_eq!(find(&[], &['a']), None);
    assert!(contains(&s, &chars_of("''c")));
    assert!(!contains(&s, &chars_of("''d")));
}

#[test]
fn knows_starts_and_ends() {
    let s = chars_of("magnet:?xt=1.torrent");
    assert!(starts_with(&s, &chars_of("magnet:?")));
    assert!(!starts_with(&s, &chars_of("magnets")));
    assert!(ends_with(&s, &chars_of(".torrent")));
    assert!(!ends_with(&s, &chars_of(".torren")));
    assert!(starts_with(&s, &[]) && ends_with(&s, &[]));
    assert!(!starts_with(&[], &s) && !ends_with(&[], &s));
}

#[test]
fn cuts_at_characters() {
    assert_eq!(count_before(&chars_of("ab;c;d"), ';'), 2);
    assert_eq!(count_before(&chars_of("abc"), ';'), 3);
    assert_eq!(string_of(tail_after_last(&chars_of("/a/b/c"), '/')), "c");
    assert_eq!(string_of(tail_after_last(&chars_of("abc"), '/')), "abc");
    assert_eq!(string_of(tail_after_last(&chars_of("abc/"), '/')), "");
}

#[test]
fn strips_every_repetition() {
    for (s, p) in [("ababx", "ab"), ("x", "ab"), ("abab", "ab"), ("aab", "a"), ("", "a")] {
        assert_eq!(string_of(strip(&chars_of(s), &chars_of(p))), s.trim_start_matches(p));
    }
}

#[test]
fn compares_without_case() {
    for (a, b) in [("Bytes", "bytes"), ("BYTES", "bytes"), ("byte", "bytes"), ("bytez", "bytes")] {
        assert_eq!(same_ignoring_case(&chars_of(a), &chars_of(b)), a.eq_ignore_ascii_case(b));
    }
    assert!(!same_ignoring_case(&['É'], &['é']));
    assert_eq!(string_of(&lowered_chars(&chars_of("/A/Z.ISO@[`"))), "/a/z.iso@[`");
}

#[test]
fn puts_texts_together() {
    assert_eq!(joined("a", "bé"), "abé");
    assert!(same_text("é", "é"));
    assert!(!same_text("a", "ab"));
}

#[test]
fn reads_numbers_like_the_standard_library() {
    for s in [
        "", "+", "-", "0", "007", "+5", "++5", "-5", " 5", "5 ", "12x", "x12", "1_000",
        "18446744073709551615", "18446744073709551616", "99999999999999999999999", "٣",
    ] {
        assert_eq!(parse_number(&chars_of(s)), s.parse::<u64>().ok(), "{:?}", s);
    }
}

#[test]
fn writes_numbers_like_the_standard_library() {
    for n in [0, 7, 10, 99, 100, 1048576, u64::MAX] {
        let s = decimal_string(n);
        assert_eq!(s, n.to_string());
        assert_eq!(parse_number(&chars_of(&s)), Some(n));
    }
}

#[test]
fn writes_bytes_in_hexadecimal() {
    assert_eq!(hex_string(&[0x00, 0x0f, 0xa5, 0xff]), "000fa5ff");
    assert_eq!(hex_string(&[]), "");
    for b in 0..=255u8 {
        assert_eq!(hex_string(&[b]), format!("{:02x}", b));
    }
}
