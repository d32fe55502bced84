use tcap::text::{
    blank, byte_len_of, chars_of, decimal_of, join_strings, lines_of, pad_to, parse_i64, parse_u64,
    signed_decimal_of, space, split_at, string_of, trim_text, words_of, Delimiter,
};

const SAMPLES: [&str; 12] = [
    "",
    " ",
    "a",
    "a b  c ",
    "\ta\u{3000}b\u{a0}",
    "one\ntwo\r\n\r\nthree\r",
    "\n",
    "\r\n",
    "x\n\n",
    "é✓😀\u{2028}z",
    "a\r\r\nb",
    "//a/b/",
];

#[test]
fn white_space_is_what_unicode_says() {
    for u in 0..=0x10ffffu32 {
        if let Some(c) = char::from_u32(u) {
            assert_eq!(space(c), c.is_whitespace(), "{u:x}");
        }
    }
}

#[test]
fn words_are_cut_at_white_space() {
    for s in SAMPLES {
        let got: Vec<String> = words_of(&chars_of(s))
            .iter()
            .map(|w| string_of(w))
            .collect();
        let want: Vec<&str> = s.split_whitespace().collect();
        assert_eq!(got, want, "{s:?}");
    }
}

#[test]
fn lines_end_at_newlines() {
    for s in SAMPLES {
        let got: Vec<String> = lines_of(s).iter().map(|l| string_of(l)).collect();
        let want: Vec<&str> = s.lines().collect();
        assert_eq!(got, want, "{s:?}");
    }
}

#[test]
fn trimming_takes_white_space_at_both_ends() {
    for s in SAMPLES {
        assert_eq!(trim_text(s), s.trim(), "{s:?}");
        assert_eq!(blank(&chars_of(s)), s.trim().is_empty(), "{s:?}");
    }
}

#[test]
fn pieces_join_to_the_text() {
    for s in SAMPLES {
        let parts: Vec<String> = split_at(&chars_of(s), Delimiter::Char('/'))
            .iter()
            .map(|p| string_of(p))
            .collect();
        let want: Vec<&str> = s.split('/').collect();
        assert_eq!(parts, want);
        assert_eq!(join_strings(&parts, "/"), s);
    }
}

#[test]
fn numbers_are_written_in_decimal() {
    for n in [0u64, 7, 10, 99, 100, 12345, u64::MAX] {
        assert_eq!(decimal_of(n), n.to_string());
    }
    for n in [0i64, 7, -1, -10, i64::MAX, i64::MIN] {
        assert_eq!(signed_decimal_of(n), n.to_string());
    }
}

#[test]
fn numbers_are_read_as_they_are_written() {
    for s in [
        "0",
        "007",
        "+5",
        "-5",
        "-0",
        "",
        "+",
        "-",
        "+-1",
        "1 ",
        "1x",
        "\u{664}",
        "18446744073709551615",
        "18446744073709551616",
        "9223372036854775807",
        "9223372036854775808",
        "-9223372036854775808",
        "-9223372036854775809",
        "99999999999999999999999",
    ] {
        assert_eq!(parse_u64(&chars_of(s)), s.parse::<u64>().ok(), "{s:?}");
        assert_eq!(parse_i64(&chars_of(s)), s.parse::<i64>().ok(), "{s:?}");
    }
}

#[test]
fn padding_counts_characters() {
    for s in ["", "ab", "✓✓", "abcdef"] {
        assert_eq!(pad_to(s, 4), format!("{s:<4}"));
    }
}

#[test]
fn bytes_are_those_of_utf8() {
    for s in SAMPLES {
        assert_eq!(byte_len_of(s), s.len());
    }
}
