use anchorkit::text::{
    chars_of, leading_line, parse_u32, push_decimal, same_text, split_words, strip_leading,
    strip_prefix, strip_trailing, white_space,
};

const SAMPLES: [&str; 22] = [
    "",
    " ",
    "\n",
    "\r\n",
    "a",
    "a\nb",
    "a\r\nb",
    "a\r",
    "a\r\r\nb",
    "\r",
    "  two  words ",
    "tab\tand\u{a0}no-break\u{2003}em\u{3000}wide",
    "zero\u{200b}width is no white space",
    "[x [x [x tail]]]",
    "[x ",
    "]]]",
    "日本語 テキスト\nnext",
    "line\u{2028}separator\u{85}next line",
    "+12",
    "é]",
    "[x[x ",
    "\u{feff}bom",
];

#[test]
fn test_white_space_is_the_unicode_property() {
    for c in '\0'..=char::MAX {
        assert_eq!(white_space(c), c.is_whitespace(), "{:?}", c);
    }
}

#[test]
fn test_text_primitives_agree_with_str() {
    for s in SAMPLES {
        assert_eq!(chars_of(s), s.chars().collect::<Vec<char>>());
        assert_eq!(leading_line(s), s.lines().next().unwrap_or(""));
        assert_eq!(split_words(s), s.split_whitespace().collect::<Vec<&str>>());
        assert_eq!(strip_leading(s, "[x "), s.trim_start_matches("[x "));
        assert_eq!(strip_trailing(s, ']'), s.trim_end_matches(']'));
        for p in SAMPLES {
            assert_eq!(strip_prefix(s, p), s.strip_prefix(p));
            assert_eq!(same_text(s, p), s == p);
        }
    }
}

#[test]
fn test_leading_line_keeps_a_bare_carriage_return() {
    assert_eq!(leading_line("a\r\nb"), "a");
    assert_eq!(leading_line("a\r"), "a\r");
    assert_eq!(leading_line("a\r\r\nb"), "a\r");
    assert_eq!(leading_line("\nb"), "");
}

#[test]
fn test_strip_leading_with_an_empty_prefix() {
    assert_eq!(strip_leading("abc", ""), "abc");
}

#[test]
fn test_decimal_writes_what_display_does() {
    for n in [0, 1, 9, 10, 11, 99, 100, 1_000_000, 4_294_967_295, u64::MAX - 1, u64::MAX] {
        let mut out = String::from("n=");
        push_decimal(&mut out, n);
        assert_eq!(out, format!("n={}", n));
    }
}

#[test]
fn test_parse_reads_what_from_str_does() {
    for s in [
        "", "+", "-", "0", "-0", "+0", "7", "007", "+42", "++1", "1+", "4294967295",
        "4294967296", "+4294967296", "99999999999999999999999", "000000000000000000000005", "1 ",
        " 1", "1_0", "0x1", "٣", "a", "12a",
    ] {
        assert_eq!(parse_u32(s), s.parse::<u32>().ok(), "{:?}", s);
    }
}
