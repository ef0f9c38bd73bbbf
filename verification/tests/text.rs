use snooprs::reflow::reflow;
use snooprs::reflow::START_OF_TEXT;
use snooprs::reflow::WRAP_WIDTH;
use snooprs::snoop_to_text;
use snooprs::text::chars_of;
use snooprs::text::decimal_text;
use snooprs::text::has_prefix;
use snooprs::text::is_whitespace;
use snooprs::text::parse_decimal;
use snooprs::text::same_text;
use snooprs::text::trim;
use snooprs::SnoopParser;

#[test]
fn same_text_compares_every_character() {
    assert!(same_text("", ""));
    assert!(same_text("abc", "abc"));
    assert!(same_text("gr\u{fc}n", "gr\u{fc}n"));
    assert!(!same_text("abc", "abd"));
    assert!(!same_text("abc", "ab"));
    assert!(!same_text("", " "));
    assert!(!same_text("gr\u{fc}n", "grun"));
}

#[test]
fn has_prefix_looks_at_the_start() {
    assert!(has_prefix("Sending", "Sending"));
    assert!(has_prefix("Sending data", "Send"));
    assert!(has_prefix("anything", ""));
    assert!(has_prefix("", ""));
    assert!(!has_prefix("Send", "Sending"));
    assert!(!has_prefix("xSending", "Sending"));
    assert!(!has_prefix("", "S"));
    assert!(has_prefix("\u{e9}t\u{e9}", "\u{e9}t"));
}

#[test]
fn chars_of_gives_the_characters() {
    assert_eq!(chars_of("a\u{fc}c"), vec!['a', '\u{fc}', 'c']);
    assert_eq!(chars_of(""), Vec::<char>::new());
}

#[test]
fn trim_removes_whitespace_at_both_ends() {
    assert_eq!(trim("  a b  "), "a b");
    assert_eq!(trim("\t\r\na\u{a0}\u{3000}"), "a");
    assert_eq!(trim("a"), "a");
    assert_eq!(trim(""), "");
    assert_eq!(trim(" \t "), "");
    assert_eq!(trim(" \u{fc}ber uns "), "\u{fc}ber uns");
    assert_eq!(trim("x\u{200b}"), "x\u{200b}");
}

#[test]
fn whitespace_is_what_the_standard_library_calls_whitespace() {
    for code in 0u32..=0x10ffff {
        if let Some(c) = char::from_u32(code) {
            assert_eq!(is_whitespace(c), c.is_whitespace(), "U+{:04X}", code);
        }
    }
}

#[test]
fn trim_agrees_with_the_standard_library() {
    for text in ["", " ", "a", " a", "a ", "\t a b \n", "\u{85}x\u{2028}", "\u{180e}x\u{200b}", " \u{3000} "] {
        assert_eq!(trim(text), text.trim(), "{:?}", text);
    }
}

#[test]
fn parse_decimal_reads_digits_only() {
    assert_eq!(parse_decimal("0"), Some(0));
    assert_eq!(parse_decimal("16"), Some(16));
    assert_eq!(parse_decimal("007"), Some(7));
    assert_eq!(parse_decimal("18446744073709551615"), Some(u64::MAX));
    assert_eq!(parse_decimal("18446744073709551616"), None);
    assert_eq!(parse_decimal("99999999999999999999"), None);
    assert_eq!(parse_decimal("000000000000000000000000000001"), Some(1));
    assert_eq!(parse_decimal(""), None);
    assert_eq!(parse_decimal("+5"), None);
    assert_eq!(parse_decimal("-5"), None);
    assert_eq!(parse_decimal("5 "), None);
    assert_eq!(parse_decimal("1x"), None);
    assert_eq!(parse_decimal("\u{0661}"), None);
}

#[test]
fn decimal_text_writes_without_leading_zeros() {
    assert_eq!(decimal_text(0), "0");
    assert_eq!(decimal_text(7), "7");
    assert_eq!(decimal_text(10), "10");
    assert_eq!(decimal_text(132916153280064), "132916153280064");
    assert_eq!(decimal_text(u64::MAX), "18446744073709551615");
}

#[test]
fn decimal_text_is_read_back() {
    for n in [0u64, 1, 9, 10, 99, 100, 12345, u64::MAX - 1, u64::MAX] {
        assert_eq!(parse_decimal(&decimal_text(n)), Some(n));
    }
}

#[test]
fn text_column_starts_at_column_56() {
    assert_eq!(START_OF_TEXT, 56);
    let line = "0x3ea0   2d6c 6566 742d 7261 6469 7573 3a35 3025        -left-radius:50%";
    assert_eq!(snoop_to_text(line), "-left-radius:50%");
    let exact = "x".repeat(56);
    assert_eq!(snoop_to_text(&exact), "");
    let wide = format!("{}\u{fc}\u{fc}", "\u{e4}".repeat(56));
    assert_eq!(snoop_to_text(&wide), "\u{fc}\u{fc}");
}

#[test]
fn reflow_cuts_windows_from_left_to_right() {
    assert_eq!(reflow("", 3), "");
    assert_eq!(reflow("a", 3), "a\n");
    assert_eq!(reflow("abc", 3), "abc\n");
    assert_eq!(reflow("abcd", 3), "abc\nd\n");
    assert_eq!(reflow("abcdef", 3), "abc\ndef\n");
    assert_eq!(reflow("abcdefgh", 3), "abc\ndef\ngh\n");
    assert_eq!(reflow("one two", 1), "o\nn\ne\n \nt\nw\no\n");
    assert_eq!(reflow("\u{e4}\u{f6}\u{fc}", 2), "\u{e4}\u{f6}\n\u{fc}\n");
}

#[test]
fn reflow_line_count_and_lengths() {
    for len in [0usize, 1, 79, 80, 81, 159, 160, 161, 400] {
        let buffer: String = (0..len).map(|i| char::from(b'a' + (i % 26) as u8)).collect();
        let wrapped = reflow(&buffer, WRAP_WIDTH);
        let lines: Vec<&str> = wrapped.lines().collect();
        assert_eq!(lines.len(), (len + 79) / 80);
        assert_eq!(wrapped.len(), len + lines.len());
        for (i, line) in lines.iter().enumerate() {
            if i + 1 < lines.len() {
                assert_eq!(line.len(), 80);
            } else if len % 80 == 0 {
                assert_eq!(line.len(), 80);
            } else {
                assert_eq!(line.len(), len % 80);
            }
        }
        assert_eq!(lines.concat(), buffer);
    }
}

#[test]
fn format_data_wraps_at_the_width_of_the_parser() {
    let parser = SnoopParser::new(Vec::new()).unwrap();
    assert_eq!(WRAP_WIDTH, 80);
    let buffer = "x".repeat(81);
    assert_eq!(parser.format_data(&buffer), format!("{}\nx\n", "x".repeat(80)));
    assert_eq!(parser.format_data(""), "");
}
