use backlight::decimal::char_is_whitespace;
use backlight::decimal::chars_of;
use backlight::decimal::parse_i32;
use backlight::decimal::parse_trimmed_i32;
use backlight::decimal::parse_u32;
use backlight::decimal::render_i32;
use backlight::decimal::render_u32;

#[test]
fn chars_of_lists_every_character() {
    assert_eq!(chars_of(""), Vec::<char>::new());
    assert_eq!(chars_of("a1 "), vec!['a', '1', ' ']);
    assert_eq!(chars_of("é\u{3000}9"), vec!['é', '\u{3000}', '9']);
}

#[test]
fn whitespace_is_what_std_calls_whitespace() {
    for code in 0u32..=0x10FFFF {
        if let Some(c) = char::from_u32(code) {
            assert_eq!(char_is_whitespace(c), c.is_whitespace(), "U+{:04X}", code);
        }
    }
}

#[test]
fn parse_i32_reads_plain_numbers() {
    assert_eq!(parse_i32("0"), Some(0));
    assert_eq!(parse_i32("7"), Some(7));
    assert_eq!(parse_i32("96000"), Some(96000));
    assert_eq!(parse_i32("-42"), Some(-42));
    assert_eq!(parse_i32("+42"), Some(42));
}

#[test]
fn parse_i32_allows_leading_zeros() {
    assert_eq!(parse_i32("007"), Some(7));
    assert_eq!(parse_i32("-000"), Some(0));
    assert_eq!(parse_i32("0000000000000000000000000000012"), Some(12));
}

#[test]
fn parse_i32_reads_the_ends_of_the_range() {
    assert_eq!(parse_i32("2147483647"), Some(i32::MAX));
    assert_eq!(parse_i32("-2147483648"), Some(i32::MIN));
    assert_eq!(parse_i32("+2147483647"), Some(i32::MAX));
}

#[test]
fn parse_i32_refuses_what_does_not_fit() {
    assert_eq!(parse_i32("2147483648"), None);
    assert_eq!(parse_i32("-2147483649"), None);
    assert_eq!(parse_i32("4294967296"), None);
    assert_eq!(parse_i32("99999999999999999999999999999999999999999"), None);
    assert_eq!(parse_i32("-99999999999999999999999999999999999999999"), None);
}

#[test]
fn parse_i32_refuses_what_is_no_number() {
    assert_eq!(parse_i32(""), None);
    assert_eq!(parse_i32("+"), None);
    assert_eq!(parse_i32("-"), None);
    assert_eq!(parse_i32("--1"), None);
    assert_eq!(parse_i32("+-1"), None);
    assert_eq!(parse_i32("1-"), None);
    assert_eq!(parse_i32("12a"), None);
    assert_eq!(parse_i32("a12"), None);
    assert_eq!(parse_i32("1 2"), None);
    assert_eq!(parse_i32("1.5"), None);
    assert_eq!(parse_i32("0x10"), None);
    assert_eq!(parse_i32("１２"), None);
}

#[test]
fn parse_i32_does_not_trim() {
    assert_eq!(parse_i32(" 12"), None);
    assert_eq!(parse_i32("12\n"), None);
}

#[test]
fn parse_trimmed_i32_drops_blanks_at_both_ends() {
    assert_eq!(parse_trimmed_i32("96000\n"), Some(96000));
    assert_eq!(parse_trimmed_i32("  \t 15 \r\n"), Some(15));
    assert_eq!(parse_trimmed_i32("\u{a0}-3\u{3000}"), Some(-3));
    assert_eq!(parse_trimmed_i32("12"), Some(12));
}

#[test]
fn parse_trimmed_i32_keeps_blanks_inside() {
    assert_eq!(parse_trimmed_i32("1 2"), None);
    assert_eq!(parse_trimmed_i32(" - 1 "), None);
}

#[test]
fn parse_trimmed_i32_refuses_blank_text() {
    assert_eq!(parse_trimmed_i32(""), None);
    assert_eq!(parse_trimmed_i32("   "), None);
    assert_eq!(parse_trimmed_i32("\n"), None);
}

#[test]
fn parse_trimmed_i32_does_not_trim_what_is_no_blank() {
    // A zero-width space is not white space.
    assert_eq!(parse_trimmed_i32("\u{200b}12"), None);
    assert_eq!(parse_trimmed_i32("12\0"), None);
}

#[test]
fn parse_u32_reads_numbers_without_minus() {
    assert_eq!(parse_u32("0"), Some(0));
    assert_eq!(parse_u32("+7"), Some(7));
    assert_eq!(parse_u32("4294967295"), Some(u32::MAX));
    assert_eq!(parse_u32("0004294967295"), Some(u32::MAX));
}

#[test]
fn parse_u32_refuses_a_minus_sign() {
    assert_eq!(parse_u32("-1"), None);
    assert_eq!(parse_u32("-0"), None);
}

#[test]
fn parse_u32_refuses_what_does_not_fit_or_is_no_number() {
    assert_eq!(parse_u32("4294967296"), None);
    assert_eq!(parse_u32("42949672950"), None);
    assert_eq!(parse_u32(""), None);
    assert_eq!(parse_u32("+"), None);
    assert_eq!(parse_u32("12 "), None);
    assert_eq!(parse_u32("abc"), None);
}

#[test]
fn parsers_agree_with_std_on_a_mixed_list() {
    let samples = [
        "", " ", "0", "-0", "+0", "00", "1", "-1", "+1", "10", "2147483647", "2147483648",
        "-2147483648", "-2147483649", "4294967295", "4294967296", "+4294967295", "-4294967295",
        "abc", "12abc", "abc12", "1_000", "1,000", "1e3", "٣", "+ 1", "++1", "\t8\t", "8\u{85}",
        "\u{2003}8", "8 8", "\u{feff}8", "000000000000000000000000", "-", "+",
    ];
    for text in samples {
        assert_eq!(parse_i32(text), text.parse::<i32>().ok(), "i32 {:?}", text);
        assert_eq!(parse_u32(text), text.parse::<u32>().ok(), "u32 {:?}", text);
        assert_eq!(parse_trimmed_i32(text), text.trim().parse::<i32>().ok(), "trimmed {:?}", text);
    }
}

#[test]
fn render_i32_writes_decimal_text() {
    assert_eq!(render_i32(0), "0");
    assert_eq!(render_i32(7), "7");
    assert_eq!(render_i32(10), "10");
    assert_eq!(render_i32(96000), "96000");
    assert_eq!(render_i32(-1), "-1");
    assert_eq!(render_i32(-120), "-120");
    assert_eq!(render_i32(i32::MAX), "2147483647");
    assert_eq!(render_i32(i32::MIN), "-2147483648");
}

#[test]
fn render_u32_writes_decimal_text() {
    assert_eq!(render_u32(0), "0");
    assert_eq!(render_u32(9), "9");
    assert_eq!(render_u32(1000), "1000");
    assert_eq!(render_u32(u32::MAX), "4294967295");
}

#[test]
fn render_agrees_with_std() {
    let mut value: i64 = i32::MIN as i64;
    while value <= i32::MAX as i64 {
        let v = value as i32;
        assert_eq!(render_i32(v), v.to_string());
        value += 9_999_991;
    }
    let mut value: u64 = 0;
    while value <= u32::MAX as u64 {
        let v = value as u32;
        assert_eq!(render_u32(v), v.to_string());
        value += 19_999_999;
    }
}

#[test]
fn what_is_written_reads_back() {
    for v in [i32::MIN, -100_000, -10, -9, -1, 0, 1, 9, 10, 99, 100, 255, 96000, i32::MAX] {
        assert_eq!(parse_i32(&render_i32(v)), Some(v));
        assert_eq!(parse_trimmed_i32(&render_i32(v)), Some(v));
    }
    for v in [0u32, 1, 9, 10, 4096, u32::MAX] {
        assert_eq!(parse_u32(&render_u32(v)), Some(v));
    }
}
