use bookie::date::{parse_date, date_to_string, Date};
use bookie::util::{lpad, parse_u16, rpad, str_lex_le, str_trim, u16_to_string};

#[test]
fn parse_u16_accepts_plain_and_signed_numerals() {
    assert_eq!(parse_u16("0"), Some(0));
    assert_eq!(parse_u16("123"), Some(123));
    assert_eq!(parse_u16("+7"), Some(7));
    assert_eq!(parse_u16("65535"), Some(65535));
}

#[test]
fn parse_u16_rejects_junk_and_overflow() {
    assert_eq!(parse_u16(""), None);
    assert_eq!(parse_u16("+"), None);
    assert_eq!(parse_u16("-1"), None);
    assert_eq!(parse_u16("12a"), None);
    assert_eq!(parse_u16(" 12"), None);
    assert_eq!(parse_u16("65536"), None);
    assert_eq!(parse_u16("999999999999"), None);
}

#[test]
fn u16_to_string_gives_decimal_digits() {
    assert_eq!(u16_to_string(0), "0");
    assert_eq!(u16_to_string(7), "7");
    assert_eq!(u16_to_string(2020), "2020");
    assert_eq!(u16_to_string(65535), "65535");
}

#[test]
fn numeral_round_trip() {
    for n in [0u16, 1, 9, 10, 99, 100, 4321, 65535] {
        assert_eq!(parse_u16(&u16_to_string(n)), Some(n));
    }
}

#[test]
fn trim_removes_unicode_whitespace_at_both_ends() {
    assert_eq!(str_trim("  abc\t\n"), "abc");
    assert_eq!(str_trim("a b"), "a b");
    assert_eq!(str_trim("   "), "");
    assert_eq!(str_trim(""), "");
    assert_eq!(str_trim("\u{a0}x\u{a0}"), "x");
}

#[test]
fn padding_fills_with_spaces() {
    assert_eq!(lpad("ab", 5), "   ab");
    assert_eq!(rpad("ab", 5), "ab   ");
    assert_eq!(lpad("abcdef", 3), "abcdef");
    assert_eq!(rpad("abcdef", 3), "abcdef");
    assert_eq!(lpad("", 2), "  ");
}

#[test]
fn lexicographic_order_by_code_point() {
    assert!(str_lex_le("", "a"));
    assert!(str_lex_le("abc", "abd"));
    assert!(!str_lex_le("abd", "abc"));
    assert!(str_lex_le("ab", "abc"));
    assert!(!str_lex_le("abc", "ab"));
    assert!(str_lex_le("abc", "abc"));
    assert!(str_lex_le("1984", "Dune"));
}

#[test]
fn dates_parse_only_valid_calendar_days() {
    assert_eq!(
        parse_date("2024-05-09"),
        Some(Date { year: 2024, month: 5, day: 9 })
    );
    assert_eq!(
        parse_date("2024-02-29"),
        Some(Date { year: 2024, month: 2, day: 29 })
    );
    assert_eq!(parse_date("2023-02-29"), None);
    assert_eq!(parse_date("1900-02-29"), None);
    assert_eq!(parse_date("2000-02-29"), Some(Date { year: 2000, month: 2, day: 29 }));
    assert_eq!(parse_date("2024-00-10"), None);
    assert_eq!(parse_date("2024-13-01"), None);
    assert_eq!(parse_date("2024-04-31"), None);
    assert_eq!(parse_date("2024-5-9"), None);
    assert_eq!(parse_date("2024/05/09"), None);
    assert_eq!(parse_date("24-05-09"), None);
    assert_eq!(parse_date(""), None);
}

#[test]
fn date_text_round_trip() {
    for d in [
        Date { year: 1, month: 1, day: 1 },
        Date { year: 2024, month: 12, day: 31 },
        Date { year: 999, month: 6, day: 5 },
    ] {
        let text = date_to_string(&d);
        assert_eq!(parse_date(&text), Some(d));
    }
    assert_eq!(date_to_string(&Date { year: 987, month: 6, day: 5 }), "0987-06-05");
}

#[test]
fn from_ymd_accepts_only_calendar_days() {
    assert_eq!(
        Date::from_ymd(2024, 2, 29),
        Some(Date { year: 2024, month: 2, day: 29 })
    );
    assert_eq!(Date::from_ymd(2023, 2, 29), None);
    assert_eq!(Date::from_ymd(2024, 0, 1), None);
    assert_eq!(Date::from_ymd(10000, 1, 1), None);
}

#[test]
fn date_order_is_chronological() {
    let a = Date { year: 2023, month: 12, day: 31 };
    let b = Date { year: 2024, month: 1, day: 1 };
    let c = Date { year: 2024, month: 1, day: 2 };
    assert!(a.before(&b));
    assert!(b.before(&c));
    assert!(!c.before(&b));
    assert!(!b.before(&b));
}
