use tct::model::card::{format_date, Date};
use tct::text::{char_is_whitespace, owned, push_str};

#[test]
fn format_date_pads_year_month_day() {
    assert_eq!(format_date(Date { year: 2026, month: 7, day: 1 }), "2026-07-01");
    assert_eq!(format_date(Date { year: 0, month: 1, day: 1 }), "0000-01-01");
    assert_eq!(format_date(Date { year: 9999, month: 12, day: 31 }), "9999-12-31");
}

#[test]
fn format_date_signs_years_outside_four_digits() {
    assert_eq!(format_date(Date { year: -1, month: 1, day: 1 }), "-0001-01-01");
    assert_eq!(format_date(Date { year: 10000, month: 12, day: 31 }), "+10000-12-31");
}

#[test]
fn format_date_of_missing_day_is_empty() {
    assert_eq!(format_date(Date { year: 2025, month: 2, day: 29 }), "");
    assert_eq!(format_date(Date { year: 2024, month: 2, day: 29 }), "2024-02-29");
    assert_eq!(format_date(Date { year: 2024, month: 13, day: 1 }), "");
}

#[test]
fn whitespace_matches_std() {
    for c in ['\t', '\n', '\u{b}', '\u{c}', '\r', ' ', '\u{85}', '\u{a0}', '\u{1680}', '\u{2000}', '\u{200a}', '\u{2028}', '\u{2029}', '\u{202f}', '\u{205f}', '\u{3000}'] {
        assert!(char_is_whitespace(c), "{:?}", c);
    }
    for c in ['a', '0', '\u{200b}', '\u{1f}', '\u{feff}', '_'] {
        assert!(!char_is_whitespace(c), "{:?}", c);
    }
    for u in 0..0x3001u32 {
        if let Some(c) = char::from_u32(u) {
            assert_eq!(char_is_whitespace(c), c.is_whitespace(), "{:#x}", u);
        }
    }
}

#[test]
fn push_str_and_owned_copy_text() {
    let mut s = owned("ab");
    push_str(&mut s, "cd");
    assert_eq!(s, "abcd");
}
