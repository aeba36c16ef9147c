use tui_do_list::date::{Date, DateTime, Time};
use tui_do_list::query::either_has;
use tui_do_list::text::{
    contains, is_whitespace, join, lines, parse_unsigned, to_ascii_lowercase, to_decimal,
    to_two_digits, trim, trim_end, words,
};

#[test]
fn white_space_is_what_char_says() {
    for c in '\u{0}'..=char::MAX {
        assert_eq!(is_whitespace(c), c.is_whitespace(), "{c:?}");
    }
}

#[test]
fn texts_are_cut_like_str_cuts_them() {
    for s in [
        "", " ", "a", " a b ", "a\n", "a\r\nb", "\n\n", "x\r", "\u{3000}é\u{a0}", "a\tb\nc ", "\r\n",
    ] {
        assert_eq!(trim(s), s.trim(), "{s:?}");
        assert_eq!(trim_end(s), s.trim_end(), "{s:?}");
        assert_eq!(words(s), s.split_whitespace().collect::<Vec<_>>(), "{s:?}");
        assert_eq!(lines(s), s.lines().collect::<Vec<_>>(), "{s:?}");
        assert_eq!(to_ascii_lowercase(s), s.to_ascii_lowercase(), "{s:?}");
        for needle in ["", "a", "b ", "\n", "é", "zz"] {
            assert_eq!(contains(s, needle), s.contains(needle), "{s:?} {needle:?}");
        }
    }
    assert_eq!(to_ascii_lowercase("PgÜP"), "pgÜp");
    assert_eq!(join(&vec!["a".to_string(), "b".to_string()], ", "), "a, b");
    assert_eq!(join(&vec![], ", "), "");
}

#[test]
fn numbers_are_written_and_read() {
    for n in [0, 7, 10, 99, 100, 12_345, u64::MAX] {
        assert_eq!(to_decimal(n), n.to_string());
        assert_eq!(parse_unsigned(&to_decimal(n), u64::MAX), Some(n));
    }
    assert_eq!(to_two_digits(5), "05");
    assert_eq!(to_two_digits(59), "59");
    for s in [
        "", "+", "-1", "+8", "007", " 1", "1 ", "18446744073709551615", "18446744073709551616", "1_0",
        "٣",
    ] {
        assert_eq!(parse_unsigned(s, u64::MAX), s.parse::<u64>().ok(), "{s:?}");
    }
    assert_eq!(parse_unsigned("4294967296", 4_294_967_295), None);
}

#[test]
fn a_query_is_looked_for_in_text_and_note() {
    let note = Some("ask about vat".to_string());
    assert!(either_has("email", &note, "vat"));
    assert!(either_has("email", &note, "mai"));
    assert!(!either_has("email", &None, "vat"));
    assert!(!either_has("email", &note, "milk"));
}

#[test]
fn dates_count_as_in_the_calendar() {
    let first = Date::from_ymd_opt(1, 1, 1).unwrap();
    assert_eq!(first.day(), 1);
    assert_eq!(Date::from_ymd_opt(2000, 2, 29).unwrap().day(), 730_179);
    assert!(Date::from_ymd_opt(1900, 2, 29).is_none());
    assert!(Date::from_ymd_opt(2026, 13, 1).is_none());
    assert!(Date::from_ymd_opt(2026, 4, 31).is_none());
    assert!(Date::from_ymd_opt(300_000, 1, 1).is_none());
    let (min, max) = (chrono::NaiveDate::MIN, chrono::NaiveDate::MAX);
    let day = |d: chrono::NaiveDate| chrono::Datelike::num_days_from_ce(&d);
    assert!(Date::from_day(day(min)).is_some());
    assert!(Date::from_day(day(max)).is_some());
    assert!(Date::from_day(day(min) - 1).is_none());
    assert!(Date::from_day(day(max) + 1).is_none());
}

#[test]
fn dates_are_written_and_read() {
    let date = Date::from_ymd_opt(2026, 8, 31).unwrap();
    assert_eq!(date.short_text(), "Mon 31 Aug");
    assert_eq!(date.long_text(), "Mon, 31 Aug 2026");
    assert_eq!(Date::from_ymd_opt(7, 1, 5).unwrap().long_text(), "Fri, 05 Jan 0007");
    assert_eq!(Date::from_ymd_opt(-44, 3, 15).unwrap().long_text(), "Thu, 15 Mar -0044");
    assert_eq!(Date::parse("2026-08-31"), Some(date));
    assert_eq!(Date::parse("0007-01-05"), Date::from_ymd_opt(7, 1, 5));
    assert_eq!(Date::parse("2026-02-29"), None);
    assert_eq!(Date::parse("today"), None);
}

#[test]
fn months_keep_the_day_or_take_the_last() {
    let date = |m, d| Date::from_ymd_opt(2026, m, d).unwrap();
    assert_eq!(date(1, 31).plus_months(1), Some(date(2, 28)));
    assert_eq!(date(3, 31).minus_months(1), Some(date(2, 28)));
    assert_eq!(date(3, 15).minus_months(3), Date::from_ymd_opt(2025, 12, 15));
    let last = Date::from_day(tui_do_list::date::MAX_DAY).unwrap();
    assert_eq!(last.plus_months(1), None);
    assert!(date(8, 29).is_weekend());
    assert!(date(8, 30).is_weekend());
    assert!(!date(8, 31).is_weekend());
    assert_eq!(date(9, 1).days_since(date(8, 31)), 1);
}

#[test]
fn times_are_ordered_and_written() {
    let time = Time::from_hms_opt(9, 5, 59).unwrap();
    assert_eq!(time.text(), "09:05");
    assert!(Time::from_hms_opt(24, 0, 0).is_none());
    assert!(Time::from_hms_opt(0, 0, 60).is_none());
    assert_eq!(Time::from_parts(time.secs(), time.frac()), Some(time));
    assert!(Time::from_parts(86_400, 0).is_none());
    assert!(Time::midnight().before(time));
    assert!(!time.before(time));
}

#[test]
fn seconds_are_taken_off_across_days() {
    let date = |m, d| Date::from_ymd_opt(2026, m, d).unwrap();
    let now = DateTime { date: date(9, 1), time: Time::from_hms_opt(0, 0, 30).unwrap() };
    let before = now.minus_seconds(60);
    assert_eq!(before.date, date(8, 31));
    assert_eq!(before.time, Time::from_hms_opt(23, 59, 30).unwrap());
    assert!(before.before(now));
    assert_eq!(now.minus_seconds(-60).time, Time::from_hms_opt(0, 1, 30).unwrap());
}
