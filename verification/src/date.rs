//! Calendar dates and times of day.
//!
//! A date is modelled by its number in the proleptic Gregorian calendar, with January 1 of the
//! year 1 as day 1. A time of day is modelled by a number of ticks, see [`Time`].

use vstd::prelude::*;

use crate::text::{
    all_digits, decimal, digit_char, digits_value, is_digit, is_white, to_chars, to_two_digits,
    trim, trimmed, two_digits,
};

verus! {

// --- the calendar --------------------------------------------------------------

/// January 1 of the year -262143, the first date that can be represented.
pub const MIN_DAY: i32 = -95_746_129;

/// December 31 of the year 262142, the last date that can be represented.
pub const MAX_DAY: i32 = 95_745_399;

/// Whether day `n` can be represented.
pub open spec fn day_in_range(n: int) -> bool {
    MIN_DAY <= n <= MAX_DAY
}

/// Whether `year` has 366 days.
pub open spec fn leap_year(year: int) -> bool {
    year % 4 == 0 && (year % 100 != 0 || year % 400 == 0)
}

/// The number of days of a month, counted from 1.
pub open spec fn days_in_month(year: int, month: int) -> int {
    if month == 2 {
        if leap_year(year) {
            29
        } else {
            28
        }
    } else if month == 4 || month == 6 || month == 9 || month == 11 {
        30
    } else {
        31
    }
}

/// The number of days of `year` before the first of `month`.
pub open spec fn days_before_month(year: int, month: int) -> int
    decreases month,
{
    if month <= 1 {
        0
    } else {
        days_before_month(year, month - 1) + days_in_month(year, month - 1)
    }
}

/// The number of days before January 1 of `year`.
pub open spec fn days_before_year(year: int) -> int {
    365 * (year - 1) + (year - 1) / 4 - (year - 1) / 100 + (year - 1) / 400
}

/// Whether there is such a day in the calendar.
pub open spec fn is_civil(year: int, month: int, day: int) -> bool {
    1 <= month <= 12 && 1 <= day <= days_in_month(year, month)
}

/// The number of a day given by year, month and day of the month.
pub open spec fn day_number(year: int, month: int, day: int) -> int {
    days_before_year(year) + days_before_month(year, month) + day
}

/// A day by year, month and day of the month.
pub ghost struct Civil {
    pub year: int,
    pub month: int,
    pub day: int,
}

/// Whether `c` is day number `n`.
pub open spec fn names_day(c: Civil, n: int) -> bool {
    is_civil(c.year, c.month, c.day) && day_number(c.year, c.month, c.day) == n
}

/// Day `n` by year, month and day of the month.
pub open spec fn civil(n: int) -> Civil {
    choose|c: Civil| names_day(c, n)
}

/// The day of the week: 0 is Monday, 6 is Sunday.
pub open spec fn weekday_of(n: int) -> int {
    (n - 1) % 7
}

/// The day `months` months after day `n` (before it, where `months` is negative), or the last day
/// of that month where it is too short.
pub open spec fn months_later(n: int, months: int) -> int {
    let c = civil(n);
    let total = c.year * 12 + c.month - 1 + months;
    let year = total / 12;
    let month = total % 12 + 1;
    let last = days_in_month(year, month);
    day_number(
        year,
        month,
        if c.day < last {
            c.day
        } else {
            last
        },
    )
}

// --- dates as text -------------------------------------------------------------

/// The English abbreviation of a day of the week.
pub open spec fn weekday_abbr(weekday: int) -> Seq<char> {
    if weekday == 0 {
        "Mon"@
    } else if weekday == 1 {
        "Tue"@
    } else if weekday == 2 {
        "Wed"@
    } else if weekday == 3 {
        "Thu"@
    } else if weekday == 4 {
        "Fri"@
    } else if weekday == 5 {
        "Sat"@
    } else {
        "Sun"@
    }
}

/// The English abbreviation of a month.
pub open spec fn month_abbr(month: int) -> Seq<char> {
    if month == 1 {
        "Jan"@
    } else if month == 2 {
        "Feb"@
    } else if month == 3 {
        "Mar"@
    } else if month == 4 {
        "Apr"@
    } else if month == 5 {
        "May"@
    } else if month == 6 {
        "Jun"@
    } else if month == 7 {
        "Jul"@
    } else if month == 8 {
        "Aug"@
    } else if month == 9 {
        "Sep"@
    } else if month == 10 {
        "Oct"@
    } else if month == 11 {
        "Nov"@
    } else {
        "Dec"@
    }
}

/// `n` in decimal digits, filled with zeros to four.
pub open spec fn four_digits(n: nat) -> Seq<char> {
    if n < 10 {
        "000"@ + decimal(n)
    } else if n < 100 {
        "00"@ + decimal(n)
    } else if n < 1000 {
        "0"@ + decimal(n)
    } else {
        decimal(n)
    }
}

/// A year in at least four digits, with a sign where it is negative or has more.
pub open spec fn year_text(year: int) -> Seq<char> {
    if year < 0 {
        "-"@ + four_digits((-year) as nat)
    } else if year > 9999 {
        "+"@ + four_digits(year as nat)
    } else {
        four_digits(year as nat)
    }
}

/// Day `n` as in `Mon 31 Aug`.
pub open spec fn short_date(n: int) -> Seq<char> {
    weekday_abbr(weekday_of(n)) + " "@ + two_digits(civil(n).day) + " "@ + month_abbr(
        civil(n).month,
    )
}

/// Day `n` as in `Mon, 31 Aug 2026`.
pub open spec fn long_date(n: int) -> Seq<char> {
    weekday_abbr(weekday_of(n)) + ", "@ + two_digits(civil(n).day) + " "@ + month_abbr(
        civil(n).month,
    ) + " "@ + year_text(civil(n).year)
}

/// A day as in `2026-08-31`; the year has four digits.
pub open spec fn iso_date(c: Civil) -> Seq<char> {
    four_digits(c.year as nat) + "-"@ + two_digits(c.month) + "-"@ + two_digits(c.day)
}

/// The day that a text such as `2026-08-31` stands for.
pub uninterp spec fn date_of_text(s: Seq<char>) -> Option<int>;

// --- calls into chrono ---------------------------------------------------------

/// `NaiveDate::from_ymd_opt`: the day with that year, month and day of the month, if the calendar
/// has it and it can be represented.
#[verifier::external_body]
fn chrono_from_ymd(year: i32, month: u32, day: u32) -> (r: Option<i32>)
    ensures
        r == (if is_civil(year as int, month as int, day as int) && day_in_range(
            day_number(year as int, month as int, day as int),
        ) {
            Some(day_number(year as int, month as int, day as int) as i32)
        } else {
            None
        }),
{
    chrono::NaiveDate::from_ymd_opt(year, month, day).map(|d| chrono::Datelike::num_days_from_ce(&d))
}

/// `Datelike::weekday`: the day of the week, counted from Monday.
#[verifier::external_body]
fn chrono_weekday(n: i32) -> (r: u32)
    requires
        day_in_range(n as int),
    ensures
        r == weekday_of(n as int),
{
    let date = chrono::NaiveDate::from_num_days_from_ce_opt(n).unwrap();
    chrono::Datelike::weekday(&date).num_days_from_monday()
}

/// `NaiveDate::checked_add_months`: the same day of a later month, or that month's last day;
/// nothing where it cannot be represented.
#[verifier::external_body]
fn chrono_add_months(n: i32, months: u32) -> (r: Option<i32>)
    requires
        day_in_range(n as int),
    ensures
        r == (if day_in_range(months_later(n as int, months as int)) {
            Some(months_later(n as int, months as int) as i32)
        } else {
            None
        }),
{
    let date = chrono::NaiveDate::from_num_days_from_ce_opt(n).unwrap();
    let moved = date.checked_add_months(chrono::Months::new(months));
    moved.map(|d| chrono::Datelike::num_days_from_ce(&d))
}

/// `NaiveDate::checked_sub_months`: the same day of an earlier month, or that month's last day;
/// nothing where it cannot be represented.
#[verifier::external_body]
fn chrono_sub_months(n: i32, months: u32) -> (r: Option<i32>)
    requires
        day_in_range(n as int),
    ensures
        r == (if day_in_range(months_later(n as int, -(months as int))) {
            Some(months_later(n as int, -(months as int)) as i32)
        } else {
            None
        }),
{
    let date = chrono::NaiveDate::from_num_days_from_ce_opt(n).unwrap();
    let moved = date.checked_sub_months(chrono::Months::new(months));
    moved.map(|d| chrono::Datelike::num_days_from_ce(&d))
}

/// `NaiveDate::format` with one of the two patterns in use: weekday, day of the month and month,
/// behind them the year where the pattern asks for it.
#[verifier::external_body]
fn chrono_format(n: i32, pattern: &str) -> (r: String)
    requires
        day_in_range(n as int),
        pattern@ == "%a %d %b"@ || pattern@ == "%a, %d %b %Y"@,
    ensures
        pattern@ == "%a %d %b"@ ==> r@ == short_date(n as int),
        pattern@ == "%a, %d %b %Y"@ ==> r@ == long_date(n as int),
{
    let date = chrono::NaiveDate::from_num_days_from_ce_opt(n).unwrap();
    date.format(pattern).to_string()
}

/// `NaiveDate`'s `FromStr`: the day that a text in the form `%Y-%m-%d` stands for. Which texts it
/// takes, and for which day, depends on the text alone. It takes every day of a year of four
/// digits, written with two digits for the month and two for the day of the month; what else it
/// takes is not stated here.
#[verifier::external_body]
fn chrono_parse(s: &str) -> (r: Option<i32>)
    ensures
        match date_of_text(s@) {
            Some(n) => day_in_range(n) && r == Some(n as i32),
            None => r is None,
        },
        forall|c: Civil|
            is_civil(c.year, c.month, c.day) && 0 <= c.year <= 9999 && s@ == #[trigger] iso_date(c)
                ==> r == Some(day_number(c.year, c.month, c.day) as i32),
{
    let parsed = s.parse::<chrono::NaiveDate>().ok();
    parsed.map(|d| chrono::Datelike::num_days_from_ce(&d))
}

/// The number of a day of a year of four digits fits an `i32`.
proof fn small_day_fits(c: Civil)
    requires
        is_civil(c.year, c.month, c.day),
        0 <= c.year <= 9999,
    ensures
        i32::MIN <= day_number(c.year, c.month, c.day) <= i32::MAX,
{
    early_month(c.year, c.month);
}

/// A month starts no more than 31 days for each month before it after the start of the year.
proof fn early_month(year: int, month: int)
    ensures
        0 <= days_before_month(year, month) <= 31 * (if month > 1 {
            month - 1
        } else {
            0
        }),
    decreases month,
{
    if month > 1 {
        early_month(year, month - 1);
    }
}

// --- dates ---------------------------------------------------------------------

/// A date.
#[derive(Debug, Clone, Copy, PartialEq, Eq, PartialOrd, Ord, Hash)]
pub struct Date {
    days: i32,
}

impl View for Date {
    type V = int;

    closed spec fn view(&self) -> int {
        self.days as int
    }
}

impl Date {
    #[verifier::type_invariant]
    closed spec fn in_range(self) -> bool {
        day_in_range(self.days as int)
    }

    /// The date with day number `n`, if it can be represented.
    pub fn from_day(n: i32) -> (r: Option<Date>)
        ensures
            match r {
                Some(d) => day_in_range(n as int) && d@ == n,
                None => !day_in_range(n as int),
            },
    {
        if MIN_DAY <= n && n <= MAX_DAY {
            Some(Date { days: n })
        } else {
            None
        }
    }

    /// The number of this date.
    pub fn day(&self) -> (r: i32)
        ensures
            r == self@,
            day_in_range(self@),
    {
        proof {
            use_type_invariant(self);
        }
        self.days
    }

    /// The date with that year, month and day of the month.
    pub fn from_ymd_opt(year: i32, month: u32, day: u32) -> (r: Option<Date>)
        ensures
            match r {
                Some(d) => is_civil(year as int, month as int, day as int) && d@ == day_number(
                    year as int,
                    month as int,
                    day as int,
                ),
                None => !is_civil(year as int, month as int, day as int) || !day_in_range(
                    day_number(year as int, month as int, day as int),
                ),
            },
    {
        match chrono_from_ymd(year, month, day) {
            Some(n) => Some(Date { days: n }),
            None => None,
        }
    }

    /// The date that a text such as `2026-08-31` stands for.
    pub fn parse(s: &str) -> (r: Option<Date>)
        ensures
            match r {
                Some(d) => date_of_text(s@) == Some(d@),
                None => date_of_text(s@) is None,
            },
            forall|c: Civil|
                is_civil(c.year, c.month, c.day) && 0 <= c.year <= 9999 && s@ == #[trigger] iso_date(
                    c,
                ) ==> r is Some && r->Some_0@ == day_number(c.year, c.month, c.day),
    {
        match chrono_parse(s) {
            Some(n) => {
                assert forall|c: Civil|
                    is_civil(c.year, c.month, c.day) && 0 <= c.year <= 9999 && s@
                        == #[trigger] iso_date(c) implies n == day_number(
                    c.year,
                    c.month,
                    c.day,
                ) by {
                    small_day_fits(c);
                }
                Some(Date { days: n })
            },
            None => None,
        }
    }

    /// Whether both are the same date.
    pub fn is(&self, other: Date) -> (r: bool)
        ensures
            r == (self@ == other@),
    {
        self.days == other.days
    }

    /// Whether this date comes before `other`.
    pub fn before(&self, other: Date) -> (r: bool)
        ensures
            r == (self@ < other@),
    {
        self.days < other.days
    }

    /// The date `n` days later.
    pub fn plus_days(&self, n: i32) -> (r: Date)
        requires
            day_in_range(self@ + n),
        ensures
            r@ == self@ + n,
            day_in_range(self@),
    {
        proof {
            use_type_invariant(self);
        }
        Date { days: self.days + n }
    }

    /// The date `n` days earlier.
    pub fn minus_days(&self, n: i32) -> (r: Date)
        requires
            day_in_range(self@ - n),
        ensures
            r@ == self@ - n,
            day_in_range(self@),
    {
        proof {
            use_type_invariant(self);
        }
        Date { days: self.days - n }
    }

    /// The number of days from `other` to this date.
    pub fn days_since(&self, other: Date) -> (r: i64)
        ensures
            r == self@ - other@,
            day_in_range(self@),
            day_in_range(other@),
    {
        proof {
            use_type_invariant(self);
            use_type_invariant(&other);
        }
        self.days as i64 - other.days as i64
    }

    /// The date `months` months later, or the last day of that month where it is too short.
    pub fn plus_months(&self, months: u32) -> (r: Option<Date>)
        ensures
            match r {
                Some(d) => d@ == months_later(self@, months as int) && day_in_range(d@),
                None => !day_in_range(months_later(self@, months as int)),
            },
    {
        proof {
            use_type_invariant(self);
        }
        match chrono_add_months(self.days, months) {
            Some(n) => Some(Date { days: n }),
            None => None,
        }
    }

    /// The date `months` months earlier, or the last day of that month where it is too short.
    pub fn minus_months(&self, months: u32) -> (r: Option<Date>)
        ensures
            match r {
                Some(d) => d@ == months_later(self@, -(months as int)) && day_in_range(d@),
                None => !day_in_range(months_later(self@, -(months as int))),
            },
    {
        proof {
            use_type_invariant(self);
        }
        match chrono_sub_months(self.days, months) {
            Some(n) => Some(Date { days: n }),
            None => None,
        }
    }

    /// Whether this date is a Saturday or a Sunday.
    pub fn is_weekend(&self) -> (r: bool)
        ensures
            r == (weekday_of(self@) >= 5),
    {
        proof {
            use_type_invariant(self);
        }
        chrono_weekday(self.days) >= 5
    }

    /// This date as in `Mon 31 Aug`.
    pub fn short_text(&self) -> (r: String)
        ensures
            r@ == short_date(self@),
    {
        proof {
            use_type_invariant(self);
        }
        chrono_format(self.days, "%a %d %b")
    }

    /// This date as in `Mon, 31 Aug 2026`.
    pub fn long_text(&self) -> (r: String)
        ensures
            r@ == long_date(self@),
    {
        proof {
            use_type_invariant(self);
        }
        chrono_format(self.days, "%a, %d %b %Y")
    }
}

// --- times of day --------------------------------------------------------------

/// Ticks to a second: one for each nanosecond of it and of a leap second behind it.
pub const TICKS: u64 = 2_000_000_000;

/// Ticks to a day.
pub const DAY_TICKS: u64 = 172_800_000_000_000;

/// A time of day, in ticks since midnight. A second takes two billion ticks: nanosecond `f` of a
/// second is tick `f`, and nanosecond `f` of the leap second behind it is tick `1_000_000_000 + f`,
/// so that a leap second comes before the next second.
#[derive(Debug, Clone, Copy, PartialEq, Eq, PartialOrd, Ord, Hash)]
pub struct Time {
    ticks: u64,
}

impl View for Time {
    type V = int;

    closed spec fn view(&self) -> int {
        self.ticks as int
    }
}

/// The time of day at that hour, minute and second.
pub open spec fn clock(hour: int, minute: int, second: int) -> int {
    (hour * 3600 + minute * 60 + second) * TICKS
}

/// The hour of a time of day.
pub open spec fn hour_of(t: int) -> int {
    t / TICKS as int / 3600
}

/// The minute of a time of day.
pub open spec fn minute_of(t: int) -> int {
    t / TICKS as int / 60 % 60
}

/// A time of day as in `14:30`.
pub open spec fn clock_text(t: int) -> Seq<char> {
    two_digits(hour_of(t)) + ":"@ + two_digits(minute_of(t))
}

impl Time {
    #[verifier::type_invariant]
    closed spec fn in_range(self) -> bool {
        self.ticks < DAY_TICKS
    }

    /// Midnight, the first time of the day.
    pub fn midnight() -> (r: Time)
        ensures
            r@ == 0,
    {
        Time { ticks: 0 }
    }

    /// The time of day at that hour, minute and second.
    pub fn from_hms_opt(hour: u32, minute: u32, second: u32) -> (r: Option<Time>)
        ensures
            match r {
                Some(t) => hour < 24 && minute < 60 && second < 60 && t@ == clock(
                    hour as int,
                    minute as int,
                    second as int,
                ),
                None => !(hour < 24 && minute < 60 && second < 60),
            },
    {
        if hour < 24 && minute < 60 && second < 60 {
            let secs: u64 = hour as u64 * 3600 + minute as u64 * 60 + second as u64;
            Some(Time { ticks: secs * TICKS })
        } else {
            None
        }
    }

    /// The time of day `secs` seconds and `frac` nanoseconds after midnight; a leap second has a
    /// `frac` of one billion or more.
    pub fn from_parts(secs: u32, frac: u32) -> (r: Option<Time>)
        ensures
            match r {
                Some(t) => secs < 86_400 && frac < TICKS && t@ == secs * TICKS + frac,
                None => !(secs < 86_400 && frac < TICKS),
            },
    {
        if secs < 86_400 && (frac as u64) < TICKS {
            Some(Time { ticks: secs as u64 * TICKS + frac as u64 })
        } else {
            None
        }
    }

    /// The full seconds since midnight.
    pub fn secs(&self) -> (r: u32)
        ensures
            r == self@ / TICKS as int,
            r < 86_400,
            0 <= self@ < DAY_TICKS,
    {
        proof {
            use_type_invariant(self);
        }
        (self.ticks / TICKS) as u32
    }

    /// The nanoseconds since the last full second.
    pub fn frac(&self) -> (r: u32)
        ensures
            r == self@ % TICKS as int,
            r < TICKS,
    {
        (self.ticks % TICKS) as u32
    }

    /// Whether this time comes before `other`.
    pub fn before(&self, other: Time) -> (r: bool)
        ensures
            r == (self@ < other@),
    {
        self.ticks < other.ticks
    }

    /// Whether both are the same time.
    pub fn is(&self, other: Time) -> (r: bool)
        ensures
            r == (self@ == other@),
    {
        self.ticks == other.ticks
    }

    /// This time as in `14:30`.
    pub fn text(&self) -> (r: String)
        ensures
            r@ == clock_text(self@),
    {
        let secs: u64 = self.secs() as u64;
        let mut out = to_two_digits(secs / 3600);
        out.push_str(":");
        out.push_str(to_two_digits(secs / 60 % 60).as_str());
        out
    }
}

// --- times as they are typed ---------------------------------------------------

/// The position from `i` on of the first character that is no digit, or the end.
pub open spec fn separator(s: Seq<char>, i: int) -> int
    decreases s.len() - i,
{
    if i < s.len() && is_digit(s[i]) {
        separator(s, i + 1)
    } else {
        i
    }
}

/// The hour and the minute in a typed time: `1430`, `930`, `14` or `9`, or with one separator
/// `14:30`, `14h30`, `9:05` or `14h`. The minutes have two digits where there are any.
pub open spec fn typed_clock(s: Seq<char>) -> Option<(int, int)> {
    let k = separator(s, 0);
    let n = s.len();
    if k == n {
        if 1 <= n <= 2 {
            Some((digits_value(s) as int, 0))
        } else if 3 <= n <= 4 {
            Some((digits_value(s.take(n - 2)) as int, digits_value(s.skip(n - 2)) as int))
        } else {
            None
        }
    } else if 1 <= k <= 2 && all_digits(s.skip(k + 1)) && (n == k + 1 || n == k + 3) {
        Some((digits_value(s.take(k)) as int, digits_value(s.skip(k + 1)) as int))
    } else {
        None
    }
}

/// The time of day that a typed time stands for, if there is such a time.
pub open spec fn typed_time(input: Seq<char>) -> Option<int> {
    match typed_clock(trimmed(input)) {
        Some((hour, minute)) => if hour < 24 && minute < 60 {
            Some(clock(hour, minute, 0))
        } else {
            None
        },
        None => None,
    }
}

/// What `separator` says of the characters before it and of the one it finds.
pub proof fn separator_facts(s: Seq<char>, i: int)
    requires
        0 <= i <= s.len(),
    ensures
        i <= separator(s, i) <= s.len(),
        forall|j: int| i <= j < separator(s, i) ==> is_digit(#[trigger] s[j]),
        separator(s, i) < s.len() ==> !is_digit(s[separator(s, i)]),
    decreases s.len() - i,
{
    if i < s.len() && is_digit(s[i]) {
        separator_facts(s, i + 1);
    }
}

/// The number that at most two digits stand for.
fn short_number(chars: &Vec<char>, from: usize, to: usize) -> (r: u32)
    requires
        from <= to <= chars@.len(),
        to - from <= 2,
        all_digits(chars@.subrange(from as int, to as int)),
    ensures
        r == digits_value(chars@.subrange(from as int, to as int)),
        r < 100,
{
    let ghost part = chars@.subrange(from as int, to as int);
    reveal_with_fuel(digits_value, 3);
    if to == from {
        0
    } else if to == from + 1 {
        assert(is_digit(part[0]));
        chars[from] as u32 - 48
    } else {
        assert(is_digit(part[0]) && is_digit(part[1]));
        assert(part.drop_last() =~= seq![part[0]]);
        10 * (chars[from] as u32 - 48) + (chars[from + 1] as u32 - 48)
    }
}

/// Parses a reminder time typed by the user: `14:30`, `14h30`, `1430`, `14h` or `14`.
pub fn parse_time(input: &str) -> (r: Option<Time>)
    ensures
        match r {
            Some(t) => typed_time(input@) == Some(t@),
            None => typed_time(input@) is None,
        },
{
    let chars = to_chars(trim(input).as_str());
    let ghost s = chars@;
    let n = chars.len();
    let mut k: usize = 0;
    while k < n && '0' <= chars[k] && chars[k] <= '9'
        invariant
            k <= n == chars@.len(),
            s == chars@,
            separator(s, 0) == separator(s, k as int),
        decreases n - k,
    {
        k += 1;
    }
    proof {
        separator_facts(s, 0);
    }
    let (hour, minute): (u32, u32) = if k == n {
        // "1430" / "930" / "14" / "9"
        if n == 0 || n > 4 {
            return None;
        }
        if n <= 2 {
            assert(s.subrange(0, n as int) =~= s);
            (short_number(&chars, 0, n), 0)
        } else {
            assert(s.subrange(0, n - 2) =~= s.take(n - 2));
            assert(s.subrange(n - 2, n as int) =~= s.skip(n - 2));
            (short_number(&chars, 0, n - 2), short_number(&chars, n - 2, n))
        }
    } else {
        // "14:30" / "14h30" / "9:05" / "14h": minutes must be two digits,
        // so "14:3" is rejected instead of being misread as 01:43.
        if k == 0 || k > 2 || !(n == k + 1 || n == k + 3) {
            return None;
        }
        let ghost rest = s.skip(k + 1);
        let mut i: usize = k + 1;
        while i < n
            invariant
                k + 1 <= i <= n == chars@.len(),
                s == chars@,
                s == trimmed(input@),
                k == separator(s, 0),
                rest == s.skip(k + 1),
                forall|j: int| 0 <= j < i - k - 1 ==> is_digit(#[trigger] rest[j]),
            decreases n - i,
        {
            assert(rest[i - k - 1] == s[i as int]);
            if chars[i] < '0' || chars[i] > '9' {
                assert(!all_digits(rest));
                return None;
            }
            i += 1;
        }
        assert(s.subrange(0, k as int) =~= s.take(k as int));
        assert(s.subrange(k + 1, n as int) =~= rest);
        (short_number(&chars, 0, k), short_number(&chars, k + 1, n))
    };
    Time::from_hms_opt(hour, minute, 0)
}

/// A time of day as it is shown can be typed again: to the minute, it stands for the same time.
pub proof fn shown_time_is_typed_time(t: int)
    requires
        0 <= t < DAY_TICKS,
    ensures
        typed_time(clock_text(t)) == Some(clock(hour_of(t), minute_of(t), 0)),
{
    reveal_strlit(":");
    let s = clock_text(t);
    let (h, m) = (hour_of(t), minute_of(t));
    assert(0 <= h < 24 && 0 <= m < 60);
    assert(s =~= seq![
        digit_char(h / 10),
        digit_char(h % 10),
        ':',
        digit_char(m / 10),
        digit_char(m % 10),
    ]);
    assert(is_digit(s[0]) && is_digit(s[1]) && !is_digit(s[2]) && is_digit(s[3]) && is_digit(s[4]));
    assert(!is_white(s[0]) && !is_white(s[4]));
    assert(trimmed(s) == s);
    reveal_with_fuel(separator, 4);
    assert(separator(s, 0) == 2);
    reveal_with_fuel(digits_value, 3);
    assert(s.take(2) =~= two_digits(h));
    assert(s.skip(3) =~= two_digits(m));
    assert(s.take(2).drop_last() =~= seq![digit_char(h / 10)]);
    assert(s.skip(3).drop_last() =~= seq![digit_char(m / 10)]);
    assert(all_digits(s.skip(3)));
}

// --- moments -------------------------------------------------------------------

/// A date and a time of day as one number that grows with time.
pub open spec fn moment(day: int, ticks: int) -> int {
    day * DAY_TICKS + ticks
}

/// The second and the fraction from which whole seconds are counted off: a leap second counts as
/// the second behind it when going back, as the one before it when going forward.
pub open spec fn counted_from(ticks: int, seconds: int) -> (int, int) {
    let secs = ticks / TICKS as int;
    let frac = ticks % TICKS as int;
    if frac < 1_000_000_000 || seconds == 0 {
        (secs, frac)
    } else if seconds > 0 {
        (secs + 1, frac - 1_000_000_000)
    } else {
        (secs, frac - 1_000_000_000)
    }
}

/// The seconds since day 0 that are left after taking `seconds` off a moment.
pub open spec fn seconds_left(day: int, ticks: int, seconds: int) -> int {
    day * 86_400 + counted_from(ticks, seconds).0 - seconds
}

/// The moment `seconds` seconds before another.
pub open spec fn earlier(day: int, ticks: int, seconds: int) -> int {
    seconds_left(day, ticks, seconds) * TICKS + counted_from(ticks, seconds).1
}

/// Whether the moment `seconds` seconds before another can be represented.
pub open spec fn earlier_in_range(day: int, ticks: int, seconds: int) -> bool {
    MIN_DAY * 86_400 <= seconds_left(day, ticks, seconds) < (MAX_DAY + 1) * 86_400
}

/// `NaiveDateTime - TimeDelta`: the date and time of day, as full seconds and nanoseconds, that
/// many seconds earlier.
#[verifier::external_body]
fn chrono_minus_seconds(day: i32, secs: u32, frac: u32, seconds: i64) -> (r: (i32, u32, u32))
    requires
        day_in_range(day as int),
        secs < 86_400,
        frac < TICKS,
        earlier_in_range(day as int, secs * TICKS + frac, seconds as int),
    ensures
        day_in_range(r.0 as int),
        r.1 < 86_400,
        r.2 < TICKS,
        moment(r.0 as int, r.1 * TICKS + r.2) == earlier(
            day as int,
            secs * TICKS + frac,
            seconds as int,
        ),
{
    let date = chrono::NaiveDate::from_num_days_from_ce_opt(day).unwrap();
    let full = chrono::NaiveTime::from_num_seconds_from_midnight_opt(secs, 0).unwrap();
    let time = chrono::Timelike::with_nanosecond(&full, frac).unwrap();
    let moved = date.and_time(time) - chrono::TimeDelta::seconds(seconds);
    let days = chrono::Datelike::num_days_from_ce(&moved.date());
    (
        days,
        chrono::Timelike::num_seconds_from_midnight(&moved.time()),
        chrono::Timelike::nanosecond(&moved.time()),
    )
}

/// A date and a time of day.
#[derive(Debug, Clone, Copy, PartialEq, Eq)]
pub struct DateTime {
    pub date: Date,
    pub time: Time,
}

impl View for DateTime {
    type V = int;

    open spec fn view(&self) -> int {
        moment(self.date@, self.time@)
    }
}

impl DateTime {
    /// Whether this moment comes before `other`.
    pub fn before(&self, other: DateTime) -> (r: bool)
        ensures
            r == (self@ < other@),
    {
        let a = self.time.secs();
        let b = other.time.secs();
        self.date.before(other.date) || (self.date.is(other.date) && self.time.before(other.time))
    }

    /// The moment `seconds` seconds earlier.
    pub fn minus_seconds(&self, seconds: i64) -> (r: DateTime)
        requires
            earlier_in_range(self.date@, self.time@, seconds as int),
        ensures
            r@ == earlier(self.date@, self.time@, seconds as int),
    {
        let secs = self.time.secs();
        let frac = self.time.frac();
        let day = self.date.day();
        assert(self.time@ == secs * TICKS + frac);
        let (d, s, f) = chrono_minus_seconds(day, secs, frac, seconds);
        DateTime { date: Date { days: d }, time: Time { ticks: s as u64 * TICKS + f as u64 } }
    }

    /// Whether a moment of the same day is later than the one `seconds` seconds before this one. So
    /// many seconds that a signed number cannot hold them reach back before every moment of the
    /// day.
    pub fn reaches_back_to(&self, seconds: u64, at: DateTime) -> (r: bool)
        requires
            self.date@ == at.date@,
            seconds <= i64::MAX ==> earlier_in_range(self.date@, self.time@, seconds as int),
        ensures
            r == (earlier(self.date@, self.time@, seconds as int) < at@),
    {
        proof {
            use_type_invariant(&self.date);
            use_type_invariant(&self.time);
            use_type_invariant(&at.time);
        }
        if seconds <= 0x7fff_ffff_ffff_ffff {
            self.minus_seconds(seconds as i64).before(at)
        } else {
            true
        }
    }
}

} // verus!
