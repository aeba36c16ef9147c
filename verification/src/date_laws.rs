//! What holds of the calendar: every day has exactly one date, and months lie behind each other.

use vstd::prelude::*;

use crate::date::{
    civil, day_in_range, day_number, days_before_month, days_before_year, days_in_month, earlier,
    is_civil, leap_year, moment, months_later, names_day, weekday_of, Civil, DAY_TICKS, MAX_DAY,
};
use crate::task::Repeat;

verus! {

/// A year has 365 days, or 366.
pub proof fn year_length(year: int)
    ensures
        days_before_year(year + 1) == days_before_year(year) + days_before_month(year, 13),
        days_before_month(year, 13) == (if leap_year(year) {
            366int
        } else {
            365int
        }),
{
    assert(days_before_month(year, 13) == (if leap_year(year) {
        366int
    } else {
        365int
    })) by {
        reveal_with_fuel(days_before_month, 14);
    }
    step_in_fours(year);
    step_in_hundreds(year);
    step_in_four_hundreds(year);
    nested_cycles(year);
}

/// A step to the next year is one to the next four years where it is the fourth.
proof fn step_in_fours(year: int)
    ensures
        year / 4 - (year - 1) / 4 == (if year % 4 == 0 {
            1int
        } else {
            0int
        }),
{
}

/// A step to the next year is one to the next century where it is the hundredth.
proof fn step_in_hundreds(year: int)
    ensures
        year / 100 - (year - 1) / 100 == (if year % 100 == 0 {
            1int
        } else {
            0int
        }),
{
}

/// A step to the next year is one to the next four centuries where it is the four hundredth.
proof fn step_in_four_hundreds(year: int)
    ensures
        year / 400 - (year - 1) / 400 == (if year % 400 == 0 {
            1int
        } else {
            0int
        }),
{
}

/// A four hundredth year is a hundredth one, and that is a fourth one.
proof fn nested_cycles(year: int)
    ensures
        year % 400 == 0 ==> year % 100 == 0,
        year % 100 == 0 ==> year % 4 == 0,
{
}

/// Later years begin later.
proof fn years_grow(a: int, b: int)
    requires
        a <= b,
    ensures
        days_before_year(a) <= days_before_year(b),
    decreases b - a,
{
    if a < b {
        years_grow(a, b - 1);
        year_length(b - 1);
    }
}

/// Later months begin later, and all of them begin within the year.
proof fn months_grow(year: int, a: int, b: int)
    requires
        1 <= a <= b <= 13,
    ensures
        0 <= days_before_month(year, a) <= days_before_month(year, b),
    decreases b,
{
    if a < b {
        months_grow(year, a, b - 1);
    } else if a > 1 {
        months_grow(year, a - 1, a - 1);
    }
}

/// A day has at most one date.
pub proof fn one_date_a_day(a: Civil, b: Civil, n: int)
    requires
        names_day(a, n),
        names_day(b, n),
    ensures
        a == b,
{
    if earlier_date(a, b) {
        date_order(a, b);
    } else if earlier_date(b, a) {
        date_order(b, a);
    }
}

/// Whether date `a` comes before date `b`, by year, month and day of the month.
pub open spec fn earlier_date(a: Civil, b: Civil) -> bool {
    a.year < b.year || (a.year == b.year && (a.month < b.month || (a.month == b.month && a.day
        < b.day)))
}

/// The days of two dates are in the order of the dates.
pub proof fn date_order(a: Civil, b: Civil)
    requires
        is_civil(a.year, a.month, a.day),
        is_civil(b.year, b.month, b.day),
        earlier_date(a, b),
    ensures
        day_number(a.year, a.month, a.day) < day_number(b.year, b.month, b.day),
{
    months_grow(a.year, a.month, a.month);
    months_grow(b.year, b.month, b.month);
    if a.year < b.year {
        years_grow(a.year + 1, b.year);
        year_length(a.year);
        months_grow(a.year, a.month + 1, 13);
    } else if a.month < b.month {
        months_grow(a.year, a.month + 1, b.month);
    }
}

/// The date of the day after.
proof fn date_after(c: Civil, n: int) -> (next: Civil)
    requires
        names_day(c, n),
    ensures
        names_day(next, n + 1),
{
    if c.day < days_in_month(c.year, c.month) {
        Civil { year: c.year, month: c.month, day: c.day + 1 }
    } else if c.month < 12 {
        Civil { year: c.year, month: c.month + 1, day: 1 }
    } else {
        year_length(c.year);
        Civil { year: c.year + 1, month: 1, day: 1 }
    }
}

/// The date of the day before.
proof fn date_before(c: Civil, n: int) -> (last: Civil)
    requires
        names_day(c, n),
    ensures
        names_day(last, n - 1),
{
    if c.day > 1 {
        Civil { year: c.year, month: c.month, day: c.day - 1 }
    } else if c.month > 1 {
        Civil {
            year: c.year,
            month: c.month - 1,
            day: days_in_month(c.year, c.month - 1),
        }
    } else {
        year_length(c.year - 1);
        Civil { year: c.year - 1, month: 12, day: 31 }
    }
}

/// Every day has a date.
pub proof fn every_day_has_a_date(n: int)
    ensures
        names_day(civil(n), n),
    decreases if n < 1 { 1 - n } else { n - 1 },
{
    if n == 1 {
        assert(names_day(Civil { year: 1, month: 1, day: 1 }, n));
    } else if n > 1 {
        every_day_has_a_date(n - 1);
        let c = date_after(civil(n - 1), n - 1);
        assert(names_day(c, n));
    } else {
        every_day_has_a_date(n + 1);
        let c = date_before(civil(n + 1), n + 1);
        assert(names_day(c, n));
    }
}

/// The same day of the next month is later, that of the month before earlier, and no months away
/// is the same day.
pub proof fn months_move_in_their_direction(n: int)
    ensures
        months_later(n, 1) > n,
        months_later(n, -1) < n,
        months_later(n, 0) == n,
{
    every_day_has_a_date(n);
    let c = civil(n);
    let last = |year: int, month: int, day: int|
        if day < days_in_month(year, month) {
            day
        } else {
            days_in_month(year, month)
        };
    assert((c.year * 12 + c.month - 1) / 12 == c.year);
    assert((c.year * 12 + c.month - 1) % 12 == c.month - 1);
    let (y1, m1) = if c.month < 12 {
        (c.year, c.month + 1)
    } else {
        (c.year + 1, 1)
    };
    assert((c.year * 12 + c.month - 1 + 1) / 12 == y1);
    assert((c.year * 12 + c.month - 1 + 1) % 12 == m1 - 1);
    let next = Civil { year: y1, month: m1, day: last(y1, m1, c.day) };
    date_order(c, next);
    let (y0, m0) = if c.month > 1 {
        (c.year, c.month - 1)
    } else {
        (c.year - 1, 12)
    };
    assert((c.year * 12 + c.month - 1 + -1) / 12 == y0);
    assert((c.year * 12 + c.month - 1 + -1) % 12 == m0 - 1);
    let before = Civil { year: y0, month: m0, day: last(y0, m0, c.day) };
    date_order(before, c);
}

/// The next occurrence of a repeating task is later than the task, and never on a weekend where
/// it repeats on weekdays.
pub proof fn next_day_is_later(repeat: Repeat, n: int)
    ensures
        repeat.next_day(n) > n,
        repeat == Repeat::Weekdays ==> weekday_of(repeat.next_day(n)) < 5,
        repeat == Repeat::Weekly ==> weekday_of(repeat.next_day(n)) == weekday_of(n),
{
    match repeat {
        Repeat::Monthly => months_move_in_their_direction(n),
        _ => weekdays_come_around(n),
    }
}

/// The days of the week behind a Saturday and a Sunday, and a week later.
proof fn weekdays_come_around(n: int)
    ensures
        0 <= weekday_of(n + 1) <= 6,
        weekday_of(n + 1) == 5 ==> weekday_of(n + 3) == 0,
        weekday_of(n + 1) == 6 ==> weekday_of(n + 2) == 0,
        weekday_of(n + 7) == weekday_of(n),
{
}

// --- months and weeks ----------------------------------------------------------

/// The months have 31, 28, 31, 30, 31, 30, 31, 31, 30, 31, 30 and 31 days, and in a leap year the
/// second has 29. Every fourth year is a leap year, but of the full hundreds only every fourth.
pub proof fn months_have_their_lengths(year: int)
    ensures
        forall|month: int| #[trigger]
            days_in_month(year, month) == 30 <==> month == 4 || month == 6 || month == 9 || month
                == 11,
        forall|month: int|
            month != 2 && month != 4 && month != 6 && month != 9 && month != 11
                ==> #[trigger] days_in_month(year, month) == 31,
        days_in_month(year, 2) == 29 <==> year % 400 == 0 || (year % 4 == 0 && year % 100 != 0),
        days_in_month(year, 2) == 28 || days_in_month(year, 2) == 29,
{
    nested_cycles(year);
}

/// The day after a date is the next day of its month, and behind the last day of a month the first
/// of the next month, which begins a new year behind the twelfth.
pub proof fn dates_follow_each_other(c: Civil, n: int)
    requires
        names_day(c, n),
    ensures
        c.day < days_in_month(c.year, c.month) ==> names_day(
            Civil { year: c.year, month: c.month, day: c.day + 1 },
            n + 1,
        ),
        c.day == days_in_month(c.year, c.month) && c.month < 12 ==> names_day(
            Civil { year: c.year, month: c.month + 1, day: 1 },
            n + 1,
        ),
        c.day == days_in_month(c.year, c.month) && c.month == 12 ==> names_day(
            Civil { year: c.year + 1, month: 1, day: 1 },
            n + 1,
        ),
{
    year_length(c.year);
}

/// The days of the week follow each other from 0 to 6 and begin anew, and a Monday began the year 1.
pub proof fn weekdays_follow_each_other(n: int)
    ensures
        0 <= weekday_of(n) <= 6,
        weekday_of(n) < 6 ==> weekday_of(n + 1) == weekday_of(n) + 1,
        weekday_of(n) == 6 ==> weekday_of(n + 1) == 0,
        weekday_of(day_number(1, 1, 1)) == 0,
{
}

/// Going some months on from a date leads to the month that many months on, to the same day of the
/// month, or to its last day where it is shorter.
pub proof fn months_later_is_that_month(c: Civil, n: int, months: int)
    requires
        names_day(c, n),
    ensures
        exists|r: Civil|
            #![trigger names_day(r, months_later(n, months))]
            names_day(r, months_later(n, months)) && r.year * 12 + r.month == c.year * 12 + c.month
                + months && r.day <= c.day && (r.day == c.day || r.day == days_in_month(
                r.year,
                r.month,
            )),
{
    every_day_has_a_date(n);
    one_date_a_day(c, civil(n), n);
    let total = c.year * 12 + c.month - 1 + months;
    let year = total / 12;
    let month = total % 12 + 1;
    let last = days_in_month(year, month);
    let r = Civil {
        year,
        month,
        day: if c.day < last {
            c.day
        } else {
            last
        },
    };
    assert(names_day(r, months_later(n, months)));
}

/// The calendar month right after a month: its year and its number.
pub open spec fn month_after(year: int, month: int) -> (int, int) {
    if month == 12 {
        (year + 1, 1)
    } else {
        (year, month + 1)
    }
}

/// A monthly task comes back on the same day of the next calendar month, or on its last day where
/// that month is shorter, as long as that date can be represented.
pub proof fn monthly_is_the_next_month(c: Civil, n: int)
    requires
        names_day(c, n),
        day_in_range(months_later(n, 1)),
    ensures
        ({
            let (year, month) = month_after(c.year, c.month);
            names_day(
                Civil {
                    year,
                    month,
                    day: if c.day <= days_in_month(year, month) {
                        c.day
                    } else {
                        days_in_month(year, month)
                    },
                },
                Repeat::Monthly.next_day(n),
            )
        }),
{
    let (year, month) = month_after(c.year, c.month);
    months_later_is_that_month(c, n, 1);
    let r = choose|r: Civil|
        #![trigger names_day(r, months_later(n, 1))]
        names_day(r, months_later(n, 1)) && r.year * 12 + r.month == c.year * 12 + c.month + 1
            && r.day <= c.day && (r.day == c.day || r.day == days_in_month(r.year, r.month));
    assert(r.year == year && r.month == month);
}

/// The same day of the next month, or its last day, can be represented for all dates but those of the
/// last month of all, and lies from 28 to 31 days ahead.
pub proof fn the_next_month_can_be_represented(c: Civil, n: int)
    requires
        names_day(c, n),
        day_in_range(n),
        n + 31 <= MAX_DAY,
    ensures
        day_in_range(months_later(n, 1)),
        n + 28 <= months_later(n, 1) <= n + 31,
{
    months_later_is_that_month(c, n, 1);
    let r = choose|r: Civil|
        #![trigger names_day(r, months_later(n, 1))]
        names_day(r, months_later(n, 1)) && r.year * 12 + r.month == c.year * 12 + c.month + 1
            && r.day <= c.day && (r.day == c.day || r.day == days_in_month(r.year, r.month));
    let (year, month) = month_after(c.year, c.month);
    assert(r.year == year && r.month == month);
    year_length(c.year);
}

/// A daily task comes back on the next day, a weekly one after seven days, and one for weekdays on
/// the first day behind that is none of the last two of the week.
pub proof fn other_repeats_are_the_next_such_day(n: int)
    ensures
        Repeat::Daily.next_day(n) == n + 1,
        Repeat::Weekly.next_day(n) == n + 7,
        n < Repeat::Weekdays.next_day(n) <= n + 3,
        weekday_of(Repeat::Weekdays.next_day(n)) != 5,
        weekday_of(Repeat::Weekdays.next_day(n)) != 6,
        forall|m: int|
            n < m < Repeat::Weekdays.next_day(n) ==> #[trigger] weekday_of(m) == 5 || weekday_of(m)
                == 6,
{
    assert forall|m: int| n < m < Repeat::Weekdays.next_day(n) implies #[trigger] weekday_of(m) == 5
        || weekday_of(m) == 6 by {
        assert(m == n + 1 || m == n + 2);
    }
}

// --- moments -------------------------------------------------------------------

/// A later time of a day is a later moment, and the moments of a day come before those of the next.
pub proof fn moments_are_in_order(day: int, a: int, b: int)
    requires
        0 <= a < b < DAY_TICKS,
    ensures
        moment(day, a) < moment(day, b),
        moment(day, b) < moment(day + 1, a),
{
}

/// So many seconds before a moment is that many times a second's ticks earlier, where the moment is
/// in no leap second.
pub proof fn earlier_is_that_many_seconds(day: int, ticks: int, seconds: int)
    requires
        0 <= ticks < DAY_TICKS,
        ticks % 2_000_000_000 < 1_000_000_000,
    ensures
        earlier(day, ticks, seconds) == moment(day, ticks) - seconds * 2_000_000_000,
{
}

/// So many seconds before a moment is earlier than it: by that many seconds, or by up to a second less
/// where the moment is in a leap second.
pub proof fn earlier_is_earlier(day: int, ticks: int, seconds: int)
    requires
        0 <= ticks < DAY_TICKS,
        0 < seconds,
    ensures
        earlier(day, ticks, seconds) <= moment(day, ticks) - seconds * 2_000_000_000 + 1_000_000_000,
        earlier(day, ticks, seconds) < moment(day, ticks),
{
}

} // verus!
