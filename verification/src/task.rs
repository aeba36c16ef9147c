//! One task: its priority, how it repeats, and when its reminder is overdue.

use vstd::prelude::*;

use crate::date::{day_in_range, months_later, weekday_of, Date, Time};
use crate::text::owned;

verus! {

/// How much a task matters; a new task is plain, it has no priority.
#[derive(Debug, Clone, Copy, PartialEq, Eq, PartialOrd, Ord, Default, Structural)]
pub enum Priority {
    #[default]
    Plain,
    Low,
    High,
}

impl Priority {
    /// The priority that follows: none, low, high, and none again.
    pub open spec fn following(self) -> Priority {
        match self {
            Priority::Plain => Priority::Low,
            Priority::Low => Priority::High,
            Priority::High => Priority::Plain,
        }
    }

    /// Cycles none → low → high → none.
    pub fn next(self) -> (r: Self)
        ensures
            r == self.following(),
    {
        match self {
            Priority::Plain => Priority::Low,
            Priority::Low => Priority::High,
            Priority::High => Priority::Plain,
        }
    }
}

/// How often a task comes back after it is completed.
#[derive(Debug, Clone, Copy, PartialEq, Eq, Structural)]
pub enum Repeat {
    Daily,
    Weekdays,
    Weekly,
    Monthly,
}

/// The setting that follows: none, daily, weekdays, weekly, monthly, and none again.
pub open spec fn following_repeat(current: Option<Repeat>) -> Option<Repeat> {
    match current {
        None => Some(Repeat::Daily),
        Some(Repeat::Daily) => Some(Repeat::Weekdays),
        Some(Repeat::Weekdays) => Some(Repeat::Weekly),
        Some(Repeat::Weekly) => Some(Repeat::Monthly),
        Some(Repeat::Monthly) => None,
    }
}

impl Repeat {
    /// The word for it.
    pub open spec fn word(self) -> Seq<char> {
        match self {
            Repeat::Daily => "daily"@,
            Repeat::Weekdays => "weekdays"@,
            Repeat::Weekly => "weekly"@,
            Repeat::Monthly => "monthly"@,
        }
    }

    /// The day of the next occurrence after day `n`: the next day; the next day from Monday to
    /// Friday; the same day of the next week; the same day of the next month, or its last day.
    pub open spec fn next_day(self, n: int) -> int {
        match self {
            Repeat::Daily => n + 1,
            Repeat::Weekdays => if weekday_of(n + 1) == 5 {
                n + 3
            } else if weekday_of(n + 1) == 6 {
                n + 2
            } else {
                n + 1
            },
            Repeat::Weekly => n + 7,
            Repeat::Monthly => if day_in_range(months_later(n, 1)) {
                months_later(n, 1)
            } else {
                n + 30
            },
        }
    }

    /// Whether the days that are looked at to find the next occurrence can all be represented.
    pub open spec fn next_in_range(self, n: int) -> bool {
        match self {
            Repeat::Monthly => day_in_range(n + 30),
            _ => day_in_range(self.next_day(n)),
        }
    }

    /// Cycles none → daily → weekdays → weekly → monthly → none.
    pub fn cycle(current: Option<Repeat>) -> (r: Option<Repeat>)
        ensures
            r == following_repeat(current),
    {
        match current {
            None => Some(Repeat::Daily),
            Some(Repeat::Daily) => Some(Repeat::Weekdays),
            Some(Repeat::Weekdays) => Some(Repeat::Weekly),
            Some(Repeat::Weekly) => Some(Repeat::Monthly),
            Some(Repeat::Monthly) => None,
        }
    }

    /// The word for it.
    pub fn label(self) -> (r: &'static str)
        ensures
            r@ == self.word(),
    {
        match self {
            Repeat::Daily => "daily",
            Repeat::Weekdays => "weekdays",
            Repeat::Weekly => "weekly",
            Repeat::Monthly => "monthly",
        }
    }

    /// Whether the days that are looked at to find the next occurrence can all be represented.
    pub fn has_next(self, from: Date) -> (r: bool)
        ensures
            r == self.next_in_range(from@),
    {
        let day = from.day();
        match self {
            Repeat::Daily => Date::from_day(day + 1).is_some(),
            Repeat::Weekdays => match Date::from_day(day + 1) {
                Some(next) => {
                    // A Saturday has a Sunday behind it.
                    let sunday = Date::from_day(day + 2);
                    if !next.is_weekend() {
                        true
                    } else {
                        match sunday {
                            Some(sunday) => if sunday.is_weekend() {
                                Date::from_day(day + 3).is_some()
                            } else {
                                true
                            },
                            None => false,
                        }
                    }
                },
                None => false,
            },
            Repeat::Weekly => Date::from_day(day + 7).is_some(),
            Repeat::Monthly => Date::from_day(day + 30).is_some(),
        }
    }

    /// The date of the next occurrence after `from`.
    pub fn next_date(self, from: Date) -> (r: Date)
        requires
            self.next_in_range(from@),
        ensures
            r@ == self.next_day(from@),
    {
        match self {
            Repeat::Daily => from.plus_days(1),
            Repeat::Weekdays => {
                let mut next = from.plus_days(1);
                while next.is_weekend()
                    invariant
                        from@ < next@ <= Repeat::Weekdays.next_day(from@),
                        day_in_range(Repeat::Weekdays.next_day(from@)),
                        day_in_range(from@),
                    decreases Repeat::Weekdays.next_day(from@) - next@,
                {
                    next = next.plus_days(1);
                }
                next
            },
            Repeat::Weekly => from.plus_days(7),
            Repeat::Monthly => match from.plus_months(1) {
                Some(next) => next,
                None => from.plus_days(30),
            },
        }
    }
}

/// A task as it stands in the list.
#[derive(Debug, PartialEq, Eq)]
pub struct Task {
    pub id: u64,
    pub text: String,
    pub done: bool,
    pub priority: Priority,
    /// The day the task was first written down. Differs from the day it is
    /// listed under once it has been carried over.
    pub created: Date,
    pub completed: Option<Date>,
    /// Time of day to be reminded, shown next to the task and flagged when overdue.
    pub remind: Option<Time>,
    /// Free-text note shown in a panel when the task is selected.
    pub note: Option<String>,
    /// When set, completing the task creates its next occurrence.
    pub repeat: Option<Repeat>,
    /// Screen privacy: the text is masked until revealed. The data file still
    /// stores it in plain text; this is no encryption.
    pub hidden: bool,
}

/// What a task is: its fields, with texts, dates and times by what they hold.
#[verifier::ext_equal]
pub ghost struct TaskV {
    pub id: int,
    pub text: Seq<char>,
    pub done: bool,
    pub priority: Priority,
    pub created: int,
    pub completed: Option<int>,
    pub remind: Option<int>,
    pub note: Option<Seq<char>>,
    pub repeat: Option<Repeat>,
    pub hidden: bool,
}

/// The day of a date that may be missing.
pub open spec fn opt_day(d: Option<Date>) -> Option<int> {
    match d {
        Some(d) => Some(d@),
        None => None,
    }
}

/// The ticks of a time that may be missing.
pub open spec fn opt_time(t: Option<Time>) -> Option<int> {
    match t {
        Some(t) => Some(t@),
        None => None,
    }
}

/// The characters of a text that may be missing.
pub open spec fn opt_text(s: Option<String>) -> Option<Seq<char>> {
    match s {
        Some(s) => Some(s@),
        None => None,
    }
}

impl View for Task {
    type V = TaskV;

    open spec fn view(&self) -> TaskV {
        TaskV {
            id: self.id as int,
            text: self.text@,
            done: self.done,
            priority: self.priority,
            created: self.created@,
            completed: opt_day(self.completed),
            remind: opt_time(self.remind),
            note: opt_text(self.note),
            repeat: self.repeat,
            hidden: self.hidden,
        }
    }
}

/// A copy of a text that may be missing.
pub fn copy_opt_text(s: &Option<String>) -> (r: Option<String>)
    ensures
        opt_text(r) == opt_text(*s),
{
    match s {
        Some(s) => Some(owned(s.as_str())),
        None => None,
    }
}

impl Clone for Task {
    fn clone(&self) -> (r: Self)
        ensures
            r@ == self@,
    {
        Task {
            id: self.id,
            text: owned(self.text.as_str()),
            done: self.done,
            priority: self.priority,
            created: self.created,
            completed: self.completed,
            remind: self.remind,
            note: copy_opt_text(&self.note),
            repeat: self.repeat,
            hidden: self.hidden,
        }
    }
}

/// What a hidden task's text is shown as while masked.
pub const MASK: &'static str = "••••••••";

impl TaskV {
    /// Whether the reminder time has passed without the task being done.
    pub open spec fn overdue(self, listed: int, today: int, now: int) -> bool {
        !self.done && self.remind is Some && (listed < today || (listed == today
            && self.remind->Some_0 <= now))
    }

    /// The task's text, or the mask if it is hidden and hidden tasks are not shown.
    pub open spec fn shown(self, reveal: bool) -> Seq<char> {
        if self.hidden && !reveal {
            MASK@
        } else {
            self.text
        }
    }
}

impl Task {
    /// True when the reminder time has passed without the task being done.
    pub fn is_overdue(&self, listed: Date, today: Date, now: Time) -> (r: bool)
        ensures
            r == self@.overdue(listed@, today@, now@),
    {
        !self.done && match self.remind {
            Some(r) => listed.before(today) || (listed.is(today) && !now.before(r)),
            None => false,
        }
    }

    /// The task's text, or the mask if it is hidden and hidden tasks are not shown.
    pub fn shown_text(&self, reveal: bool) -> (r: String)
        ensures
            r@ == self@.shown(reveal),
    {
        if self.hidden && !reveal {
            owned(MASK)
        } else {
            owned(self.text.as_str())
        }
    }
}

} // verus!
