//! The weekly review: the streak, completions per day for the last seven days, what is still open,
//! and the most-postponed tasks.

use vstd::prelude::*;

use crate::app::{App, AppV};
use crate::date::{day_in_range, short_date, Date};
use crate::pages::task_views;
use crate::query::{listed, ref_views, Listed};
use crate::screen::{relative_label, relative_text};
use crate::style::{
    line_view, lines_view, new_line, no_lines, put, put_line, raw, styled, Span, SpanV, Style,
};
use crate::task::{Task, TaskV};
use crate::text::{decimal, join, joined, owned, texts, to_decimal};

verus! {

// --- what is shown -------------------------------------------------------------

/// How many tasks the review names as the most postponed.
pub const MOST_POSTPONED: usize = 3;

/// The age of a task in days.
pub open spec fn age_text(created: int, today: int) -> Seq<char> {
    " ("@ + decimal((today - created) as nat) + "d)"@
}

impl AppV {
    /// The first line of the review: the streak, the completions of the last seven days, with
    /// `average` as how many that is per day, and how many tasks are open.
    pub open spec fn review_head(self, average: Seq<char>) -> Seq<SpanV> {
        let streak = self.store.streak(self.today);
        let done = self.store.done_recently(self.today);
        let open = self.store.open_tasks(self.today).len();
        seq![
            styled(
                "Streak: "@ + decimal(streak) + " day"@ + (if streak == 1 {
                    ""@
                } else {
                    "s"@
                }),
                Style::bold_color(self.theme.today),
            ),
            raw("   ·   "@),
            styled(
                decimal(done) + " done in the last 7 days ("@ + average + "/day)"@,
                Style::in_bold(),
            ),
            raw("   ·   "@),
            styled(
                decimal(open) + " open"@,
                if open > 0 {
                    Style::bold_color(self.theme.age)
                } else {
                    Style::in_bold()
                },
            ),
        ]
    }

    /// A postponed task with its age.
    pub open spec fn postponed_text(self, l: Listed) -> Seq<char> {
        l.task.shown(self.reveal) + age_text(l.task.created, self.today)
    }

    /// The texts of the first postponed tasks among the first `n` of a list, at most as many as
    /// the review names.
    pub open spec fn postponed(self, list: Seq<Listed>, n: int) -> Seq<Seq<char>>
        decreases n,
    {
        if n <= 0 {
            Seq::empty()
        } else {
            let before = self.postponed(list, n - 1);
            if list[n - 1].task.created < self.today && before.len() < MOST_POSTPONED {
                before.push(self.postponed_text(list[n - 1]))
            } else {
                before
            }
        }
    }

    /// The second line of the review: the open tasks that were written down first, before today.
    pub open spec fn review_postponed(self) -> Seq<SpanV> {
        let list = self.store.open_tasks(self.today);
        let names = self.postponed(list, list.len() as int);
        seq![
            styled("Most postponed: "@, Style::in_dim()),
            styled(
                if names.len() == 0 {
                    "nothing — every task was written today or later"@
                } else {
                    joined(names, " · "@)
                },
                Style::in_color(self.theme.age),
            ),
        ]
    }

    /// A completed task in the review.
    pub open spec fn completed_line(self, t: TaskV) -> Seq<SpanV> {
        seq![
            styled("  ✔ "@, Style::in_color(self.theme.done_day)),
            raw(t.shown(self.reveal)),
        ]
    }

    /// An open task of today in the review.
    pub open spec fn open_line(self, t: TaskV) -> Seq<SpanV> {
        let start = seq![raw("  ○ "@), raw(t.shown(self.reveal))];
        if self.today > t.created {
            start.push(styled(age_text(t.created, self.today), Style::in_color(self.theme.age)))
        } else {
            start
        }
    }

    /// The open tasks that the review shows for a day: those of today.
    pub open spec fn review_open(self, date: int) -> Seq<TaskV> {
        if date == self.today {
            self.store.on(date).filter(|t: TaskV| !t.done)
        } else {
            Seq::empty()
        }
    }

    /// The heading of one day of the review.
    pub open spec fn review_day_head(self, date: int) -> Seq<SpanV> {
        let start = seq![
            styled(short_date(date), Style::in_bold()),
            styled(
                " · "@ + relative_text(date, self.today),
                Style::in_color(
                    if date == self.today {
                        self.theme.today
                    } else {
                        self.theme.other_day
                    },
                ),
            ),
            styled(
                "    "@ + decimal(self.store.completed_on(date).len()) + " done"@,
                Style::in_dim(),
            ),
        ];
        let open = self.review_open(date).len();
        if open > 0 {
            start.push(styled(" · "@ + decimal(open) + " open"@, Style::in_color(self.theme.age)))
        } else {
            start
        }
    }

    /// One day of the review: its heading, what was completed on it, and what is open on it.
    pub open spec fn review_day(self, date: int) -> Seq<Seq<SpanV>> {
        seq![self.review_day_head(date)] + self.store.completed_on(date).map_values(
            |t: TaskV| self.completed_line(t),
        ) + self.review_open(date).map_values(|t: TaskV| self.open_line(t))
    }

    /// The last `n` days, today first.
    pub open spec fn review_days(self, n: int) -> Seq<Seq<SpanV>>
        decreases n,
    {
        if n <= 0 {
            Seq::empty()
        } else {
            self.review_days(n - 1) + self.review_day(self.today - (n - 1))
        }
    }

    /// The weekly review; `average` is how many completions there were per day.
    pub open spec fn review(self, average: Seq<char>) -> Seq<Seq<SpanV>> {
        seq![self.review_head(average), self.review_postponed(), Seq::empty()] + self.review_days(7)
    }
}

// --- making it up --------------------------------------------------------------

/// The age of a task in days, which is more than none.
fn age_label(created: Date, today: Date) -> (r: String)
    requires
        created@ < today@,
    ensures
        r@ == age_text(created@, today@),
{
    let mut out = owned(" (");
    out.push_str(to_decimal(today.days_since(created) as u64).as_str());
    out.push_str("d)");
    out
}

impl App {
    /// The first line of the review.
    fn review_head(&self, average: &str) -> (r: Vec<Span>)
        ensures
            line_view(r@) == self@.review_head(average@),
    {
        let stats = self.store.stats(self.today);
        let mut line = new_line();
        let mut text = owned("Streak: ");
        text.push_str(to_decimal(stats.streak as u64).as_str());
        text.push_str(" day");
        text.push_str(
            if stats.streak == 1 {
                ""
            } else {
                "s"
            },
        );
        put(&mut line, text.as_str(), Style::strong(self.theme.today));
        put(&mut line, "   ·   ", Style::plain());
        let mut text = to_decimal(stats.done_last_7_days as u64);
        text.push_str(" done in the last 7 days (");
        text.push_str(average);
        text.push_str("/day)");
        put(&mut line, text.as_str(), Style::bold());
        put(&mut line, "   ·   ", Style::plain());
        let mut text = to_decimal(stats.open as u64);
        text.push_str(" open");
        let style = if stats.open > 0 {
            Style::strong(self.theme.age)
        } else {
            Style::bold()
        };
        put(&mut line, text.as_str(), style);
        assert(line_view(line@) =~= self@.review_head(average@));
        line
    }

    /// The second line of the review.
    fn review_postponed(&self) -> (r: Vec<Span>)
        ensures
            line_view(r@) == self@.review_postponed(),
    {
        let open = self.store.open_tasks(self.today);
        let ghost list = listed(open@);
        let mut names: Vec<String> = Vec::new();
        let mut i: usize = 0;
        assert(texts(names@) =~= self@.postponed(list, 0));
        while i < open.len()
            invariant
                i <= open@.len(),
                list == listed(open@),
                texts(names@) == self@.postponed(list, i as int),
            decreases open@.len() - i,
        {
            let (date, task) = open[i];
            assert(list[i as int] == (Listed { date: date@, task: task@ }));
            assert(texts(names@).len() == names@.len());
            if task.created.before(self.today) && names.len() < MOST_POSTPONED {
                let mut text = self.display_text(task);
                text.push_str(age_label(task.created, self.today).as_str());
                let ghost before = names@;
                names.push(text);
                assert(texts(names@) =~= texts(before).push(self@.postponed_text(list[i as int])));
            }
            i += 1;
        }
        assert(texts(names@).len() == names@.len());
        let mut line = new_line();
        put(&mut line, "Most postponed: ", Style::dim());
        let text = if names.len() == 0 {
            owned("nothing — every task was written today or later")
        } else {
            join(&names, " · ")
        };
        put(&mut line, text.as_str(), Style::color(self.theme.age));
        assert(line_view(line@) =~= self@.review_postponed());
        line
    }

    /// A completed task in the review.
    fn completed_line(&self, task: &Task) -> (r: Vec<Span>)
        ensures
            line_view(r@) == self@.completed_line(task@),
    {
        let mut line = new_line();
        put(&mut line, "  ✔ ", Style::color(self.theme.done_day));
        put(&mut line, self.display_text(task).as_str(), Style::plain());
        assert(line_view(line@) =~= self@.completed_line(task@));
        line
    }

    /// An open task of today in the review.
    fn open_line(&self, task: &Task) -> (r: Vec<Span>)
        ensures
            line_view(r@) == self@.open_line(task@),
    {
        let mut line = new_line();
        put(&mut line, "  ○ ", Style::plain());
        put(&mut line, self.display_text(task).as_str(), Style::plain());
        if task.created.before(self.today) {
            let age = age_label(task.created, self.today);
            put(&mut line, age.as_str(), Style::color(self.theme.age));
        }
        assert(line_view(line@) =~= self@.open_line(task@));
        line
    }

    /// The open tasks that the review shows for a day.
    fn review_open(&self, date: Date) -> (r: Vec<&Task>)
        ensures
            ref_views(r@) == self@.review_open(date@),
    {
        let mut open: Vec<&Task> = Vec::new();
        assert(ref_views(open@) =~= Seq::<TaskV>::empty());
        if date.is(self.today) {
            let tasks = self.store.tasks(date);
            let ghost on = task_views(tasks@);
            let ghost keep = |t: TaskV| !t.done;
            let mut i: usize = 0;
            proof {
                reveal(Seq::filter);
                assert(ref_views(open@) =~= on.take(0).filter(keep));
            }
            while i < tasks.len()
                invariant
                    i <= tasks@.len(),
                    on == task_views(tasks@),
                    keep == (|t: TaskV| !t.done),
                    ref_views(open@) == on.take(i as int).filter(keep),
                decreases tasks@.len() - i,
            {
                proof {
                    reveal(Seq::filter);
                    assert(on[i as int] == tasks@[i as int]@);
                    assert(on.take(i + 1).drop_last() =~= on.take(i as int));
                }
                if !tasks[i].done {
                    let ghost before = open@;
                    open.push(&tasks[i]);
                    assert(ref_views(open@) =~= ref_views(before).push(on[i as int]));
                }
                i += 1;
            }
            assert(on.take(on.len() as int) =~= on);
        }
        open
    }

    /// The heading of one day of the review, which has that many tasks done and open.
    fn review_day_head(&self, date: Date, done: usize, open: usize) -> (r: Vec<Span>)
        requires
            done == self@.store.completed_on(date@).len(),
            open == self@.review_open(date@).len(),
        ensures
            line_view(r@) == self@.review_day_head(date@),
    {
        let mut line = new_line();
        put(&mut line, date.short_text().as_str(), Style::bold());
        let mut text = owned(" · ");
        text.push_str(relative_label(date, self.today).as_str());
        let color = if date.is(self.today) {
            self.theme.today
        } else {
            self.theme.other_day
        };
        put(&mut line, text.as_str(), Style::color(color));
        let mut text = owned("    ");
        text.push_str(to_decimal(done as u64).as_str());
        text.push_str(" done");
        put(&mut line, text.as_str(), Style::dim());
        if open > 0 {
            let mut text = owned(" · ");
            text.push_str(to_decimal(open as u64).as_str());
            text.push_str(" open");
            put(&mut line, text.as_str(), Style::color(self.theme.age));
        }
        assert(line_view(line@) =~= self@.review_day_head(date@));
        line
    }

    /// Puts one day behind the review.
    fn put_review_day(&self, lines: &mut Vec<Vec<Span>>, date: Date)
        ensures
            lines_view(final(lines)@) == lines_view(old(lines)@) + self@.review_day(date@),
    {
        let done = self.store.completed_on(date);
        let open = self.review_open(date);
        let ghost before = lines_view(lines@);
        let ghost done_views = self@.store.completed_on(date@);
        let ghost open_views = self@.review_open(date@);
        let ghost done_lines = done_views.map_values(|t: TaskV| self@.completed_line(t));
        let ghost open_lines = open_views.map_values(|t: TaskV| self@.open_line(t));
        proof {
            assert(ref_views(done@).len() == done@.len());
            assert(ref_views(open@).len() == open@.len());
        }
        put_line(lines, self.review_day_head(date, done.len(), open.len()));
        let ghost headed = lines_view(lines@);
        let mut i: usize = 0;
        assert(headed =~= headed + done_lines.take(0));
        while i < done.len()
            invariant
                i <= done@.len() == done_lines.len(),
                done_views == ref_views(done@),
                done_lines == done_views.map_values(|t: TaskV| self@.completed_line(t)),
                lines_view(lines@) == headed + done_lines.take(i as int),
            decreases done@.len() - i,
        {
            assert(done_views[i as int] == done@[i as int]@);
            put_line(lines, self.completed_line(done[i]));
            assert(done_lines.take(i + 1) =~= done_lines.take(i as int).push(
                done_lines[i as int],
            ));
            assert(lines_view(lines@) =~= headed + done_lines.take(i + 1));
            i += 1;
        }
        assert(done_lines.take(done_lines.len() as int) =~= done_lines);
        let ghost filled = lines_view(lines@);
        let mut k: usize = 0;
        assert(filled =~= filled + open_lines.take(0));
        while k < open.len()
            invariant
                k <= open@.len() == open_lines.len(),
                open_views == ref_views(open@),
                open_lines == open_views.map_values(|t: TaskV| self@.open_line(t)),
                lines_view(lines@) == filled + open_lines.take(k as int),
            decreases open@.len() - k,
        {
            assert(open_views[k as int] == open@[k as int]@);
            put_line(lines, self.open_line(open[k]));
            assert(open_lines.take(k + 1) =~= open_lines.take(k as int).push(
                open_lines[k as int],
            ));
            assert(lines_view(lines@) =~= filled + open_lines.take(k + 1));
            k += 1;
        }
        assert(open_lines.take(open_lines.len() as int) =~= open_lines);
        assert(lines_view(lines@) =~= before + self@.review_day(date@));
    }

    /// The weekly review; `average` is how many completions there were per day.
    pub fn review(&self, average: &str) -> (r: Vec<Vec<Span>>)
        requires
            day_in_range(self@.today - 6),
        ensures
            lines_view(r@) == self@.review(average@),
    {
        let mut lines = no_lines();
        put_line(&mut lines, self.review_head(average));
        put_line(&mut lines, self.review_postponed());
        put_line(&mut lines, new_line());
        let ghost head = lines_view(lines@);
        let today = self.today.day();
        let mut i: i32 = 0;
        assert(head =~= head + self@.review_days(0));
        while i < 7
            invariant
                0 <= i <= 7,
                day_in_range(self@.today),
                day_in_range(self@.today - 6),
                lines_view(lines@) == head + self@.review_days(i as int),
            decreases 7 - i,
        {
            let date = self.today.minus_days(i);
            self.put_review_day(&mut lines, date);
            assert(head + (self@.review_days(i as int) + self@.review_day(date@)) =~= (head
                + self@.review_days(i as int)) + self@.review_day(date@));
            i += 1;
        }
        assert(lines_view(lines@) =~= self@.review(average@));
        lines
    }
}

} // verus!
