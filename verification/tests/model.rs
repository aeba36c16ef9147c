use tui_do_list::date::{parse_time, Date, Time};
use tui_do_list::model::Store;
use tui_do_list::task::{Priority, Repeat};

fn t(h: u32, m: u32) -> Time {
    Time::from_hms_opt(h, m, 0).unwrap()
}

fn d(day: u32) -> Date {
    Date::from_ymd_opt(2026, 8, day).unwrap()
}

fn sep(day: u32) -> Date {
    Date::from_ymd_opt(2026, 9, day).unwrap()
}

fn add(store: &mut Store, date: Date, text: &str) -> usize {
    store.add(date, text.to_string())
}

fn texts(store: &Store, date: Date) -> Vec<&str> {
    store.tasks(date).iter().map(|t| t.text.as_str()).collect()
}

fn drop_day(store: &mut Store, date: Date) {
    store.days.retain(|page| page.date != date);
}

#[test]
fn add_assigns_increasing_ids_and_appends() {
    let mut s = Store::default();
    assert_eq!(add(&mut s, d(31), "a"), 0);
    assert_eq!(add(&mut s, d(31), "b"), 1);
    let tasks = s.tasks(d(31));
    assert_eq!(tasks[0].id, 1);
    assert_eq!(tasks[1].id, 2);
    assert_eq!(tasks[1].created, d(31));
    assert_eq!(s.next_id, 3);
}

#[test]
fn toggle_records_and_clears_completion_date() {
    let mut s = Store::default();
    add(&mut s, d(31), "a");
    assert_eq!(s.toggle(d(31), 0, d(31)), None);
    assert!(s.tasks(d(31))[0].done);
    assert_eq!(s.tasks(d(31))[0].completed, Some(d(31)));
    s.toggle(d(31), 0, d(31));
    assert!(!s.tasks(d(31))[0].done);
    assert_eq!(s.tasks(d(31))[0].completed, None);
    // Out-of-range index is a no-op, not a panic.
    assert_eq!(s.toggle(d(31), 7, d(31)), None);
}

#[test]
fn remove_then_insert_restores_original_position() {
    let mut s = Store::default();
    for t in ["a", "b", "c"] {
        add(&mut s, d(31), t);
    }
    let removed = s.remove(d(31), 1).unwrap();
    assert_eq!(texts(&s, d(31)), ["a", "c"]);
    assert!(s.remove(d(31), 5).is_none());
    assert_eq!(s.insert(d(31), 1, removed), 1);
    assert_eq!(texts(&s, d(31)), ["a", "b", "c"]);
    // Insert index beyond the end is clamped.
    let last = s.remove(d(31), 0).unwrap();
    assert_eq!(s.insert(d(31), 99, last), 2);
    assert_eq!(texts(&s, d(31)), ["b", "c", "a"]);
}

#[test]
fn move_task_between_days_keeps_created_date() {
    let mut s = Store::default();
    add(&mut s, d(30), "a");
    add(&mut s, d(31), "b");
    assert_eq!(s.move_task(d(30), 0, d(31)), Some(1));
    assert!(!s.has_page(d(30)));
    assert_eq!(texts(&s, d(31)), ["b", "a"]);
    assert_eq!(s.tasks(d(31))[1].created, d(30));
    assert_eq!(s.move_task(d(31), 9, sep(1)), None);
}

#[test]
fn move_up_down_respect_bounds() {
    let mut s = Store::default();
    for t in ["a", "b", "c"] {
        add(&mut s, d(31), t);
    }
    assert_eq!(s.move_up(d(31), 0), 0);
    assert_eq!(s.move_down(d(31), 2), 2);
    assert_eq!(texts(&s, d(31)), ["a", "b", "c"]);
    assert_eq!(s.move_down(d(31), 0), 1);
    assert_eq!(texts(&s, d(31)), ["b", "a", "c"]);
    assert_eq!(s.move_up(d(31), 2), 1);
    assert_eq!(texts(&s, d(31)), ["b", "c", "a"]);
}

#[test]
fn cycle_priority_wraps() {
    let mut s = Store::default();
    add(&mut s, d(31), "a");
    let prio = |s: &Store| s.tasks(d(31))[0].priority;
    assert_eq!(prio(&s), Priority::Plain);
    s.cycle_priority(d(31), 0);
    assert_eq!(prio(&s), Priority::Low);
    s.cycle_priority(d(31), 0);
    assert_eq!(prio(&s), Priority::High);
    s.cycle_priority(d(31), 0);
    assert_eq!(prio(&s), Priority::Plain);
}

#[test]
fn notes_set_and_clear() {
    let mut s = Store::default();
    add(&mut s, d(31), "a");
    s.set_note(d(31), 0, "  call after 3pm ");
    assert_eq!(s.tasks(d(31))[0].note.as_deref(), Some("call after 3pm"));
    s.set_note(d(31), 0, "   ");
    assert_eq!(s.tasks(d(31))[0].note, None);
}

#[test]
fn progress_counts_done_tasks() {
    let mut s = Store::default();
    assert_eq!(s.progress(d(31)), (0, 0));
    add(&mut s, d(31), "a");
    add(&mut s, d(31), "b");
    s.toggle(d(31), 1, d(31));
    assert_eq!(s.progress(d(31)), (1, 2));
}

#[test]
fn parse_time_accepts_common_formats() {
    for (input, expected) in [
        ("14:30", t(14, 30)),
        (" 9:05 ", t(9, 5)),
        ("14h30", t(14, 30)),
        ("14H", t(14, 0)),
        ("1430", t(14, 30)),
        ("930", t(9, 30)),
        ("9", t(9, 0)),
        ("00:00", t(0, 0)),
        ("23:59", t(23, 59)),
    ] {
        assert_eq!(parse_time(input), Some(expected), "input {input:?}");
    }
    for input in [
        "", "   ", "24:00", "12:60", "abc", "1:2:3", "14:30pm", "123456", "14:3", "10:5", "14h3",
        "1:305", ":30",
    ] {
        assert_eq!(parse_time(input), None, "input {input:?}");
    }
}

#[test]
fn reminders_split_into_overdue_and_upcoming() {
    let mut s = Store::default();
    add(&mut s, d(31), "no reminder");
    add(&mut s, d(31), "late");
    s.set_reminder(d(31), 1, Some(t(9, 0)));
    add(&mut s, d(31), "later");
    s.set_reminder(d(31), 2, Some(t(15, 0)));
    add(&mut s, d(31), "soon");
    s.set_reminder(d(31), 3, Some(t(14, 0)));
    add(&mut s, d(31), "done");
    s.set_reminder(d(31), 4, Some(t(8, 0)));
    s.toggle(d(31), 4, d(31));

    let (overdue, upcoming) = s.reminders(d(31), t(12, 0));
    assert_eq!(overdue.map(|x| x.text.as_str()), Some("late"));
    assert_eq!(upcoming.map(|x| x.text.as_str()), Some("soon"));
    // Exactly at the reminder time counts as due.
    let (overdue, _) = s.reminders(d(31), t(14, 0));
    assert_eq!(overdue.map(|x| x.text.as_str()), Some("late"));
    let (_, upcoming) = s.reminders(d(31), t(23, 0));
    assert!(upcoming.is_none());
    s.set_reminder(d(31), 1, None);
    assert_eq!(s.tasks(d(31))[1].remind, None);
}

#[test]
fn repeat_next_dates() {
    let fri = d(28); // Fri 28 Aug 2026
    assert_eq!(Repeat::Daily.next_date(fri), d(29));
    assert_eq!(Repeat::Weekdays.next_date(fri), d(31)); // skips the weekend
    assert_eq!(Repeat::Weekdays.next_date(d(31)), sep(1));
    assert_eq!(Repeat::Weekly.next_date(fri), sep(4));
    assert_eq!(Repeat::Monthly.next_date(d(31)), sep(30)); // clamps to month end
    assert_eq!(Repeat::cycle(None), Some(Repeat::Daily));
    assert_eq!(Repeat::cycle(Some(Repeat::Monthly)), None);
}

#[test]
fn completing_a_recurring_task_spawns_the_next_occurrence() {
    let mut s = Store::default();
    add(&mut s, d(31), "standup");
    s.set_reminder(d(31), 0, Some(t(9, 30)));
    s.cycle_priority(d(31), 0);
    assert_eq!(s.cycle_repeat(d(31), 0), Some(Repeat::Daily));
    assert_eq!(s.cycle_repeat(d(31), 0), Some(Repeat::Weekdays));

    assert_eq!(s.toggle(d(31), 0, d(31)), Some(sep(1)));
    let next = &s.tasks(sep(1))[0];
    assert_eq!(next.text, "standup");
    assert!(!next.done);
    assert_eq!(next.created, sep(1));
    assert_eq!(next.remind, Some(t(9, 30)));
    assert_eq!(next.priority, Priority::Low);
    assert_eq!(next.repeat, Some(Repeat::Weekdays));
    assert_ne!(next.id, s.tasks(d(31))[0].id);

    // Toggling twice more does not duplicate; un-completing removes it.
    s.toggle(d(31), 0, d(31));
    assert!(!s.has_page(sep(1)));
    s.toggle(d(31), 0, d(31));
    s.toggle(d(31), 0, d(31));
    s.toggle(d(31), 0, d(31));
    assert_eq!(s.tasks(sep(1)).len(), 1);
}

#[test]
fn hidden_flag_toggles_and_is_inherited_by_occurrences() {
    let mut s = Store::default();
    add(&mut s, d(31), "therapy");
    assert!(s.toggle_hidden(d(31), 0));
    assert!(s.tasks(d(31))[0].hidden);
    s.cycle_repeat(d(31), 0); // daily
    s.toggle(d(31), 0, d(31));
    assert!(s.tasks(sep(1))[0].hidden, "spawned occurrence stays hidden");
    assert!(!s.toggle_hidden(d(31), 0));
    assert!(!s.toggle_hidden(d(31), 9), "out of range is a no-op");
}

#[test]
fn untoggle_keeps_a_customized_occurrence() {
    let mut s = Store::default();
    add(&mut s, d(31), "gym");
    s.cycle_repeat(d(31), 0);
    s.toggle(d(31), 0, d(31)); // spawns on Sep 1
    s.set_note(sep(1), 0, "bring towel");
    s.toggle(d(31), 0, d(31)); // un-complete: the customized copy survives
    assert_eq!(s.tasks(sep(1)).len(), 1);
    assert_eq!(s.tasks(sep(1))[0].note.as_deref(), Some("bring towel"));
    // A pristine copy is still cleaned up as before.
    drop_day(&mut s, sep(1));
    s.toggle(d(31), 0, d(31));
    s.toggle(d(31), 0, d(31));
    assert!(!s.has_page(sep(1)));
}

#[test]
fn recurring_toggle_deduplicates_across_carry_over() {
    let open_count = |s: &Store| -> usize {
        s.days
            .iter()
            .flat_map(|page| page.tasks.iter())
            .filter(|t| t.text == "standup" && !t.done)
            .count()
    };
    let mut s = Store::default();
    add(&mut s, d(28), "standup"); // Fri
    s.cycle_repeat(d(28), 0);
    s.toggle(d(28), 0, d(28)); // spawns Sat 29
    assert_eq!(s.tasks(d(29)).len(), 1);
    s.carry_over(d(31)); // Sat's copy is carried to Mon 31
    assert_eq!(open_count(&s), 1);

    // Un-toggle finds the carried copy (not just on the 29th) and removes it.
    s.toggle(d(28), 0, d(28));
    assert_eq!(open_count(&s), 1, "only the un-completed original remains");
    assert!(!s.has_page(d(31)));
    // Re-toggle spawns exactly one open copy again.
    s.toggle(d(28), 0, d(28));
    assert_eq!(open_count(&s), 1);
    // Toggling while the copy sits on a later day must not duplicate.
    s.carry_over(d(31));
    s.toggle(d(28), 0, d(28));
    s.toggle(d(28), 0, d(28));
    assert_eq!(open_count(&s), 1);
}

#[test]
fn sorted_indices_put_overdue_and_high_priority_first() {
    let mut s = Store::default();
    add(&mut s, d(31), "plain"); // 0
    add(&mut s, d(31), "done high"); // 1
    s.cycle_priority(d(31), 1);
    s.cycle_priority(d(31), 1);
    s.toggle(d(31), 1, d(31));
    add(&mut s, d(31), "high"); // 2
    s.cycle_priority(d(31), 2);
    s.cycle_priority(d(31), 2);
    add(&mut s, d(31), "overdue"); // 3
    s.set_reminder(d(31), 3, Some(t(8, 0)));
    add(&mut s, d(31), "later reminder"); // 4
    s.set_reminder(d(31), 4, Some(t(18, 0)));
    add(&mut s, d(31), "low"); // 5
    s.cycle_priority(d(31), 5);

    assert_eq!(s.sorted_indices(d(31), d(31), t(12, 0)), [3, 2, 5, 4, 0, 1]);
}

#[test]
fn search_is_case_insensitive_and_newest_first() {
    let mut s = Store::default();
    add(&mut s, d(28), "Call the Accountant");
    add(&mut s, d(31), "buy milk");
    add(&mut s, d(31), "email");
    s.set_note(d(31), 1, "ask the accountant about VAT");
    assert_eq!(s.search("ACCOUNTANT"), [(d(31), 1), (d(28), 0)]);
    assert_eq!(s.search("milk"), [(d(31), 0)]);
    assert!(s.search("  ").is_empty());
    assert!(s.search("zzz").is_empty());
}

#[test]
fn stats_count_streak_and_recent_completions() {
    let mut s = Store::default();
    for day in [28, 29, 30] {
        add(&mut s, d(day), "x");
        s.toggle(d(day), 0, d(day));
    }
    add(&mut s, d(31), "open since 26");
    s.tasks(d(31)); // today has an open task, so the streak ends yesterday
    let page = s.days.iter_mut().find(|page| page.date == d(31));
    page.unwrap().tasks[0].created = d(26);
    let stats = s.stats(d(31));
    assert_eq!(stats.streak, 3);
    assert_eq!(stats.done_last_7_days, 3);
    assert_eq!(stats.open, 1);
    assert_eq!(s.completed_on(d(29)).len(), 1);
    assert_eq!(s.open_tasks(d(31))[0].1.created, d(26));

    // Finishing today extends the streak to 4.
    s.toggle(d(31), 0, d(31));
    assert_eq!(s.stats(d(31)).streak, 4);
    // A gap breaks it.
    drop_day(&mut s, d(29));
    assert_eq!(s.stats(d(31)).streak, 2);
}

#[test]
fn carry_over_moves_only_undone_past_tasks_to_front_of_today() {
    let mut s = Store::default();
    add(&mut s, d(28), "old-undone");
    add(&mut s, d(28), "old-done");
    s.toggle(d(28), 1, d(28));
    add(&mut s, d(30), "yesterday-undone");
    add(&mut s, d(31), "today-existing");
    add(&mut s, d(31), "today-done");
    s.toggle(d(31), 1, d(31));
    let future = sep(5);
    add(&mut s, future, "future");

    assert_eq!(s.carry_over(d(31)), 2);
    assert_eq!(
        texts(&s, d(31)),
        [
            "old-undone",
            "yesterday-undone",
            "today-existing",
            "today-done"
        ]
    );
    // Past days keep only what was completed; empty days are pruned.
    assert_eq!(texts(&s, d(28)), ["old-done"]);
    assert!(!s.has_page(d(30)));
    // Future planning is untouched, and the original creation date survives.
    assert_eq!(texts(&s, future), ["future"]);
    assert_eq!(s.tasks(d(31))[0].created, d(28));
    // Running it again is a no-op.
    assert_eq!(s.carry_over(d(31)), 0);
}

#[test]
fn carry_over_with_nothing_to_move_does_not_create_today() {
    let mut s = Store::default();
    add(&mut s, d(28), "done");
    s.toggle(d(28), 0, d(28));
    assert_eq!(s.carry_over(d(31)), 0);
    assert!(!s.has_page(d(31)));
}
