use std::path::PathBuf;

use tui_do_list::app::{App, ListSlot, Mode};
use tui_do_list::date::{Date, Time};
use tui_do_list::editor::{Editor, Target};
use tui_do_list::keys::{KeyCode, KeyEvent};
use tui_do_list::model::Store;
use tui_do_list::pages::Page;
use tui_do_list::style::Span;
use tui_do_list::task::Repeat;

fn d(day: u32) -> Date {
    Date::from_ymd_opt(2026, 8, day).unwrap()
}

fn sep(day: u32) -> Date {
    Date::from_ymd_opt(2026, 9, day).unwrap()
}

fn t(h: u32, m: u32) -> Time {
    Time::from_hms_opt(h, m, 0).unwrap()
}

fn press(app: &mut App, code: KeyCode) -> bool {
    app.handle_key(KeyEvent { code, control: false })
}

fn type_text(app: &mut App, text: &str) {
    for c in text.chars() {
        press(app, KeyCode::Char(c));
    }
}

fn filled() -> Store {
    let mut s = Store::default();
    for (day, text) in [(28, "old"), (28, "older"), (30, "late"), (31, "now"), (31, "soon")] {
        s.add(d(day), text.to_string());
    }
    s.toggle(d(28), 1, d(29));
    s.cycle_priority(d(31), 1);
    s.set_reminder(d(31), 1, Some(t(14, 30)));
    s
}

fn copy(store: &Store) -> Vec<Page> {
    store
        .days
        .iter()
        .map(|p| Page { date: p.date, tasks: p.tasks.clone() })
        .collect()
}

fn ids(store: &Store) -> Vec<u64> {
    let mut ids: Vec<u64> = store.days.iter().flat_map(|p| p.tasks.iter().map(|t| t.id)).collect();
    ids.sort();
    ids
}

fn plain(line: &[Span]) -> String {
    line.iter().map(|span| span.text.as_str()).collect()
}

fn screen(app: &App) -> String {
    let mut out = plain(&app.header());
    for row in app.list_or_message().unwrap_or_default() {
        out.push_str(&plain(&row));
    }
    for row in app.review("0.0") {
        out.push_str(&plain(&row));
    }
    out.push_str(&app.footer().text);
    out.push_str(&app.progress_line().text);
    out.push_str(&app.shown_note().unwrap_or_default());
    out
}

#[test]
fn carrying_over_keeps_every_task() {
    let mut s = filled();
    let before = ids(&s);
    assert_eq!(s.carry_over(d(31)), 2);
    assert_eq!(ids(&s), before);
    let after = copy(&s);
    assert_eq!(s.carry_over(d(31)), 0);
    assert_eq!(copy(&s), after);
}

#[test]
fn numbers_are_never_given_twice() {
    let mut s = filled();
    let gone = s.remove(d(31), 0).unwrap();
    s.add(d(31), "new".to_string());
    s.insert(d(31), 0, gone);
    s.cycle_repeat(d(31), 0);
    s.toggle(d(31), 0, d(31));
    let mut ids = ids(&s);
    assert!(ids.iter().all(|id| *id < s.next_id));
    let n = ids.len();
    ids.dedup();
    assert_eq!(ids.len(), n);
}

#[test]
fn cycling_comes_back() {
    let mut s = filled();
    let before = copy(&s);
    for _ in 0..3 {
        s.cycle_priority(d(31), 1);
    }
    for _ in 0..5 {
        s.cycle_repeat(d(31), 1);
    }
    s.toggle_hidden(d(31), 1);
    s.toggle_hidden(d(31), 1);
    s.move_down(d(31), 0);
    s.move_up(d(31), 1);
    let removed = s.remove(d(28), 0).unwrap();
    s.insert(d(28), 0, removed);
    s.toggle(d(30), 0, d(31));
    s.toggle(d(30), 0, d(31));
    assert_eq!(copy(&s), before);
}

#[test]
fn moving_a_task_moves_only_that_task() {
    let mut s = filled();
    let moved = s.tasks(d(28))[0].clone();
    assert_eq!(s.move_task(d(28), 0, d(31)), Some(2));
    assert_eq!(s.tasks(d(31))[2], moved);
    assert_eq!(s.tasks(d(28)).len(), 1);
    assert_eq!(s.tasks(d(30)).len(), 1);
    // On its own day a task goes to the end.
    assert_eq!(s.move_task(d(31), 0, d(31)), Some(2));
    assert_eq!(s.tasks(d(31))[2].text, "now");
}

#[test]
fn completing_and_reopening_a_repeating_task_leaves_no_copy() {
    let mut s = filled();
    s.cycle_repeat(d(31), 1);
    let before = copy(&s);
    assert_eq!(s.toggle(d(31), 1, d(31)), Some(sep(1)));
    assert_eq!(s.tasks(sep(1)).len(), 1);
    assert_eq!(s.tasks(sep(1))[0].remind, Some(t(14, 30)));
    s.toggle(d(31), 1, d(31));
    assert_eq!(copy(&s), before);
}

#[test]
fn occurrences_are_later_and_skip_weekends_on_weekdays() {
    let mut date = d(1);
    for _ in 0..400 {
        for repeat in [Repeat::Daily, Repeat::Weekdays, Repeat::Weekly, Repeat::Monthly] {
            let next = repeat.next_date(date);
            assert!(date.before(next));
            if repeat == Repeat::Weekdays {
                assert!(!next.is_weekend());
            }
        }
        date = date.plus_days(1);
    }
}

#[test]
fn completions_of_a_week_add_up() {
    let mut s = Store::default();
    for day in [24, 25, 25, 28, 31] {
        let idx = s.add(d(day), "x".to_string());
        s.toggle(d(day), idx, d(day));
    }
    let each: usize = (25..=31).map(|day| s.completed_on(d(day)).len()).sum();
    assert_eq!(each, 4);
    assert_eq!(s.stats(d(31)).done_last_7_days, 4);
    assert_eq!(s.stats(d(31)).streak, 1);
    assert_eq!(s.stats(sep(2)).streak, 0);
}

#[test]
fn open_tasks_come_oldest_first() {
    let mut s = filled();
    s.add(sep(3), "future".to_string());
    s.carry_over(d(31));
    let open: Vec<&str> = s.open_tasks(d(31)).iter().map(|(_, t)| t.text.as_str()).collect();
    assert_eq!(open, ["old", "late", "now", "soon"]);
}

#[test]
fn deleting_and_undoing_restores_every_day() {
    let mut app = App::new(filled(), d(31));
    let before = copy(&app.store);
    press(&mut app, KeyCode::Char('j'));
    assert!(press(&mut app, KeyCode::Char('d')));
    press(&mut app, KeyCode::Char('h'));
    assert!(press(&mut app, KeyCode::Char('u')));
    assert_eq!(copy(&app.store), before);
    assert_eq!(app.date, d(31));
    assert_eq!(app.selected_task(), Some(1));
}

#[test]
fn views_change_no_task() {
    let mut app = App::new(filled(), d(31));
    let before = copy(&app.store);
    for key in ['s', 'f', 'v', '|', 'h', 'l', 't', 'j', 'k', 'g', 'G', '?'] {
        assert!(!press(&mut app, KeyCode::Char(key)), "{key}");
        press(&mut app, KeyCode::Esc);
        assert!(app.selected_task().is_some() || app.visible_len() == 0, "{key}");
    }
    assert_eq!(copy(&app.store), before);
}

#[test]
fn the_focus_view_shows_every_open_task_once() {
    let mut app = App::new(filled(), d(31));
    press(&mut app, KeyCode::Char(' '));
    press(&mut app, KeyCode::Char('s'));
    let mut all = app.visible();
    all.sort();
    assert_eq!(all, [0, 1, 2, 3]);
    press(&mut app, KeyCode::Char('f'));
    let mut open = app.visible();
    open.sort();
    assert_eq!(open, [1, 2, 3]);
}

#[test]
fn what_is_masked_does_not_show() {
    let shown = |text: &str, note: &str| {
        let mut s = Store::default();
        s.add(d(30), text.to_string());
        s.set_note(d(30), 0, note);
        s.set_reminder(d(30), 0, Some(t(8, 0)));
        s.toggle_hidden(d(30), 0);
        let mut app = App::new(s, d(31));
        app.tick(t(9, 0));
        let rung = app.status.clone().unwrap();
        app.status = None;
        let mut out = screen(&app);
        press(&mut app, KeyCode::Char('/'));
        type_text(&mut app, "therapy");
        out.push_str(&app.search_rows().unwrap_err());
        press(&mut app, KeyCode::Esc);
        app.confirm_delete = true;
        press(&mut app, KeyCode::Char('d'));
        out.push_str(&app.footer().text);
        press(&mut app, KeyCode::Char('y'));
        out.push_str(&app.footer().text);
        out + &rung
    };
    let one = shown("therapy", "Dr. Silva");
    assert_eq!(one, shown("gym", "towel"));
    assert!(one.contains("••••••••"));
    assert!(!one.contains("therapy"));
}

#[test]
fn lists_keep_their_cycle() {
    let slot = |name: &str| ListSlot {
        name: name.to_string(),
        path: PathBuf::from(format!("/tmp/{name}.json")),
        store: Store::default(),
    };
    let mut app = App::with_lists(vec![slot("a"), slot("b"), slot("c"), slot("d")], d(31));
    assert!(app.switch_list_to(2));
    assert_eq!(app.list_names(), ["c", "d", "a", "b"]);
    assert!(!app.switch_list_to(0));
    assert!(!app.switch_list_to(4));
    assert!(app.switch_list());
    assert_eq!(app.list_names(), ["d", "a", "b", "c"]);
    app.add_list("e".to_string(), PathBuf::from("/tmp/e.json"), Store::default());
    assert_eq!(app.list_names(), ["e", "a", "b", "c", "d"]);
    assert_eq!(app.path, PathBuf::from("/tmp/e.json"));
    assert_eq!(app.all_lists().len(), 5);
}

#[test]
fn erasing_takes_back_what_was_typed() {
    let mut editor = Editor::new("café", Target::NewTask);
    editor.handle(KeyEvent { code: KeyCode::Left, control: false });
    editor.handle(KeyEvent { code: KeyCode::Char('☕'), control: false });
    assert_eq!(editor.text(), "caf☕é");
    editor.handle(KeyEvent { code: KeyCode::Backspace, control: false });
    assert_eq!(editor.text(), "café");
    assert_eq!(editor.cursor, 3);
    editor.handle(KeyEvent { code: KeyCode::Delete, control: false });
    editor.handle(KeyEvent { code: KeyCode::Delete, control: false });
    editor.handle(KeyEvent { code: KeyCode::Right, control: false });
    assert_eq!(editor.text(), "caf");
    assert_eq!(editor.cursor, 3);
}

#[test]
fn reminders_ring_once_and_together() {
    let mut s = Store::default();
    for text in ["a", "b"] {
        let idx = s.add(d(31), text.to_string());
        s.set_reminder(d(31), idx, Some(t(10, 0)));
    }
    let mut app = App::new(s, d(31));
    app.tick(t(10, 0));
    assert_eq!(app.status.as_deref(), Some("⏰ Reminder: a, b"));
    app.status = None;
    app.tick(t(10, 0));
    assert_eq!(app.status, None);
}

#[test]
fn control_c_quits_the_task_list_and_types_nothing() {
    let control_c = KeyEvent { code: KeyCode::Char('c'), control: true };
    let mut app = App::new(Store::default(), d(31));
    press(&mut app, KeyCode::Char('a'));
    app.handle_key(control_c);
    assert!(!app.quit);
    assert!(matches!(&app.mode, Mode::Insert(editor) if editor.text().is_empty()));
    press(&mut app, KeyCode::Esc);
    app.handle_key(control_c);
    assert!(app.quit);
}

#[test]
fn keys_that_lead_out_of_range_are_not_accepted() {
    let key = |c| KeyEvent { code: KeyCode::Char(c), control: false };
    let last = Date::from_day(tui_do_list::date::MAX_DAY).unwrap();
    let mut app = App::new(Store::default(), last);
    assert!(app.accepts(key('h')));
    assert!(!app.accepts(key('l')));
    assert!(app.accepts(key('>')));
    press(&mut app, KeyCode::Char('c'));
    assert!(!app.accepts(key('j')));
    assert!(app.accepts(key(']')));
    app.mode = Mode::Help { scroll: u16::MAX };
    assert!(!app.accepts(key('j')));
    assert!(app.accepts(key('k')));
    app.mode = Mode::Normal;
    app.store.add(last, "standup".to_string());
    assert!(app.store.can_toggle(last, 0));
    app.store.cycle_repeat(last, 0);
    assert!(!app.accepts(key(' ')));
    assert!(!Repeat::Monthly.has_next(last.minus_days(29)));
    assert!(Repeat::Monthly.has_next(last.minus_days(30)));
}

#[test]
fn a_number_stays_taken_until_its_task_is_put_back() {
    let mut app = App::new(filled(), d(31));
    press(&mut app, KeyCode::Char('d'));
    press(&mut app, KeyCode::Char('a'));
    type_text(&mut app, "new");
    press(&mut app, KeyCode::Enter);
    press(&mut app, KeyCode::Char('u'));
    let mut all = ids(&app.store);
    assert_eq!(all, [1, 2, 3, 4, 5, 6]);
    all.dedup();
    assert_eq!(all.len(), 6);
}

#[test]
fn every_change_is_reported() {
    let mut app = App::new(filled(), d(31));
    let keys = "ja h\nst jJ p R\u{20}fv?q:w\nd>uH nnote\nr9\n/gro\nK";
    let mut before = copy(&app.store);
    for c in keys.chars() {
        let code = if c == '\n' { KeyCode::Enter } else { KeyCode::Char(c) };
        let reported = press(&mut app, code);
        let after = copy(&app.store);
        assert!(reported || after == before, "{c:?}");
        before = after;
    }
}

#[test]
fn a_carried_reminder_rings_again_the_next_day() {
    let mut s = Store::default();
    s.add(d(30), "take medication".to_string());
    s.set_reminder(d(30), 0, Some(t(9, 0)));
    let mut app = App::new(s, d(30));
    app.tick(t(9, 30));
    assert_eq!(app.status.as_deref(), Some("⏰ Reminder: take medication"));
    app.tick(t(0, 0));
    app.check_date_rollover(d(31));
    app.status = None;
    app.tick(t(8, 59));
    assert_eq!(app.status, None);
    app.tick(t(9, 0));
    assert_eq!(app.status.as_deref(), Some("⏰ Reminder: take medication"));
}

#[test]
fn uncompleting_keeps_a_copy_that_was_hidden() {
    let mut s = Store::default();
    s.add(d(31), "gym".to_string());
    s.cycle_repeat(d(31), 0);
    s.toggle(d(31), 0, d(31));
    assert!(s.toggle_hidden(sep(1), 0));
    assert_eq!(s.toggle(d(31), 0, d(31)), None);
    assert_eq!(s.tasks(sep(1)).len(), 1);
    assert!(s.tasks(sep(1))[0].hidden);
    // As it was made, it is removed again.
    s.toggle_hidden(sep(1), 0);
    s.toggle(d(31), 0, d(31));
    s.toggle(d(31), 0, d(31));
    assert!(!s.has_page(sep(1)));
}

#[test]
fn the_selection_follows_a_task_that_is_moved_in_the_focus_view() {
    let mut s = Store::default();
    for text in ["done", "open", "other"] {
        s.add(d(31), text.to_string());
    }
    s.toggle(d(31), 0, d(31));
    let mut app = App::new(s, d(31));
    app.hide_done = true;
    assert_eq!(app.selected_task(), Some(1));
    assert!(press(&mut app, KeyCode::Char('K')));
    assert_eq!(app.store.tasks(d(31))[0].text, "open");
    assert_eq!(app.selected_task(), Some(0));
    assert!(press(&mut app, KeyCode::Char('J')));
    assert!(press(&mut app, KeyCode::Char('J')));
    assert_eq!(app.store.tasks(d(31))[2].text, "open");
    assert_eq!(app.selected, 1);
    assert_eq!(app.selected_task(), Some(2));
    // At the end it stays where it is.
    assert!(press(&mut app, KeyCode::Char('J')));
    assert_eq!(app.selected_task(), Some(2));
}

#[test]
fn a_streak_may_end_yesterday_with_everything_done() {
    let mut s = Store::default();
    s.add(d(31), "early".to_string());
    s.toggle(d(31), 0, d(30));
    assert_eq!(s.stats(d(31)).streak, 1);
    s.add(d(31), "today".to_string());
    s.toggle(d(31), 1, d(31));
    assert_eq!(s.stats(d(31)).streak, 2);
}

#[test]
fn a_clone_holds_the_same() {
    let mut s = filled();
    let before = copy(&s);
    let mut other = s.clone();
    assert_eq!(copy(&other), before);
    assert_eq!((other.version, other.next_id), (s.version, s.next_id));
    other.add(d(31), "more".to_string());
    assert_eq!(copy(&s), before);
    s.prune();
    assert_eq!(copy(&s), before);
}

#[test]
fn the_screen_is_the_same_in_every_mode_while_masked() {
    let shown = |text: &str, note: &str| {
        let secret = |day: u32| {
            let mut s = Store::default();
            s.add(d(day), text.to_string());
            s.set_note(d(day), 0, note);
            s.toggle_hidden(d(day), 0);
            s.add(d(day), "plain therapy".to_string());
            s
        };
        let slot = |name: &str, store: Store| ListSlot {
            name: name.to_string(),
            path: PathBuf::new(),
            store,
        };
        let lists = vec![slot("a", secret(30)), slot("b", secret(31))];
        let mut app = App::with_lists(lists, d(31));
        app.split = true;
        let mut out = screen(&app);
        let (name, rows) = app.side_pane(80).unwrap();
        out.push_str(name);
        for row in rows {
            out.push_str(&plain(&row));
        }
        press(&mut app, KeyCode::Char('/'));
        type_text(&mut app, "therapy");
        for row in app.search_rows().unwrap() {
            out.push_str(&plain(&row));
        }
        press(&mut app, KeyCode::Esc);
        for mark in app.calendar_marks(d(31)) {
            out.push_str(&format!("{} {:?}", mark.julian, mark.style));
        }
        out.push_str(&plain(&app.calendar_info(d(31))));
        for row in app.picker_rows() {
            out.push_str(&plain(&row));
        }
        press(&mut app, KeyCode::Char('>'));
        out + &app.footer().text
    };
    let one = shown("therapy", "Dr. Silva");
    assert_eq!(one, shown("gym", "towel"));
    assert!(one.contains("••••••••") && !one.contains("Silva"));
}

#[test]
fn undoing_selects_the_task_that_was_selected() {
    for sorted in [false, true] {
        let mut app = App::new(filled(), d(31));
        if sorted {
            press(&mut app, KeyCode::Char('s'));
        }
        for row in 0..app.visible_len() {
            press(&mut app, KeyCode::Char('g'));
            for _ in 0..row {
                press(&mut app, KeyCode::Char('j'));
            }
            let (selected, rows) = (app.selected_task(), app.visible());
            assert!(press(&mut app, KeyCode::Char('d')));
            assert_ne!(app.visible(), rows);
            assert!(press(&mut app, KeyCode::Char('u')));
            assert_eq!((app.selected_task(), app.visible()), (selected, rows));
        }
    }
}

#[test]
fn uncompleting_restores_the_pages_and_keeps_the_number() {
    let mut s = filled();
    s.cycle_repeat(d(31), 0);
    s.prune();
    let (days, number) = (copy(&s), s.next_id);
    assert_eq!(s.toggle(d(31), 0, d(31)), Some(sep(1)));
    assert_ne!(copy(&s), days);
    assert_eq!(s.toggle(d(31), 0, d(31)), None);
    assert_eq!(copy(&s), days);
    assert_eq!(s.next_id, number + 1);
}

#[test]
fn completing_needs_no_number_where_a_copy_is_listed() {
    let mut s = filled();
    s.cycle_repeat(d(31), 0);
    s.next_id = u64::MAX;
    assert!(!s.can_toggle(d(31), 0));
    s.next_id = u64::MAX - 1;
    s.toggle(d(31), 0, d(31));
    assert_eq!(s.next_id, u64::MAX);
    // The copy is there, so another open task of the kind can be completed.
    s.insert(d(31), 1, filled().tasks(d(31))[0].clone());
    s.cycle_repeat(d(31), 1);
    assert!(s.can_toggle(d(31), 1));
    assert_eq!(s.toggle(d(31), 1, d(31)), Some(sep(1)));
    assert_eq!(s.next_id, u64::MAX);
    assert_eq!(s.tasks(sep(1)).len(), 1);
}
