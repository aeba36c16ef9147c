use tui_do_list::app::App;
use tui_do_list::date::{Date, Time};
use tui_do_list::keys::{KeyCode, KeyEvent, ACTIONS};
use tui_do_list::model::Store;
use tui_do_list::popup::{
    calendar_hint, calendar_title, popup_height, popup_width, search_height, to_time_date,
};
use tui_do_list::screen::{note_panel_height, relative_label, task_item};
use tui_do_list::style::{Span, Style};
use tui_do_list::theme::{Color, Theme};

fn d(day: u32) -> Date {
    Date::from_ymd_opt(2026, 8, day).unwrap()
}

fn t(h: u32, m: u32) -> Time {
    Time::from_hms_opt(h, m, 0).unwrap()
}

fn press(app: &mut App, code: KeyCode) {
    app.handle_key(KeyEvent { code, control: false });
}

fn plain(line: &[Span]) -> String {
    line.iter().map(|span| span.text.as_str()).collect()
}

fn sample() -> App {
    let mut s = Store::default();
    s.add(d(29), "report".to_string());
    s.set_reminder(d(29), 0, Some(t(9, 0)));
    s.set_note(d(29), 0, "two pages");
    let mut app = App::new(s, d(31));
    app.store.add(d(31), "gym".to_string());
    app.store.cycle_repeat(d(31), 1);
    app.store.toggle(d(31), 1, d(31));
    app.now = t(12, 0);
    app.status = None;
    app
}

#[test]
fn to_time_date_is_fallible_for_extreme_years() {
    assert!(to_time_date(Date::from_ymd_opt(2026, 8, 31).unwrap()).is_some());
    assert!(to_time_date(Date::from_ymd_opt(12000, 1, 1).unwrap()).is_none());
}

#[test]
fn calendar_days_are_julian_days() {
    let day = Date::from_ymd_opt(2000, 1, 1).unwrap();
    assert_eq!(to_time_date(day), Some(2_451_545));
    let time = time::Date::from_julian_day(to_time_date(d(31)).unwrap()).unwrap();
    assert_eq!(time.to_calendar_date(), (2026, time::Month::August, 31));
    assert!(to_time_date(Date::from_ymd_opt(-9999, 1, 1).unwrap()).is_some());
    assert!(to_time_date(Date::from_ymd_opt(-10000, 12, 31).unwrap()).is_none());
}

#[test]
fn days_are_named_from_today() {
    assert_eq!(relative_label(d(31), d(31)), "Today");
    assert_eq!(relative_label(d(30), d(31)), "Yesterday");
    assert_eq!(relative_label(d(31), d(30)), "Tomorrow");
    assert_eq!(relative_label(d(1), d(31)), "30 days ago");
    assert_eq!(relative_label(d(31), d(1)), "+30 days");
}

#[test]
fn the_header_names_the_day_and_the_reminder() {
    let mut app = sample();
    assert_eq!(
        plain(&app.header()),
        " Mon, 31 Aug 2026 · Today   h/l days · t today   ⏰ overdue 09:00 report"
    );
    app.sorted = true;
    app.now = t(8, 0);
    assert_eq!(
        plain(&app.header()),
        " Mon, 31 Aug 2026 · Today  ⇅ sorted   h/l days · t today   ⏰ next 09:00 report"
    );
    press(&mut app, KeyCode::Char('h'));
    assert!(plain(&app.header()).starts_with(" Sun, 30 Aug 2026 · Yesterday"));
    assert!(!plain(&app.header()).contains("report"));
}

#[test]
fn rows_show_state_repeat_note_age_and_reminder() {
    let app = sample();
    let rows = app.list_or_message().unwrap();
    assert_eq!(plain(&rows[0]), "[ ]   report ≡ (2d) ⏰ 09:00");
    assert_eq!(plain(&rows[1]), "[x]   gym ↻ daily");
    assert!(rows[1][2].style.crossed_out);
    let masked = task_item(&app.store.tasks(d(31))[0], d(31), d(31), t(8, 0), &app.theme, true);
    assert_eq!(plain(&masked), "[ ]   •••••••• ≡ (2d) ⏰ 09:00");
    assert_eq!(masked.last().unwrap().style, Style::color(Color::Cyan));
    assert_eq!(rows[0].last().unwrap().style, Style::strong(Color::Red));
    let empty = App::new(Store::default(), d(31));
    assert_eq!(empty.list_or_message().unwrap_err(), "No tasks — press a to add one");
}

#[test]
fn the_side_pane_needs_room() {
    let mut app = sample();
    assert!(app.side_pane(100).is_none());
    app.add_list("work".to_string(), std::path::PathBuf::new(), Store::default());
    app.split = true;
    assert!(app.side_pane(59).is_none());
    let (name, rows) = app.side_pane(60).unwrap();
    assert_eq!(name, "tasks");
    assert_eq!(rows.len(), 2);
}

#[test]
fn the_note_panel_grows_to_four_lines() {
    assert_eq!(note_panel_height("", 80), 2);
    assert_eq!(note_panel_height("one line", 80), 2);
    assert_eq!(note_panel_height("12345", 8), 3);
    assert_eq!(note_panel_height("a\n\nb", 80), 4);
    assert_eq!(note_panel_height(&"x".repeat(1000), 80), 5);
    assert_eq!(note_panel_height("abc", 0), 4);
    assert_eq!(sample().shown_note().as_deref(), Some("two pages"));
}

#[test]
fn the_footer_shows_progress_hints_and_messages() {
    let mut app = sample();
    assert_eq!(app.progress_line().text, " 1/2 done");
    assert_eq!(
        app.footer().text,
        "a add · e edit · d del · space done · p prio · r remind · / search · w review · ? help \
         · :q quit"
    );
    app.status = Some("Saved".to_string());
    assert_eq!(app.footer().text, "Saved");
    app.confirm_delete = true;
    press(&mut app, KeyCode::Char('d'));
    assert_eq!(app.footer().text, "Delete \"report\"? y/n");
    press(&mut app, KeyCode::Char('n'));
    press(&mut app, KeyCode::Char('r'));
    assert_eq!(app.input_prefix().as_deref(), Some(" remind at (HH:MM)> "));
    assert_eq!(
        app.footer().text,
        "e.g. 14:30 · empty clears · Enter save · Esc cancel"
    );
}

#[test]
fn the_key_reference_lists_every_action() {
    let help = sample().help();
    assert_eq!(help.len(), ACTIONS + 5);
    assert!(help.iter().any(|row| plain(row).starts_with("               a  ")));
    assert_eq!(
        plain(&help[ACTIONS + 3]),
        "          Search  type · ↑/↓ select · Enter jump · Esc close"
    );
}

#[test]
fn the_review_shows_seven_days() {
    let app = sample();
    let lines: Vec<String> = app.review("0.1").iter().map(|line| plain(line)).collect();
    assert_eq!(
        lines[0],
        "Streak: 0 days   ·   1 done in the last 7 days (0.1/day)   ·   1 open"
    );
    assert_eq!(lines[1], "Most postponed: report (2d)");
    assert_eq!(lines[2], "");
    assert_eq!(lines[3], "Mon 31 Aug · Today    1 done · 1 open");
    assert_eq!(lines[4], "  ✔ gym");
    assert_eq!(lines[5], "  ○ report (2d)");
    assert_eq!(lines[6], "Sun 30 Aug · Yesterday    0 done");
    assert_eq!(lines.len(), 12);
}

#[test]
fn the_calendar_marks_days() {
    let app = sample();
    let marks = app.calendar_marks(d(30));
    let last = marks.last().unwrap();
    assert_eq!(last.julian, to_time_date(d(30)).unwrap());
    assert!(last.style.reversed && !last.style.underlined);
    let today = &marks[marks.len() - 2];
    assert_eq!(today.julian, to_time_date(d(31)).unwrap());
    assert!(today.style.underlined && today.style.bold);
    assert_eq!(plain(&app.calendar_info(d(31))), "Mon 31 Aug · Today · 1 open · 1 done");
    assert_eq!(plain(&app.calendar_info(d(30))), "Sun 30 Aug · Yesterday · no tasks");
    assert_eq!(calendar_title(true), " Move task to… ");
    assert_eq!(calendar_title(false), " Calendar ");
    assert!(calendar_hint(true).contains("move here"));
    assert!(calendar_hint(false).contains("jump"));
}

#[test]
fn the_search_shows_hits() {
    let mut app = sample();
    press(&mut app, KeyCode::Char('/'));
    assert_eq!(
        app.search_rows().unwrap_err(),
        "Type to search task text and notes"
    );
    press(&mut app, KeyCode::Char('G'));
    press(&mut app, KeyCode::Char('Y'));
    let rows = app.search_rows().unwrap();
    assert_eq!(plain(&rows[0]), "Tue 01 Sep  [ ] gym");
    assert_eq!(plain(&rows[1]), "Mon 31 Aug  [x] gym");
    press(&mut app, KeyCode::Char('Q'));
    assert_eq!(app.search_rows().unwrap_err(), "No matches");
}

#[test]
fn the_list_picker_ends_with_a_row_for_a_new_list() {
    let rows = sample().picker_rows();
    assert_eq!(rows.len(), 2);
    assert_eq!(plain(&rows[0]), "tasks  1 open");
    assert_eq!(plain(&rows[1]), "+ New list");
    assert_eq!(rows[1][0].style, Style::color(Theme::default().accent));
}

#[test]
fn popups_fit_the_screen() {
    assert_eq!(popup_height(10, 24), 12);
    assert_eq!(popup_height(40, 24), 22);
    assert_eq!(popup_height(1, 1), 0);
    assert_eq!(search_height(0, 24), 6);
    assert_eq!(search_height(10, 24), 14);
    assert_eq!(search_height(50, 24), 22);
    assert_eq!(popup_width(120), 80);
    assert_eq!(popup_width(60), 56);
    assert_eq!(popup_width(3), 0);
}
