use tui_do_list::cli::{
    date_range, due_reminders, export_markdown, notification, parse_command, parse_export_args,
    parse_notify_args, unknown_command, ArgsError, Command, ExportRange, USAGE,
};
use tui_do_list::date::{Date, DateTime, Time};
use tui_do_list::model::Store;

fn d(day: u32) -> Date {
    Date::from_ymd_opt(2026, 8, day).unwrap()
}

fn t(h: u32, m: u32) -> Time {
    Time::from_hms_opt(h, m, 0).unwrap()
}

fn at(date: Date, h: u32, m: u32, s: u32) -> DateTime {
    DateTime { date, time: Time::from_hms_opt(h, m, s).unwrap() }
}

fn args(list: &[&str]) -> Vec<String> {
    list.iter().map(|x| x.to_string()).collect()
}

fn sample() -> Store {
    let mut s = Store::default();
    s.add(d(30), "yesterday done".to_string());
    s.toggle(d(30), 0, d(30));
    s.add(d(31), "Buy milk".to_string());
    s.cycle_priority(d(31), 0);
    s.cycle_priority(d(31), 0);
    s.set_reminder(d(31), 0, Some(t(14, 30)));
    s.set_note(d(31), 0, "semi-skimmed\ntwo litres");
    s.add(d(31), "Standup".to_string());
    s.cycle_repeat(d(31), 1);
    s.toggle(d(31), 1, d(31));
    s
}

#[test]
fn export_day_renders_markdown() {
    let lists = vec![("tasks".to_string(), sample())];
    let md = export_markdown(&lists, ExportRange::Day(d(31)), d(31), false);
    assert_eq!(
        md,
        "## Mon, 31 Aug 2026\n\n\
         - [ ] Buy milk **!** ⏰ 14:30\n  > semi-skimmed\n  > two litres\n\
         - [x] Standup ↻ daily\n"
    );
    let empty = export_markdown(&lists, ExportRange::Day(d(1)), d(31), false);
    assert_eq!(empty, "## Sat, 01 Aug 2026\n\n_No tasks._\n");
}

#[test]
fn export_week_and_all_skip_empty_days_and_name_lists() {
    let lists = vec![
        ("personal".to_string(), sample()),
        ("work".to_string(), Store::default()),
    ];
    let md = export_markdown(&lists, ExportRange::Week, d(31), false);
    assert!(md.starts_with("# personal\n\n## Sun, 30 Aug 2026\n\n- [x] yesterday done\n"));
    assert!(md.contains("## Mon, 31 Aug 2026"));
    assert!(!md.contains("29 Aug"));
    assert!(md.contains("# work\n\n_No tasks._"));
    // The spawned occurrence for tomorrow appears only in --all.
    assert!(!md.contains("01 Sep"));
    let all = export_markdown(&lists, ExportRange::All, d(31), false);
    assert!(all.contains("## Tue, 01 Sep 2026\n\n- [ ] Standup ↻ daily"));
}

#[test]
fn export_args() {
    let today = d(31);
    assert_eq!(
        parse_export_args(&args(&[]), today).unwrap(),
        (ExportRange::Day(today), false)
    );
    assert_eq!(
        parse_export_args(&args(&["--day"]), today).unwrap(),
        (ExportRange::Day(today), false)
    );
    assert_eq!(
        parse_export_args(&args(&["--day", "2026-08-01"]), today).unwrap(),
        (ExportRange::Day(d(1)), false)
    );
    assert_eq!(
        parse_export_args(&args(&["--week"]), today).unwrap(),
        (ExportRange::Week, false)
    );
    assert_eq!(
        parse_export_args(&args(&["--all"]), today).unwrap(),
        (ExportRange::All, false)
    );
    assert!(parse_export_args(&args(&["--day", "yesterday"]), today).is_err());
    assert!(parse_export_args(&args(&["--month"]), today).is_err());
    assert_eq!(
        parse_export_args(&args(&["--week", "--show-hidden"]), today).unwrap(),
        (ExportRange::Week, true)
    );
    assert_eq!(
        parse_export_args(&args(&["--show-hidden"]), today).unwrap(),
        (ExportRange::Day(today), true)
    );
}

#[test]
fn export_masks_hidden_tasks_unless_requested() {
    let mut s = Store::default();
    s.add(d(31), "therapy".to_string());
    s.set_note(d(31), 0, "Dr. Silva");
    s.toggle_hidden(d(31), 0);
    let lists = vec![("tasks".to_string(), s)];
    let md = export_markdown(&lists, ExportRange::Day(d(31)), d(31), false);
    assert!(md.contains("••••••••"), "{md}");
    assert!(!md.contains("therapy") && !md.contains("Dr. Silva"));
    let md = export_markdown(&lists, ExportRange::Day(d(31)), d(31), true);
    assert!(md.contains("therapy") && md.contains("Dr. Silva"));
}

#[test]
fn due_reminders_fire_for_carried_over_tasks_once_carry_over_ran() {
    // `notify` and `export` carry over after loading, so a reminder on an
    // unfinished task from a past day fires today.
    let mut s = Store::default();
    s.add(d(30), "take medication".to_string());
    s.set_reminder(d(30), 0, Some(t(9, 0)));
    let mut lists = vec![("tasks".to_string(), s)];
    let now = at(d(31), 9, 0, 0);
    assert!(due_reminders(&lists, now, 60).is_empty(), "raw file: silent");
    lists[0].1.carry_over(d(31));
    let due = due_reminders(&lists, now, 60);
    assert_eq!(due.len(), 1);
    assert_eq!(due[0].1.text, "take medication");
}

#[test]
fn due_reminders_respect_the_window_and_done_state() {
    let lists = vec![("tasks".to_string(), sample())];
    let at = |h, m, s| at(d(31), h, m, s);
    assert!(due_reminders(&lists, at(14, 29, 59), 60).is_empty());
    let due = due_reminders(&lists, at(14, 30, 0), 60);
    assert_eq!(due.len(), 1);
    assert_eq!(due[0].0, "tasks");
    assert_eq!(due[0].1.text, "Buy milk");
    assert_eq!(due_reminders(&lists, at(14, 30, 59), 60).len(), 1);
    assert!(due_reminders(&lists, at(14, 31, 0), 60).is_empty());
    // Wider window catches it later; other days never notify.
    assert_eq!(due_reminders(&lists, at(14, 34, 0), 300).len(), 1);
    let tomorrow = Date::from_ymd_opt(2026, 9, 1).unwrap();
    let later = DateTime { date: tomorrow, time: t(14, 30) };
    assert!(due_reminders(&lists, later, 60).is_empty());
}

#[test]
fn a_window_reaches_back_over_midnight() {
    let mut s = Store::default();
    s.add(d(31), "wind down".to_string());
    s.set_reminder(d(31), 0, Some(t(0, 0)));
    let lists = vec![("tasks".to_string(), s)];
    assert_eq!(due_reminders(&lists, at(d(31), 0, 0, 0), 60).len(), 1);
    assert_eq!(due_reminders(&lists, at(d(31), 0, 0, 59), 3600).len(), 1);
    assert!(due_reminders(&lists, at(d(31), 0, 1, 0), 60).is_empty());
}

#[test]
fn the_first_argument_is_the_command() {
    assert_eq!(parse_command(&args(&[])), Command::Open);
    assert_eq!(parse_command(&args(&["export", "--all"])), Command::Export);
    assert_eq!(parse_command(&args(&["notify"])), Command::Notify);
    for help in ["-h", "--help", "help"] {
        assert_eq!(parse_command(&args(&[help])), Command::Help);
    }
    for version in ["-V", "--version"] {
        assert_eq!(parse_command(&args(&[version])), Command::Version);
    }
    assert_eq!(parse_command(&args(&["Export"])), Command::Unknown);
    assert_eq!(
        unknown_command("fly \"now\""),
        format!("unknown command \"fly \\\"now\\\"\"\n\n{USAGE}")
    );
}

#[test]
fn wrong_export_arguments_are_told_apart() {
    let today = d(31);
    let error = parse_export_args(&args(&["--day", "31.08.2026"]), today).unwrap_err();
    assert!(matches!(error, ArgsError::InvalidDate(_)));
    assert_eq!(error.message(), "invalid date \"31.08.2026\", expected YYYY-MM-DD");
    let error = parse_export_args(&args(&["--week", "--show-hidden", "--all"]), today).unwrap_err();
    assert!(matches!(error, ArgsError::UnexpectedExport(_)));
    assert_eq!(error.message(), "unexpected export arguments: --week --all");
    assert!(date_range("x", None).is_err());
    assert_eq!(date_range("x", Some(d(2))).unwrap(), ExportRange::Day(d(2)));
}

#[test]
fn notify_takes_a_window() {
    assert_eq!(parse_notify_args(&args(&[]), 60).unwrap(), 60);
    assert_eq!(parse_notify_args(&args(&["--window", "300"]), 60).unwrap(), 300);
    let error = parse_notify_args(&args(&["--window", "soon"]), 60).unwrap_err();
    assert!(matches!(error, ArgsError::InvalidWindow(_)));
    assert_eq!(error.message(), "invalid --window value \"soon\"");
    let error = parse_notify_args(&args(&["--window"]), 60).unwrap_err();
    assert!(matches!(error, ArgsError::UnexpectedNotify(_)));
    assert_eq!(error.message(), "unexpected notify arguments: --window");
}

#[test]
fn notifications_mask_hidden_tasks_and_name_one_of_several_lists() {
    let mut s = sample();
    let (summary, body) = notification("work", &s.tasks(d(31))[0], true);
    assert_eq!(summary, "⏰ 14:30 — Buy milk");
    assert_eq!(body, "semi-skimmed\ntwo litres\n[work]");
    let (_, body) = notification("work", &s.tasks(d(31))[0], false);
    assert_eq!(body, "semi-skimmed\ntwo litres");
    s.toggle_hidden(d(31), 0);
    let (summary, body) = notification("work", &s.tasks(d(31))[0], false);
    assert_eq!(summary, "⏰ 14:30 — ••••••••");
    assert_eq!(body, "");
}

#[test]
fn days_before_the_epoch_and_far_ones_are_named() {
    let mut s = Store::default();
    let far = Date::from_ymd_opt(12000, 2, 29).unwrap();
    s.add(far, "archive".to_string());
    let lists = vec![("tasks".to_string(), s)];
    assert_eq!(
        export_markdown(&lists, ExportRange::All, d(31), false),
        "## Tue, 29 Feb +12000\n\n- [ ] archive\n"
    );
}

#[test]
fn a_window_without_end_takes_in_the_day_so_far() {
    let lists = vec![("tasks".to_string(), sample())];
    for window in [u64::MAX, 1 << 63] {
        assert_eq!(due_reminders(&lists, at(d(31), 23, 0, 0), window).len(), 1);
        assert!(due_reminders(&lists, at(d(31), 14, 0, 0), window).is_empty());
    }
}
