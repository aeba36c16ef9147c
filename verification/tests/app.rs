use std::path::PathBuf;

use tui_do_list::app::{App, ListSlot, Mode};
use tui_do_list::date::{Date, Time};
use tui_do_list::editor::{Editor, Target};
use tui_do_list::keys::{KeyCode, KeyEvent};
use tui_do_list::model::Store;
use tui_do_list::task::{Repeat, MASK};

fn d(day: u32) -> Date {
    Date::from_ymd_opt(2026, 8, day).unwrap()
}

fn sep(day: u32) -> Date {
    Date::from_ymd_opt(2026, 9, day).unwrap()
}

fn t(h: u32, m: u32) -> Time {
    Time::from_hms_opt(h, m, 0).unwrap()
}

fn press(app: &mut App, code: KeyCode) -> bool {
    app.handle_key(KeyEvent { code, control: false })
}

fn type_text(app: &mut App, text: &str) {
    for c in text.chars() {
        press(app, KeyCode::Char(c));
    }
}

fn add(app: &mut App, text: &str) {
    press(app, KeyCode::Char('a'));
    type_text(app, text);
    press(app, KeyCode::Enter);
}

fn texts(app: &App) -> Vec<String> {
    app.store
        .tasks(app.date)
        .iter()
        .map(|t| t.text.clone())
        .collect()
}

#[test]
fn add_edit_toggle_delete_undo_flow() {
    let mut app = App::new(Store::default(), d(31));
    add(&mut app, "milk");
    add(&mut app, "bread");
    assert_eq!(texts(&app), ["milk", "bread"]);
    assert_eq!(app.selected, 1);

    // Edit with cursor movement: "bread" -> "rye bread".
    press(&mut app, KeyCode::Char('e'));
    press(&mut app, KeyCode::Home);
    type_text(&mut app, "rye ");
    press(&mut app, KeyCode::Enter);
    assert_eq!(texts(&app), ["milk", "rye bread"]);

    press(&mut app, KeyCode::Char('k'));
    assert!(press(&mut app, KeyCode::Char(' ')));
    assert!(app.store.tasks(d(31))[0].done);

    assert!(press(&mut app, KeyCode::Char('d')));
    assert_eq!(texts(&app), ["rye bread"]);
    assert!(press(&mut app, KeyCode::Char('u')));
    assert_eq!(texts(&app), ["milk", "rye bread"]);
    assert_eq!(app.selected, 0);
    assert!(!press(&mut app, KeyCode::Char('u')));
}

#[test]
fn empty_or_cancelled_input_adds_nothing() {
    let mut app = App::new(Store::default(), d(31));
    press(&mut app, KeyCode::Char('a'));
    type_text(&mut app, "   ");
    assert!(!press(&mut app, KeyCode::Enter));
    press(&mut app, KeyCode::Char('a'));
    type_text(&mut app, "abc");
    assert!(!press(&mut app, KeyCode::Esc));
    assert!(matches!(app.mode, Mode::Normal));
    assert_eq!(app.len(), 0);
}

#[test]
fn day_navigation_and_selection_bounds() {
    let mut app = App::new(Store::default(), d(31));
    press(&mut app, KeyCode::Char('j')); // no tasks: stays at 0
    assert_eq!(app.selected, 0);
    press(&mut app, KeyCode::Char('h'));
    assert_eq!(app.date, d(30));
    press(&mut app, KeyCode::Char('l'));
    press(&mut app, KeyCode::Char('l'));
    assert_eq!(app.date, sep(1));
    press(&mut app, KeyCode::Char('t'));
    assert_eq!(app.date, d(31));
}

#[test]
fn reminder_set_invalid_and_clear() {
    let mut app = App::new(Store::default(), d(31));
    add(&mut app, "dentist");

    press(&mut app, KeyCode::Char('r'));
    type_text(&mut app, "14h30");
    assert!(press(&mut app, KeyCode::Enter));
    assert_eq!(app.store.tasks(d(31))[0].remind, Some(t(14, 30)));

    // Reopening shows the current value; an invalid value keeps the editor open.
    press(&mut app, KeyCode::Char('r'));
    match &app.mode {
        Mode::Insert(e) => assert_eq!(e.text(), "14:30"),
        _ => panic!("editor should be open"),
    }
    type_text(&mut app, "x");
    assert!(!press(&mut app, KeyCode::Enter));
    assert!(matches!(app.mode, Mode::Insert(_)));
    assert!(app.status.as_deref().unwrap_or("").contains("Invalid"));
    press(&mut app, KeyCode::Esc);
    assert_eq!(app.store.tasks(d(31))[0].remind, Some(t(14, 30)));

    // Empty clears.
    press(&mut app, KeyCode::Char('r'));
    for _ in 0..5 {
        press(&mut app, KeyCode::Backspace);
    }
    assert!(press(&mut app, KeyCode::Enter));
    assert_eq!(app.store.tasks(d(31))[0].remind, None);
}

#[test]
fn tick_flashes_reminders_that_become_due() {
    let mut app = App::new(Store::default(), d(31));
    app.store.add(d(31), "standup".to_string());
    app.store.set_reminder(d(31), 0, Some(t(10, 0)));
    app.store.add(d(31), "done already".to_string());
    app.store.set_reminder(d(31), 1, Some(t(10, 0)));
    app.store.toggle(d(31), 1, d(31));

    app.tick(t(9, 59));
    assert_eq!(app.status, None);
    app.tick(t(10, 0));
    assert_eq!(app.status.as_deref(), Some("⏰ Reminder: standup"));
    app.status = None;
    app.tick(t(10, 1));
    assert_eq!(app.status, None, "must not repeat");
}

#[test]
fn calendar_navigates_and_jumps_to_the_chosen_day() {
    let mut app = App::new(Store::default(), d(31));
    let cursor = |app: &App| match app.mode {
        Mode::Calendar { cursor, .. } => cursor,
        _ => panic!("calendar should be open"),
    };
    press(&mut app, KeyCode::Char('c'));
    assert_eq!(cursor(&app), d(31));
    press(&mut app, KeyCode::Char('h'));
    press(&mut app, KeyCode::Char('k'));
    assert_eq!(cursor(&app), d(23));
    press(&mut app, KeyCode::Char('l'));
    press(&mut app, KeyCode::Char('j'));
    assert_eq!(cursor(&app), d(31));
    press(&mut app, KeyCode::Char(']'));
    assert_eq!(cursor(&app), sep(30));
    press(&mut app, KeyCode::Char('['));
    assert_eq!(cursor(&app), d(30)); // 30 Sep -> 30 Aug
    press(&mut app, KeyCode::Char('t'));
    assert_eq!(cursor(&app), d(31));

    // Esc closes without moving; Enter jumps.
    press(&mut app, KeyCode::Char('h'));
    press(&mut app, KeyCode::Esc);
    assert!(matches!(app.mode, Mode::Normal));
    assert_eq!(app.date, d(31));
    press(&mut app, KeyCode::Char('c'));
    press(&mut app, KeyCode::Char('h'));
    assert!(!press(&mut app, KeyCode::Enter));
    assert!(matches!(app.mode, Mode::Normal));
    assert_eq!(app.date, d(30));
}

#[test]
fn postpone_and_move_to_date_via_calendar() {
    let mut app = App::new(Store::default(), d(31));
    add(&mut app, "a");
    add(&mut app, "b");
    press(&mut app, KeyCode::Char('g'));
    assert!(press(&mut app, KeyCode::Char('>')));
    assert_eq!(texts(&app), ["b"]);
    assert_eq!(app.store.tasks(sep(1))[0].text, "a");
    assert_eq!(app.status.as_deref(), Some("Moved \"a\" to Tue 01 Sep"));

    // `m` opens the calendar in move mode; Enter on another day moves.
    press(&mut app, KeyCode::Char('m'));
    assert!(matches!(
        app.mode,
        Mode::Calendar {
            moving: Some(0),
            ..
        }
    ));
    press(&mut app, KeyCode::Char('j'));
    assert!(press(&mut app, KeyCode::Enter));
    assert!(app.store.tasks(d(31)).is_empty());
    assert_eq!(app.store.tasks(sep(7))[0].text, "b");
    assert_eq!(app.date, d(31), "stays on the current day");

    // With no task selected the move keys are ignored.
    press(&mut app, KeyCode::Char('m'));
    assert!(matches!(app.mode, Mode::Normal));
    assert!(!press(&mut app, KeyCode::Char('>')));
}

#[test]
fn notes_repeat_and_priority_statuses() {
    let mut app = App::new(Store::default(), d(31));
    add(&mut app, "gym");
    press(&mut app, KeyCode::Char('n'));
    type_text(&mut app, "bring towel");
    assert!(press(&mut app, KeyCode::Enter));
    assert_eq!(
        app.store.tasks(d(31))[0].note.as_deref(),
        Some("bring towel")
    );
    press(&mut app, KeyCode::Char('n'));
    match &app.mode {
        Mode::Insert(e) => assert_eq!(e.text(), "bring towel"),
        _ => panic!("editor should be open"),
    }
    press(&mut app, KeyCode::Esc);

    assert!(press(&mut app, KeyCode::Char('R')));
    assert_eq!(app.status.as_deref(), Some("Repeats daily"));
    assert_eq!(app.store.tasks(d(31))[0].repeat, Some(Repeat::Daily));
    assert!(press(&mut app, KeyCode::Char(' ')));
    assert_eq!(app.status.as_deref(), Some("Next occurrence: Tue 01 Sep"));
}

#[test]
fn vim_style_command_quit() {
    let mut app = App::new(Store::default(), d(31));
    // Plain q / Esc no longer quit from the task list.
    press(&mut app, KeyCode::Char('q'));
    press(&mut app, KeyCode::Esc);
    assert!(!app.quit);

    press(&mut app, KeyCode::Char(':'));
    assert!(matches!(app.mode, Mode::Command(_)));
    press(&mut app, KeyCode::Esc); // cancel
    assert!(matches!(app.mode, Mode::Normal));
    assert!(!app.quit);

    press(&mut app, KeyCode::Char(':'));
    type_text(&mut app, "nope");
    assert!(!press(&mut app, KeyCode::Enter));
    assert_eq!(app.status.as_deref(), Some("Not a command: :nope"));

    press(&mut app, KeyCode::Char(':'));
    type_text(&mut app, "w");
    assert!(press(&mut app, KeyCode::Enter), ":w reports dirty");
    assert!(!app.quit);

    for cmd in ["q", "q!", "wq"] {
        let mut app = App::new(Store::default(), d(31));
        press(&mut app, KeyCode::Char(':'));
        type_text(&mut app, cmd);
        press(&mut app, KeyCode::Enter);
        assert!(app.quit, ":{cmd} should quit");
    }
}

#[test]
fn hide_masks_text_and_blocks_editors_until_reveal() {
    let mut app = App::new(Store::default(), d(31));
    add(&mut app, "therapy session");
    assert!(press(&mut app, KeyCode::Char('H')));
    let task = app.store.tasks(d(31))[0].clone();
    assert!(task.hidden);
    assert_eq!(app.display_text(&task), MASK);

    // Editing and notes are blocked while masked.
    press(&mut app, KeyCode::Char('e'));
    assert!(matches!(app.mode, Mode::Normal));
    assert!(app.status.as_deref().unwrap().contains("reveal"));
    press(&mut app, KeyCode::Char('n'));
    assert!(matches!(app.mode, Mode::Normal));

    // Hidden tasks are not discoverable through search while masked.
    press(&mut app, KeyCode::Char('/'));
    type_text(&mut app, "therapy");
    assert!(app.search_results().is_empty());
    press(&mut app, KeyCode::Esc);

    // Reveal: text visible, editing allowed, search finds it.
    press(&mut app, KeyCode::Char('v'));
    assert!(app.reveal);
    let task = app.store.tasks(d(31))[0].clone();
    assert_eq!(app.display_text(&task), "therapy session");
    press(&mut app, KeyCode::Char('e'));
    assert!(matches!(app.mode, Mode::Insert(_)));
    press(&mut app, KeyCode::Esc);
    press(&mut app, KeyCode::Char('/'));
    type_text(&mut app, "therapy");
    assert_eq!(app.search_results().len(), 1);
    press(&mut app, KeyCode::Esc);

    // Deleting while masked keeps the text out of the status line.
    press(&mut app, KeyCode::Char('v')); // mask again
    assert!(press(&mut app, KeyCode::Char('d')));
    assert!(!app.status.as_deref().unwrap().contains("therapy"));
    press(&mut app, KeyCode::Char('u'));
    assert!(press(&mut app, KeyCode::Char('H')));
    assert!(!app.store.tasks(d(31))[0].hidden);
}

#[test]
fn sorted_view_maps_selection_to_real_index() {
    let mut app = App::new(Store::default(), d(31));
    add(&mut app, "plain");
    add(&mut app, "urgent");
    press(&mut app, KeyCode::Char('p'));
    press(&mut app, KeyCode::Char('p')); // urgent = high, selected (real 1)
    press(&mut app, KeyCode::Char('s'));
    assert!(app.sorted);
    assert_eq!(app.visible(), [1, 0]);
    assert_eq!(app.selected, 0, "selection follows the task");
    // Toggling acts on "urgent" (the real task under the cursor).
    press(&mut app, KeyCode::Char(' '));
    assert!(app.store.tasks(d(31))[1].done);
    assert_eq!(app.visible(), [0, 1], "done sinks to the bottom");
    assert_eq!(app.selected, 1, "still on urgent");
    assert!(!press(&mut app, KeyCode::Char('J')));
    assert!(app.status.as_deref().unwrap().contains("Turn off sorting"));
    press(&mut app, KeyCode::Char('s'));
    assert!(!app.sorted);
    assert_eq!(app.selected, 1);
}

#[test]
fn confirm_delete_when_enabled() {
    let mut app = App::new(Store::default(), d(31));
    app.confirm_delete = true;
    add(&mut app, "keep me");
    assert!(!press(&mut app, KeyCode::Char('d')));
    assert!(matches!(app.mode, Mode::ConfirmDelete(0)));
    assert!(!press(&mut app, KeyCode::Char('n')));
    assert_eq!(app.len(), 1);
    press(&mut app, KeyCode::Char('d'));
    assert!(press(&mut app, KeyCode::Char('y')));
    assert_eq!(app.len(), 0);
}

#[test]
fn search_jumps_to_the_selected_hit() {
    let mut app = App::new(Store::default(), d(31));
    app.store.add(d(28), "call accountant".to_string());
    app.store.toggle(d(28), 0, d(28));
    add(&mut app, "buy milk");
    add(&mut app, "accountant email");

    press(&mut app, KeyCode::Char('/'));
    type_text(&mut app, "ACCOUNT");
    assert_eq!(app.search_results(), [(d(31), 1), (d(28), 0)]);
    press(&mut app, KeyCode::Down);
    assert!(!press(&mut app, KeyCode::Enter));
    assert_eq!(app.date, d(28));
    assert_eq!(app.selected, 0);
    assert!(matches!(app.mode, Mode::Normal));

    press(&mut app, KeyCode::Char('/'));
    type_text(&mut app, "zzz");
    assert!(app.search_results().is_empty());
    press(&mut app, KeyCode::Enter); // nothing to jump to
    assert_eq!(app.date, d(28));
}

#[test]
fn switching_lists_saves_state_and_carries_over() {
    let mut work = Store::default();
    work.add(d(30), "late report".to_string());
    let lists = vec![
        ListSlot {
            name: "personal".into(),
            path: PathBuf::from("/tmp/p.json"),
            store: Store::default(),
        },
        ListSlot {
            name: "work".into(),
            path: PathBuf::from("/tmp/w.json"),
            store: work,
        },
    ];
    let mut app = App::with_lists(lists, d(31));
    assert_eq!(app.list_names(), ["personal", "work"]);
    add(&mut app, "groceries");
    assert!(app.take_others_dirty(), "inactive list was carried over");
    assert!(!app.take_others_dirty(), "reported once");
    assert!(press(&mut app, KeyCode::Tab));
    assert_eq!(app.list_name, "work");
    assert_eq!(texts(&app), ["late report"], "carried over at startup");
    assert_eq!(app.status.as_deref(), Some("List: work"));
    assert!(press(&mut app, KeyCode::Tab));
    assert_eq!(app.list_name, "personal");
    assert_eq!(texts(&app), ["groceries"]);
    assert_eq!(app.all_lists().len(), 2);

    let mut single = App::new(Store::default(), d(31));
    assert!(!press(&mut single, KeyCode::Tab));
    assert!(single.status.as_deref().unwrap().contains("Only one list"));
}

fn three_lists(today: Date) -> App {
    let mut work = Store::default();
    work.add(today, "report".to_string());
    work.add(today, "standup".to_string());
    let mut home = Store::default();
    home.add(today, "laundry".to_string());
    App::with_lists(
        vec![
            ListSlot {
                name: "personal".into(),
                path: PathBuf::from("/tmp/p.json"),
                store: Store::default(),
            },
            ListSlot {
                name: "work".into(),
                path: PathBuf::from("/tmp/w.json"),
                store: work,
            },
            ListSlot {
                name: "home".into(),
                path: PathBuf::from("/tmp/h.json"),
                store: home,
            },
        ],
        today,
    )
}

#[test]
fn list_picker_switches_directly_and_keeps_cycle_order() {
    let mut app = three_lists(d(31));
    assert_eq!(
        app.list_rows(),
        [
            ("personal", 0, true),
            ("work", 2, false),
            ("home", 1, false)
        ]
    );

    press(&mut app, KeyCode::Char('L'));
    assert!(matches!(app.mode, Mode::Lists { selected: 0 }));
    press(&mut app, KeyCode::Char('j'));
    press(&mut app, KeyCode::Char('j'));
    assert!(matches!(app.mode, Mode::Lists { selected: 2 }));
    press(&mut app, KeyCode::Enter);
    assert!(matches!(app.mode, Mode::Normal));
    assert_eq!(app.list_name, "home");
    assert_eq!(texts(&app), ["laundry"]);
    // Cyclic order is preserved: Tab continues after "home".
    assert_eq!(app.list_names(), ["home", "personal", "work"]);

    // Enter on the active row is a no-op; the cursor cannot leave the rows.
    press(&mut app, KeyCode::Char('L'));
    press(&mut app, KeyCode::Char('G'));
    assert!(matches!(app.mode, Mode::Lists { selected: 3 }));
    press(&mut app, KeyCode::Char('j'));
    assert!(matches!(app.mode, Mode::Lists { selected: 3 }));
    press(&mut app, KeyCode::Char('g'));
    press(&mut app, KeyCode::Char('k'));
    assert!(matches!(app.mode, Mode::Lists { selected: 0 }));
    press(&mut app, KeyCode::Enter);
    assert_eq!(app.list_name, "home");

    // Esc and the picker key itself close it.
    press(&mut app, KeyCode::Char('L'));
    press(&mut app, KeyCode::Esc);
    assert!(matches!(app.mode, Mode::Normal));
    press(&mut app, KeyCode::Char('L'));
    press(&mut app, KeyCode::Char('L'));
    assert!(matches!(app.mode, Mode::Normal));
}

#[test]
fn list_picker_new_list_row_opens_the_prompt() {
    let mut app = three_lists(d(31));
    press(&mut app, KeyCode::Char('L'));
    press(&mut app, KeyCode::Char('G')); // "+ New list"
    press(&mut app, KeyCode::Enter);
    match &app.mode {
        Mode::Insert(e) => assert_eq!(e.target, Target::NewList),
        other => panic!("expected new-list prompt, got {other:?}"),
    }
    type_text(&mut app, "errands");
    assert!(!press(&mut app, KeyCode::Enter));
    assert_eq!(app.take_pending_new_list().as_deref(), Some("errands"));

    // The new-list key works from inside the picker too.
    press(&mut app, KeyCode::Char('L'));
    press(&mut app, KeyCode::Char('N'));
    assert!(matches!(app.mode, Mode::Insert(_)));
    press(&mut app, KeyCode::Esc);

    // With a pinned data file the row is inert and explains why.
    app.lists_mutable = false;
    press(&mut app, KeyCode::Char('L'));
    press(&mut app, KeyCode::Char('G'));
    press(&mut app, KeyCode::Enter);
    assert!(matches!(app.mode, Mode::Normal));
    assert!(app.status.as_deref().unwrap().contains("fixed"));

    let mut single = App::new(Store::default(), d(31));
    press(&mut single, KeyCode::Tab);
    assert!(single.status.as_deref().unwrap().contains("press N"));
}

#[test]
fn split_shows_the_next_list_read_only() {
    let mut app = three_lists(d(31));
    assert!(app.side_list().is_none(), "off by default");
    assert!(!press(&mut app, KeyCode::Char('|')), "no store change");
    assert!(app.split);
    let (name, store) = app.side_list().unwrap();
    assert_eq!(name, "work");
    assert_eq!(store.tasks(d(31)).len(), 2);
    // Tab moves along the cycle; the pane follows.
    press(&mut app, KeyCode::Tab);
    assert_eq!(app.list_name, "work");
    assert_eq!(app.side_list().unwrap().0, "home");
    press(&mut app, KeyCode::Char('|'));
    assert!(!app.split);
    assert!(app.side_list().is_none());
    assert!(app.status.as_deref().unwrap().contains("off"));

    let mut single = App::new(Store::default(), d(31));
    press(&mut single, KeyCode::Char('|'));
    assert!(!single.split);
    assert!(single.status.as_deref().unwrap().contains("Only one list"));
}

#[test]
fn rollover_carries_inactive_lists_too() {
    let mut app = three_lists(d(31));
    app.take_others_dirty();
    add(&mut app, "mine");
    // Midnight: every list's unfinished tasks move to the new day.
    assert!(app.check_date_rollover(sep(1)));
    assert_eq!(texts(&app), ["mine"]);
    assert!(app.take_others_dirty());
    app.split = true;
    let (_, work) = app.side_list().unwrap();
    assert_eq!(work.tasks(sep(1)).len(), 2);
    assert!(work.tasks(d(31)).is_empty());
}

#[test]
fn hide_done_filters_the_view_and_clamps_the_selection() {
    let mut app = App::new(Store::default(), d(31));
    add(&mut app, "one");
    add(&mut app, "two");
    add(&mut app, "three");
    press(&mut app, KeyCode::Char('k'));
    press(&mut app, KeyCode::Char(' ')); // "two" done
    assert_eq!(app.selected_task(), Some(1));

    press(&mut app, KeyCode::Char('f'));
    assert!(app.hide_done);
    assert_eq!(app.visible(), [0, 2]);
    assert_eq!(app.visible_len(), 2);
    assert_eq!(app.len(), 3, "the store still holds every task");
    assert_eq!(
        app.selected_task(),
        Some(2),
        "cursor stays on a visible row"
    );
    // Movement is bounded by the visible rows, not the store.
    press(&mut app, KeyCode::Char('j'));
    assert_eq!(app.selected, 1);
    press(&mut app, KeyCode::Char('G'));
    assert_eq!(app.selected, 1);

    // Completing the last row keeps the cursor on the remaining task.
    press(&mut app, KeyCode::Char(' '));
    assert_eq!(app.visible(), [0]);
    assert_eq!(app.selected_task(), Some(0));
    press(&mut app, KeyCode::Char(' '));
    assert_eq!(app.visible(), Vec::<usize>::new());
    assert_eq!(app.selected_task(), None);
    assert_eq!(app.store.progress(d(31)), (3, 3));

    // Toggling focus off brings everything back, in order.
    press(&mut app, KeyCode::Char('f'));
    assert!(!app.hide_done);
    assert_eq!(app.visible(), [0, 1, 2]);
    assert!(app.status.as_deref().unwrap().contains("Showing"));

    // Focus combines with the priority sort: done tasks drop out.
    press(&mut app, KeyCode::Char('s'));
    press(&mut app, KeyCode::Char('f'));
    assert_eq!(app.visible(), Vec::<usize>::new());
    press(&mut app, KeyCode::Char(' ')); // nothing selected: no-op
    assert_eq!(app.store.progress(d(31)), (3, 3));
}

#[test]
fn newlist_command_validates_then_requests_creation() {
    let mut app = App::new(Store::default(), d(31)); // active list: "tasks"
    add(&mut app, "old task");

    press(&mut app, KeyCode::Char(':'));
    type_text(&mut app, "newlist bad/name");
    press(&mut app, KeyCode::Enter);
    assert!(app.status.as_deref().unwrap().contains("invalid list name"));
    assert_eq!(app.take_pending_new_list(), None);

    press(&mut app, KeyCode::Char(':'));
    type_text(&mut app, "newlist tasks");
    press(&mut app, KeyCode::Enter);
    assert!(app.status.as_deref().unwrap().contains("duplicate"));
    assert_eq!(app.take_pending_new_list(), None);

    press(&mut app, KeyCode::Char(':'));
    type_text(&mut app, "newlist work");
    assert!(!press(&mut app, KeyCode::Enter), "no store change");
    assert_eq!(app.take_pending_new_list().as_deref(), Some("work"));
    assert_eq!(app.take_pending_new_list(), None, "consumed");

    // The main loop answers the request with add_list: switch + status.
    app.add_list(
        "work".into(),
        PathBuf::from("/tmp/w.json"),
        Store::default(),
    );
    assert_eq!(app.list_name, "work");
    assert_eq!(app.len(), 0);
    assert_eq!(app.status.as_deref(), Some("Created list \"work\""));
    press(&mut app, KeyCode::Tab);
    assert_eq!(app.list_name, "tasks");
    assert_eq!(texts(&app), ["old task"]);

    // A non-empty adopted store is reported as opened, not created.
    let mut orphan = Store::default();
    orphan.add(d(31), "left behind".to_string());
    app.add_list("old".into(), PathBuf::from("/tmp/o.json"), orphan);
    assert_eq!(app.status.as_deref(), Some("Opened existing list \"old\""));
}

#[test]
fn new_list_prompt_keeps_editor_open_on_bad_names() {
    let mut app = App::new(Store::default(), d(31));
    press(&mut app, KeyCode::Char('N'));
    assert!(matches!(
        app.mode,
        Mode::Insert(Editor {
            target: Target::NewList,
            ..
        })
    ));
    type_text(&mut app, "tasks");
    press(&mut app, KeyCode::Enter);
    assert!(matches!(app.mode, Mode::Insert(_)), "stays open to fix");
    assert!(app.status.as_deref().unwrap().contains("duplicate"));
    for _ in 0..5 {
        press(&mut app, KeyCode::Backspace);
    }
    type_text(&mut app, "home");
    press(&mut app, KeyCode::Enter);
    assert!(matches!(app.mode, Mode::Normal));
    assert_eq!(app.take_pending_new_list().as_deref(), Some("home"));

    // An empty name just cancels.
    press(&mut app, KeyCode::Char('N'));
    press(&mut app, KeyCode::Enter);
    assert!(matches!(app.mode, Mode::Normal));
    assert_eq!(app.take_pending_new_list(), None);
}

#[test]
fn new_list_refused_when_lists_are_fixed() {
    let mut app = App::new(Store::default(), d(31));
    app.lists_mutable = false;
    press(&mut app, KeyCode::Char('N'));
    assert!(matches!(app.mode, Mode::Normal), "prompt does not open");
    assert!(app.status.as_deref().unwrap().contains("TUI_DO_LIST_FILE"));

    press(&mut app, KeyCode::Char(':'));
    type_text(&mut app, "newlist work");
    press(&mut app, KeyCode::Enter);
    assert!(app.status.as_deref().unwrap().contains("TUI_DO_LIST_FILE"));
    assert_eq!(app.take_pending_new_list(), None);
}

#[test]
fn help_and_review_scroll_and_close() {
    let mut app = App::new(Store::default(), d(31));
    press(&mut app, KeyCode::Char('w'));
    press(&mut app, KeyCode::Char('j'));
    press(&mut app, KeyCode::PageDown);
    assert!(matches!(app.mode, Mode::Review { scroll: 11 }));
    press(&mut app, KeyCode::Char('k'));
    press(&mut app, KeyCode::Char('g'));
    assert!(matches!(app.mode, Mode::Review { scroll: 0 }));
    press(&mut app, KeyCode::Esc);
    assert!(matches!(app.mode, Mode::Normal));
    press(&mut app, KeyCode::Char('?'));
    assert!(matches!(app.mode, Mode::Help { .. }));
    press(&mut app, KeyCode::Char('?'));
    assert!(matches!(app.mode, Mode::Normal));
}

#[test]
fn rollover_cancels_index_bearing_modes_but_keeps_safe_editors() {
    let mut app = App::new(Store::default(), d(30));
    app.confirm_delete = true;
    add(&mut app, "task");
    press(&mut app, KeyCode::Char('d'));
    assert!(matches!(app.mode, Mode::ConfirmDelete(_)));
    app.check_date_rollover(d(31));
    assert!(
        matches!(app.mode, Mode::Normal),
        "confirm cancelled at midnight"
    );

    // A new-task editor holds no index and survives the rollover.
    let mut app = App::new(Store::default(), d(30));
    press(&mut app, KeyCode::Char('a'));
    type_text(&mut app, "half-typed");
    app.check_date_rollover(d(31));
    assert!(matches!(app.mode, Mode::Insert(_)));
    press(&mut app, KeyCode::Enter);
    assert_eq!(texts(&app), ["half-typed"]);

    // Editing by index is cancelled.
    press(&mut app, KeyCode::Char('e'));
    app.check_date_rollover(sep(1));
    assert!(matches!(app.mode, Mode::Normal));
}

#[test]
fn rollover_carries_tasks_and_follows_today() {
    let mut app = App::new(Store::default(), d(30));
    add(&mut app, "late");
    assert!(app.check_date_rollover(d(31)));
    assert_eq!(app.today, d(31));
    assert_eq!(app.date, d(31));
    assert_eq!(texts(&app), ["late"]);
    assert!(!app.check_date_rollover(d(31)));
}
