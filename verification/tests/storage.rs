use tui_do_list::date::Date;
use tui_do_list::model::Store;
use tui_do_list::storage::{
    data_file_name, list_names_to_load, lock_pid, lock_step, locked_message, LockAction, LockEvent,
    NewerVersion,
};

fn day() -> Date {
    Date::from_ymd_opt(2026, 8, 31).unwrap()
}

fn held(contents: &str, lists_processes: bool, is_running: bool) -> LockEvent {
    LockEvent::Exists {
        contents: Some(contents.to_string()),
        lists_processes,
        is_running,
    }
}

#[test]
fn load_reconciles_next_id_with_existing_tasks() {
    let mut store = Store::default();
    store.add(day(), "a".to_string());
    store.days[0].tasks[0].id = 7;
    store.next_id = 1;
    assert_eq!(store.max_id(), 7);
    assert_eq!(store.loaded().unwrap().next_id, 8);
}

#[test]
fn loading_keeps_a_greater_next_id_and_every_task() {
    let mut store = Store::default();
    store.add(day(), "a".to_string());
    store.next_id = 40;
    let mut store = store.loaded().unwrap();
    assert_eq!(store.next_id, 40);
    assert_eq!(store.tasks(day())[0].text, "a");
    store.add(day(), "b".to_string());
    assert_eq!(store.tasks(day())[1].id, 40);
}

#[test]
fn a_newer_format_is_refused() {
    let mut store = Store::default();
    store.version = 2;
    let error = store.loaded().unwrap_err();
    assert_eq!(error, NewerVersion { version: 2 });
    assert_eq!(
        error.message("/tmp/t.json"),
        "/tmp/t.json was written by a newer version (format v2)"
    );
}

#[test]
fn lock_blocks_second_instance_and_recovers_stale_locks() {
    assert_eq!(lock_step(true, &LockEvent::Created), LockAction::Hold);
    let refused = lock_step(true, &held("4242\n", true, true));
    assert_eq!(refused, LockAction::Refuse { pid: Some(4242) });
    let err = locked_message(Some(4242), "/tmp/tasks.lock");
    assert!(err.contains("another tui-do-list instance"), "{err}");
    assert!(err.contains("(pid 4242)"), "{err}");

    // A lock left by a dead process is taken over, once.
    let stale = held("4294967294", true, false);
    assert_eq!(lock_step(true, &stale), LockAction::TakeOver);
    assert_eq!(lock_step(false, &LockEvent::Created), LockAction::Hold);
    assert_eq!(lock_step(false, &stale), LockAction::Fail);
    // Garbage contents are NOT treated as stale.
    let garbage = lock_step(true, &held("who knows", true, false));
    assert_eq!(garbage, LockAction::Refuse { pid: None });
    assert!(!locked_message(None, "/tmp/tasks.lock").contains("pid"));
}

#[test]
fn a_lock_is_kept_where_processes_cannot_be_listed() {
    assert_eq!(
        lock_step(true, &held("17", false, false)),
        LockAction::Refuse { pid: Some(17) }
    );
    assert_eq!(lock_step(true, &LockEvent::Failed), LockAction::Fail);
    assert_eq!(lock_pid(&Some("4294967296".to_string())), None);
    assert_eq!(lock_pid(&Some(" +8 ".to_string())), Some(8));
    assert_eq!(lock_pid(&None), None);
}

#[test]
fn files_are_named_after_their_lists() {
    assert_eq!(data_file_name("work"), "work.json");
    let names = vec!["work".to_string(), "home".to_string()];
    assert_eq!(list_names_to_load(&names, false), ["work", "home"]);
    assert_eq!(list_names_to_load(&names, true), ["tasks"]);
}
