use tui_do_list::config::{
    add_list, check_lists, list_name_error, names_to_write, AddListError, Config, TomlEntry,
    DEFAULT_LIST,
};
use tui_do_list::keymap::{Keymap, KeymapError};
use tui_do_list::keys::{key_name, parse_key, Action, KeyCode, ACTIONS};
use tui_do_list::theme::{Color, Theme, ThemeError};

fn map(pairs: &[(&str, &str)]) -> Vec<(String, String)> {
    pairs
        .iter()
        .map(|(k, v)| (k.to_string(), v.to_string()))
        .collect()
}

fn strings(list: &[&str]) -> Vec<String> {
    list.iter().map(|x| x.to_string()).collect()
}

/// The names of the lists in the text of the settings.
fn lists_in(raw: &str) -> Vec<String> {
    let table = raw.parse::<toml::Table>().unwrap();
    let names = table["lists"].as_array().unwrap();
    names.iter().map(|x| x.as_str().unwrap().to_string()).collect()
}

#[test]
fn default_keymap_binds_every_action_without_conflicts() {
    let km = Keymap::default();
    for i in 0..ACTIONS {
        let action = Action::nth(i);
        if action != Action::Quit {
            assert!(!km.keys_for(action).is_empty(), "{action:?} has no key");
        }
    }
    assert_eq!(km.action(KeyCode::Char(':')), Some(Action::Command));
    assert_eq!(
        km.action(KeyCode::Char('q')),
        None,
        "q no longer quits directly"
    );
    assert_eq!(km.action(KeyCode::Esc), None);
    assert_eq!(km.action(KeyCode::Char('a')), Some(Action::Add));
    assert_eq!(km.action(KeyCode::Tab), Some(Action::NextList));
    assert_eq!(km.action(KeyCode::Char('N')), Some(Action::NewList));
    assert_eq!(km.action(KeyCode::F(1)), None);
}

#[test]
fn keymap_overrides_and_rejects_conflicts() {
    let km = Keymap::from_config(&map(&[("add", "i ins"), ("quit", "Q")])).unwrap();
    assert_eq!(km.action(KeyCode::Char('i')), Some(Action::Add));
    assert_eq!(km.action(KeyCode::Insert), Some(Action::Add));
    assert_eq!(km.action(KeyCode::Char('a')), None);
    assert_eq!(km.action(KeyCode::Char('Q')), Some(Action::Quit));
    assert_eq!(km.action(KeyCode::Char('q')), None);

    let err = Keymap::from_config(&map(&[("add", "d")])).unwrap_err();
    assert!(err.message().contains("already bound to"), "{err:?}");
    assert!(Keymap::from_config(&map(&[("fly", "f")])).is_err());
    let km = Keymap::from_config(&map(&[("add", "")])).unwrap();
    assert_eq!(km.action(KeyCode::Char('a')), None, "empty value unbinds");
    assert!(Keymap::from_config(&map(&[("add", "ctrl+x")])).is_err());
}

#[test]
fn key_names_round_trip() {
    for spec in [
        "a", "Z", "/", "space", "enter", "tab", "esc", "pgup", "f5", "home",
    ] {
        let code = parse_key(spec).unwrap();
        assert_eq!(parse_key(&key_name(code)).unwrap(), code, "{spec}");
    }
    assert_eq!(parse_key("up").unwrap(), KeyCode::Up);
    assert!(parse_key("f13").is_err());
}

#[test]
fn theme_overrides_and_validates() {
    let theme =
        Theme::from_config(&map(&[("high", "#ff8800"), ("today", "light_blue")])).unwrap();
    assert_eq!(theme.high, Color::Rgb(255, 136, 0));
    assert_eq!(theme.today, Color::LightBlue);
    assert_eq!(theme.low, Theme::default().low);
    assert!(Theme::from_config(&map(&[("high", "not-a-colour")])).is_err());
    assert!(Theme::from_config(&map(&[("border", "red")])).is_err());
}

#[test]
fn add_list_creates_updates_and_preserves_the_file() {
    // Missing file: created, with the implicit default list materialized.
    let raw = add_list("", "work").unwrap();
    assert_eq!(lists_in(&raw), [DEFAULT_LIST, "work"]);

    // Comments and unrelated settings survive; sections stay valid TOML.
    let raw = add_list(
        "# my config\nlists = [\"personal\"]\nconfirm_delete = true\n\n[colors]\nhigh = \"red\"\n",
        "work",
    )
    .unwrap();
    assert!(raw.contains("# my config"), "{raw}");
    assert!(raw.contains("confirm_delete = true"), "{raw}");
    assert_eq!(lists_in(&raw), ["personal", "work"]);
    let table = raw.parse::<toml::Table>().unwrap();
    assert_eq!(table["confirm_delete"].as_bool(), Some(true));
    assert_eq!(table["colors"]["high"].as_str(), Some("red"));

    // Adding a name that is already present changes nothing.
    let raw = add_list(&raw, "work").unwrap();
    assert_eq!(lists_in(&raw), ["personal", "work"]);

    // A `lists` that is not an array is an error, not an overwrite.
    assert!(add_list("lists = \"oops\"\n", "work").is_err());
}

#[test]
fn list_name_rules() {
    assert!(list_name_error("work", &["tasks"]).is_none());
    assert!(list_name_error("", &[]).unwrap().contains("invalid"));
    assert!(list_name_error("a/b", &[]).unwrap().contains("invalid"));
    assert!(list_name_error("a\\b", &[]).unwrap().contains("invalid"));
    assert!(
        list_name_error("tasks", &["tasks"])
            .unwrap()
            .contains("duplicate")
    );
}

#[test]
fn lists_in_the_settings_are_checked() {
    assert_eq!(Config::default().lists, [DEFAULT_LIST]);
    assert_eq!(Config::default().notify_window_secs, 60);
    assert!(check_lists(&strings(&["personal", "work"])).is_none());
    assert!(check_lists(&strings(&[])).is_some());
    assert!(check_lists(&strings(&["a/b"])).is_some());
    let err = check_lists(&strings(&["a", "b", "a"])).unwrap();
    assert!(err.contains("duplicate list name"), "{err}");
    assert!(err.contains("\"a\""), "{err}");
}

#[test]
fn adding_a_list_before_a_section_keeps_the_section() {
    let raw = add_list("[colors]\nlow = \"gray\"\n", "work").unwrap();
    assert_eq!(lists_in(&raw), [DEFAULT_LIST, "work"]);
    let table = raw.parse::<toml::Table>().unwrap();
    assert_eq!(table["colors"]["low"].as_str(), Some("gray"));
    // The default list is not written twice.
    assert_eq!(lists_in(&add_list("", DEFAULT_LIST).unwrap()), [DEFAULT_LIST]);
    // Items that are no names stay where they are.
    let raw = add_list("lists = [1, \"a\"] # two\n", "b").unwrap();
    let table = raw.parse::<toml::Table>().unwrap();
    assert_eq!(table["lists"].as_array().unwrap().len(), 3);
    assert!(raw.contains("# two"));
}

#[test]
fn settings_that_cannot_take_a_list_are_told_apart() {
    let error = add_list("lists = [", "work").unwrap_err();
    assert!(matches!(error, AddListError::Syntax(_)));
    assert!(error.message().contains("TOML"), "{}", error.message());
    let error = add_list("[lists]\na = 1\n", "work").unwrap_err();
    assert!(matches!(error, AddListError::NotArray));
    assert_eq!(error.message(), "`lists` is not an array");
}

#[test]
fn names_to_write_follow_what_stands_there() {
    let there = TomlEntry::Array(vec![None, Some("a".to_string())]);
    assert_eq!(names_to_write(&there, "a").unwrap(), Vec::<String>::new());
    assert_eq!(names_to_write(&there, "b").unwrap(), ["b"]);
    assert_eq!(names_to_write(&TomlEntry::Absent, "b").unwrap(), ["tasks", "b"]);
    assert!(names_to_write(&TomlEntry::NotArray, "b").is_none());
}

#[test]
fn key_settings_that_are_wrong_are_told_apart() {
    let error = Keymap::from_config(&map(&[("add", "ctrl+x")])).unwrap_err();
    assert!(matches!(error, KeymapError::Key { action: Action::Add, .. }));
    assert_eq!(error.message(), "[keys] add");
    let error = Keymap::from_config(&map(&[("add", "d")])).unwrap_err();
    assert!(matches!(error, KeymapError::Conflict { .. }));
    let error = Keymap::from_config(&map(&[("fly", "f")])).unwrap_err();
    assert!(matches!(error, KeymapError::UnknownAction { .. }));
    assert!(error.message().contains("\"fly\""), "{}", error.message());
}

#[test]
fn a_bound_key_is_shown_first() {
    let km = Keymap::from_config(&map(&[("add", "i ins")])).unwrap();
    assert_eq!(km.first_key(Action::Add), "i");
    assert_eq!(km.keys_for(Action::Add), "i ins");
    assert_eq!(km.first_key(Action::Quit), "?");
    assert_eq!(Action::HideDone.name(), "hide_done");
    assert_eq!(Action::HideDone.default_keys(), [KeyCode::Char('f')]);
}

#[test]
fn key_names_are_lenient() {
    assert_eq!(parse_key("PgDn").unwrap(), KeyCode::PageDown);
    assert_eq!(parse_key("é").unwrap(), KeyCode::Char('é'));
    assert_eq!(parse_key("F12").unwrap(), KeyCode::F(12));
    assert!(parse_key("f0").is_err());
    assert_eq!(parse_key("").unwrap_err().message(), "unknown key \"\"");
}

#[test]
fn presets_and_colours_are_told_apart() {
    assert_eq!(Theme::preset("default"), Some(Theme::default()));
    for name in ["nord", "dawn", "matrix", "slate"] {
        assert_ne!(Theme::preset(name).unwrap(), Theme::default(), "{name}");
    }
    let theme = Theme::from_preset("nord", &map(&[("age", "9")])).unwrap();
    assert_eq!(theme.age, Color::Indexed(9));
    assert_eq!(theme.high, Theme::preset("nord").unwrap().high);
    let error = Theme::from_preset("neon", &map(&[])).unwrap_err();
    assert!(matches!(error, ThemeError::UnknownTheme { .. }));
    assert!(error.message().contains("default, nord, dawn, matrix, slate"));
    let error = Theme::from_config(&map(&[("high", "not-a-colour")])).unwrap_err();
    assert!(matches!(error, ThemeError::UnknownColor { .. }));
    assert_eq!(error.message(), "[colors] high: unknown colour \"not-a-colour\"");
    let error = Theme::from_config(&map(&[("border", "red")])).unwrap_err();
    assert!(matches!(error, ThemeError::UnknownEntry { .. }));
    assert_eq!(
        Theme::default().with("low", Color::Blue).unwrap().low,
        Color::Blue
    );
    assert!(Theme::default().with("border", Color::Blue).is_none());
}

#[test]
fn names_of_lists_are_read_back_as_they_were_written() {
    for name in [
        "a b", "é☕", "\"", "'", "'''", "\"\"\"", "a\nb", "\n", "\r\n", "\r", "\t", "\u{0}", "\u{1f}",
        "\u{7f}", "\\", "\\n", "#", "]", "", " ", "a\"'b\n'''\"\"\"",
    ] {
        assert_eq!(lists_in(&add_list("", name).unwrap()), [DEFAULT_LIST, name], "{name:?}");
        let raw = "lists = [ # c\n  'x', # d\n] # e\ntheme = 'nord'\n[keys]\nadd = 'i'\n";
        let text = add_list(raw, name).unwrap();
        assert_eq!(lists_in(&text), ["x", name], "{name:?}");
        let table = text.parse::<toml::Table>().unwrap();
        assert_eq!(table["theme"].as_str(), Some("nord"));
        assert_eq!(table["keys"]["add"].as_str(), Some("i"));
        for comment in ["# c", "# d", "# e"] {
            assert!(text.contains(comment), "{text}");
        }
    }
}

/// Whether `text` is `raw` with one piece put in.
fn one_piece_more(raw: &[char], text: &[char]) -> bool {
    let alike = raw.iter().zip(text).take_while(|(a, b)| a == b).count();
    let behind = raw.iter().rev().zip(text.iter().rev()).take_while(|(a, b)| a == b).count();
    text.len() >= raw.len() && alike + behind >= raw.len()
}

fn layout_kept(raw: &str, text: &str) -> bool {
    let (before, after): (Vec<char>, Vec<char>) = (raw.chars().collect(), text.chars().collect());
    let mut ended = before.clone();
    ended.push('\n');
    let may_be_ended = before.last().is_some_and(|c| *c != '\n');
    one_piece_more(&before, &after) || may_be_ended && one_piece_more(&ended, &after)
}

/// Settings of many layouts, put together from `seed`.
fn plain_settings(seed: &mut u64) -> String {
    let mut pick = |parts: &[&str]| {
        *seed = seed.wrapping_mul(6364136223846793005).wrapping_add(1442695040888963407);
        parts[(*seed >> 33) as usize % parts.len()].to_string()
    };
    let mut raw = pick(&["", "", "# top: a.b [x]\n", "\n\n", "  \n", "#\n\t# more\n\n", " "]);
    for key in ["confirm_delete", "lists", "\"theme\"", "'quoted key'"] {
        let skip = pick(&["", "", "skip"]);
        if skip == "skip" {
            continue;
        }
        raw += &pick(&["", "", "  ", "\t", "# before\n", "\n", "   # é ünï \"'\n\n"]);
        raw += key;
        raw += &pick(&[" = ", "=", "\t=  ", " ="]);
        raw += &if key == "lists" {
            pick(&[
                "[]", "[ ]", "[\n]", "[ # none\n]", "['a']", "[ \"a\" ]", "[\"a\",]", "[ 'a' , ]",
                "[\n  \"a\", # one\n  'b' # two\n]", "[\n  \"a\",\n  # last\n]", "[\"a\\tb\", 1 , true]",
                "[ [1, 2 ] ,['x'],]", "[\n# x\n\"a\"\n,\n# y\n]",
            ])
        } else {
            pick(&[
                "true", "1_000", "0x1F", "1.5e3", "\"nord\"", "'C:\\x.y'", "\"a # b.c\"", "\"\\u00e9\"",
                "2026-08-01", "2026-08-01T07:30:00.25Z", "[ 1,2 , ]", "[\n\n 3 # c\n]", "\"\"", "''",
            ])
        };
        raw += &pick(&["\n", "\n", " # behind, a.b\n", "  \n", "\n\n", "#\n"]);
    }
    for table in ["colors", "keys", "'odd one'"] {
        let skip = pick(&["", "skip"]);
        if skip == "skip" {
            continue;
        }
        raw += &pick(&["", "\n", "# section\n", "  ", "\n# a\n\n# b\n"]);
        raw += "[";
        raw += &pick(&["", " ", "\t"]);
        raw += table;
        raw += &pick(&["]", " ]", "] ", "]\t# its own", "] # [x]"]);
        raw += "\n";
        raw += &pick(&["", "high = \"red\"\n", " low='#00ff00' # c\n", "# only\n", "lists = [1]\n\n"]);
    }
    raw += &pick(&["", "", "# end", "\n", "   ", "# end\n", "\t# a\n\n  # b"]);
    if pick(&["", "", "cut"]) == "cut" {
        raw.truncate(raw.trim_end().len());
    }
    raw
}

#[test]
fn adding_a_list_puts_in_one_piece() {
    assert_eq!(
        add_list("# mine\nlists = [ 'a', # one\n] # all\n\n[colors] # c\n", "b").unwrap(),
        "# mine\nlists = [ 'a', \"b\", # one\n] # all\n\n[colors] # c\n"
    );
    assert_eq!(
        add_list("# mine\n\n[colors] # c\nlow = 1", "b").unwrap(),
        "lists = [\"tasks\", \"b\"]\n# mine\n\n[colors] # c\nlow = 1\n"
    );
    let mut seed: u64 = 7;
    for _ in 0..20_000 {
        let raw = plain_settings(&mut seed);
        for name in ["work", "a", "x # ]\n"] {
            let text = add_list(&raw, name).unwrap();
            assert!(layout_kept(&raw, &text), "{raw:?} became {text:?}");
            // A second time nothing is left to put in.
            assert_eq!(add_list(&text, name).unwrap(), text);
        }
    }
}

#[test]
fn adding_a_list_that_is_there_changes_nothing() {
    for raw in [
        "lists = ['work']\n", "# c\n lists=[ \"work\" , # d\n 'b',\n ]# e\n\n[keys] # f\nadd = 'i'\n# g",
    ] {
        assert_eq!(add_list(raw, "work").unwrap(), raw);
    }
    // A last line that has no line feed gets one.
    assert_eq!(add_list("lists = ['work']", "work").unwrap(), "lists = ['work']\n");
}
