//! What the settings make of keys and colours.

use vstd::prelude::*;

use crate::config::{as_items, listed_after, DEFAULT_LIST, TomlEntryV};
use crate::input_laws::words_end_at_white_space;
use crate::keymap::{
    a_bound_key_does_its_action, bindings_of, bound_until, codes_for, codes_from, codes_of,
    default_action, default_bindings, default_codes_facts, default_keymap_is_valid, first_key_text,
    key_texts, names_action_from, no_key_is_bound_twice, owner, owner_from, setting, setting_from,
    unknown_from, Bound, KeymapFault,
};
use crate::keys::{key_of, key_text, ACTIONS, Action, KeyCode};
use crate::text::{ascii_lower, ascii_lowered, is_white, joined, word_end, words_of};
use crate::text_laws::joined_texts_keep_their_order;
use crate::theme::{
    color_of, default_theme, preset_of, themed, themed_until, with_color, Color, Theme, ThemeFault,
};

verus! {

// --- keys ----------------------------------------------------------------------

/// The keys that words name, in order.
proof fn codes_are_those_named(names: Seq<Seq<char>>)
    ensures
        match codes_of(names) {
            Ok(codes) => codes.len() == names.len() && forall|i: int|
                0 <= i < names.len() ==> key_of(#[trigger] names[i]) == Some(codes[i]),
            Err(bad) => names.contains(bad) && key_of(bad) is None,
        },
    decreases names.len(),
{
    if names.len() > 0 {
        let rest = names.drop_last();
        codes_are_those_named(rest);
        match codes_of(names) {
            Ok(codes) => {
                assert forall|i: int| 0 <= i < names.len() implies key_of(#[trigger] names[i])
                    == Some(codes[i]) by {
                    if i < rest.len() {
                        assert(rest[i] == names[i]);
                    }
                }
            },
            Err(bad) => {
                if codes_of(rest) is Err {
                    let i = choose|i: int| 0 <= i < rest.len() && rest[i] == bad;
                    assert(names[i] == bad);
                } else {
                    assert(names[names.len() - 1] == bad);
                }
            },
        }
    }
}

/// The bindings of the first actions.
proof fn bound_until_is(settings: Seq<(Seq<char>, Seq<char>)>, n: int)
    requires
        0 <= n <= ACTIONS,
        bound_until(settings, n) is Ok,
    ensures
        bound_until(settings, n)->Ok_0.len() == n,
        forall|i: int|
            0 <= i < n ==> codes_for(settings, Action::at(i)) == Ok::<Seq<KeyCode>, Seq<char>>(
                (#[trigger] bound_until(settings, n)->Ok_0[i]).codes,
            ),
    decreases n,
{
    if n > 0 {
        bound_until_is(settings, n - 1);
        let before = bound_until(settings, n - 1)->Ok_0;
        let after = bound_until(settings, n)->Ok_0;
        assert forall|i: int| 0 <= i < n implies codes_for(settings, Action::at(i)) == Ok::<
            Seq<KeyCode>,
            Seq<char>,
        >((#[trigger] after[i]).codes) by {
            if i < n - 1 {
                assert(before[i] == after[i]);
            }
        }
    }
}

/// The value of a setting is that of the first entry with its name.
pub proof fn a_setting_is_the_first_of_its_name(
    list: Seq<(Seq<char>, Seq<char>)>,
    name: Seq<char>,
)
    ensures
        match setting(list, name) {
            Some(value) => exists|k: int|
                0 <= k < list.len() && (#[trigger] list[k]) == (name, value) && forall|j: int|
                    0 <= j < k ==> (#[trigger] list[j]).0 != name,
            None => forall|j: int| 0 <= j < list.len() ==> (#[trigger] list[j]).0 != name,
        },
{
    first_setting(list, name, 0);
}

/// The same from a position on.
proof fn first_setting(list: Seq<(Seq<char>, Seq<char>)>, name: Seq<char>, i: int)
    requires
        0 <= i <= list.len(),
    ensures
        match setting_from(list, name, i) {
            Some(value) => exists|k: int|
                i <= k < list.len() && (#[trigger] list[k]) == (name, value) && forall|j: int|
                    i <= j < k ==> (#[trigger] list[j]).0 != name,
            None => forall|j: int| i <= j < list.len() ==> (#[trigger] list[j]).0 != name,
        },
    decreases list.len() - i,
{
    if i < list.len() {
        first_setting(list, name, i + 1);
        if list[i].0 == name {
            assert(list[i] == (name, list[i].1));
        } else if let Some(value) = setting_from(list, name, i + 1) {
            let k = choose|k: int|
                i + 1 <= k < list.len() && (#[trigger] list[k]) == (name, value) && forall|j: int|
                    i + 1 <= j < k ==> (#[trigger] list[j]).0 != name;
            assert(list[k] == (name, value));
            assert forall|j: int| i <= j < k implies (#[trigger] list[j]).0 != name by {}
        }
    }
}

/// Settings that are taken give an action that they name the keys that they name for it, in order,
/// and leave every other action its default keys.
pub proof fn settings_replace_the_keys_of_their_actions(
    settings: Seq<(Seq<char>, Seq<char>)>,
    i: int,
)
    requires
        bindings_of(settings) is Ok,
        0 <= i < ACTIONS,
    ensures
        ({
            let bound = bindings_of(settings)->Ok_0[i];
            &&& bound.action == Action::at(i)
            &&& match setting(settings, Action::at(i).name_text()) {
                None => bound.codes == default_bindings()[i].codes,
                Some(value) => bound.codes.len() == words_of(value).len() && forall|k: int|
                    0 <= k < bound.codes.len() ==> key_of(#[trigger] words_of(value)[k]) == Some(
                        bound.codes[k],
                    ),
            }
        }),
{
    no_key_is_bound_twice(settings);
    bound_until_is(settings, ACTIONS as int);
    let bound = bindings_of(settings)->Ok_0[i];
    assert(bound == bound_until(settings, ACTIONS as int)->Ok_0[i]);
    if let Some(value) = setting(settings, Action::at(i).name_text()) {
        codes_are_those_named(words_of(value));
    }
}

/// Whether there is an action of that name.
proof fn named_from(name: Seq<char>, i: int)
    requires
        0 <= i,
    ensures
        names_action_from(name, i) <==> exists|k: int|
            i <= k < ACTIONS && #[trigger] Action::at(k).name_text() == name,
    decreases ACTIONS - i,
{
    if i < ACTIONS {
        named_from(name, i + 1);
        if Action::at(i).name_text() != name && names_action_from(name, i) {
            let k = choose|k: int|
                i + 1 <= k < ACTIONS && #[trigger] Action::at(k).name_text() == name;
            assert(Action::at(k).name_text() == name);
        }
    }
}

/// What is wrong with names from a position on.
proof fn unknown_is(settings: Seq<(Seq<char>, Seq<char>)>, i: int)
    requires
        0 <= i <= settings.len(),
    ensures
        match unknown_from(settings, i) {
            Some(name) => (exists|k: int| i <= k < settings.len() && (#[trigger] settings[k]).0 == name)
                && !names_action_from(name, 0),
            None => forall|k: int|
                i <= k < settings.len() ==> names_action_from((#[trigger] settings[k]).0, 0),
        },
    decreases settings.len() - i,
{
    if i < settings.len() {
        unknown_is(settings, i + 1);
    }
}

/// Settings are taken only where every name in them is that of an action; the name that is told is
/// none.
pub proof fn settings_name_actions(settings: Seq<(Seq<char>, Seq<char>)>, j: int)
    ensures
        bindings_of(settings) is Ok && 0 <= j < settings.len() ==> exists|k: int|
            0 <= k < ACTIONS && #[trigger] Action::at(k).name_text() == settings[j].0,
        match bindings_of(settings) {
            Err(KeymapFault::UnknownAction { name }) => forall|k: int|
                0 <= k < ACTIONS ==> #[trigger] Action::at(k).name_text() != name,
            _ => true,
        },
{
    unknown_is(settings, 0);
    if bindings_of(settings) is Ok && 0 <= j < settings.len() {
        assert(names_action_from(settings[j].0, 0));
        named_from(settings[j].0, 0);
    }
    if let Err(KeymapFault::UnknownAction { name }) = bindings_of(settings) {
        if unknown_from(settings, 0) == Some(name) {
            named_from(name, 0);
        } else {
            faults_are_of_keys(settings, ACTIONS as int);
        }
    }
}

/// What can be wrong with the keys.
proof fn faults_are_of_keys(settings: Seq<(Seq<char>, Seq<char>)>, n: int)
    ensures
        match bound_until(settings, n) {
            Err(KeymapFault::UnknownAction { name }) => false,
            _ => true,
        },
    decreases n,
{
    if n > 0 {
        faults_are_of_keys(settings, n - 1);
    }
}

/// Where a default key is listed.
proof fn default_keys_are_listed(code: KeyCode)
    ensures
        default_action(code) is Some ==> default_action(
            code,
        )->Some_0.default_codes().contains(code),
{
    if let Some(action) = default_action(code) {
        let codes = action.default_codes();
        assert(codes.len() >= 1);
        assert(codes[0] == code || (codes.len() >= 2 && codes[1] == code) || (codes.len() >= 3
            && codes[2] == code));
        if codes[0] == code {
            assert(codes.contains(codes[0]));
        } else if codes[1] == code {
            assert(codes.contains(codes[1]));
        } else {
            assert(codes.contains(codes[2]));
        }
    }
}

/// Without settings, every key does what the key reference says, and keys that it does not list do
/// nothing.
pub proof fn default_keys_do_their_actions(code: KeyCode)
    ensures
        owner(default_bindings(), code) == default_action(code),
{
    default_keymap_is_valid();
    no_key_is_bound_twice(Seq::empty());
    default_keys_are_listed(code);
    let bindings = default_bindings();
    match default_action(code) {
        Some(action) => {
            let i = action.position();
            assert(0 <= i < ACTIONS && Action::at(i) == action);
            assert(bindings[i].codes.contains(code));
            a_bound_key_does_its_action(bindings, i, code);
        },
        None => {
            if owner(bindings, code) is Some {
                let i = owner_place(bindings, code, 0);
                default_codes_facts(Action::at(i));
                let codes = Action::at(i).default_codes();
                let k = choose|k: int| 0 <= k < codes.len() && codes[k] == code;
                assert(default_action(codes[k]) == Some(Action::at(i)));
            }
        },
    }
}

/// Where a key that has an action is bound.
proof fn owner_place(bindings: Seq<Bound>, code: KeyCode, i: int) -> (k: int)
    requires
        0 <= i,
        owner_from(bindings, code, i) is Some,
    ensures
        i <= k < bindings.len(),
        bindings[k].codes.contains(code),
    decreases bindings.len() - i,
{
    if bindings[i].codes.contains(code) {
        i
    } else {
        owner_place(bindings, code, i + 1)
    }
}

// --- words ---------------------------------------------------------------------

/// The words of a text have a character each and no white space; the text is its first word and the
/// white space before it, and then what holds the other words.
pub proof fn words_are_between_white_space(s: Seq<char>)
    ensures
        forall|k: int| 0 <= k < words_of(s).len() ==> (#[trigger] words_of(s)[k]).len() > 0,
        forall|k: int, i: int|
            0 <= k < words_of(s).len() && 0 <= i < words_of(s)[k].len() ==> !is_white(
                #[trigger] words_of(s)[k][i],
            ),
        words_of(s).len() == 0 <==> forall|i: int| 0 <= i < s.len() ==> is_white(#[trigger] s[i]),
    decreases s.len(),
{
    if s.len() > 0 {
        if is_white(s[0]) {
            let rest = s.drop_first();
            words_are_between_white_space(rest);
            if forall|i: int| 0 <= i < rest.len() ==> is_white(#[trigger] rest[i]) {
                assert forall|i: int| 0 <= i < s.len() implies is_white(#[trigger] s[i]) by {
                    if i > 0 {
                        assert(rest[i - 1] == s[i]);
                    }
                }
            } else {
                let i = choose|i: int| 0 <= i < rest.len() && !is_white(#[trigger] rest[i]);
                assert(!is_white(s[i + 1]));
            }
        } else {
            words_end_at_white_space(s);
            let n = word_end(s);
            assert(0 < n);
            let rest = s.skip(n as int);
            words_are_between_white_space(rest);
            let all = words_of(s);
            assert(all == seq![s.take(n as int)] + words_of(rest));
            assert forall|k: int| 0 <= k < all.len() implies (#[trigger] all[k]).len() > 0 by {
                if k > 0 {
                    assert(all[k] == words_of(rest)[k - 1]);
                }
            }
            assert forall|k: int, i: int| 0 <= k < all.len() && 0 <= i < all[k].len() implies !is_white(
                #[trigger] all[k][i],
            ) by {
                if k > 0 {
                    assert(all[k] == words_of(rest)[k - 1]);
                }
            }
        }
    }
}

// --- colours -------------------------------------------------------------------

/// The colour of a theme by its name.
pub open spec fn color_named(theme: Theme, name: Seq<char>) -> Option<Color> {
    if name == "high"@ {
        Some(theme.high)
    } else if name == "low"@ {
        Some(theme.low)
    } else if name == "today"@ {
        Some(theme.today)
    } else if name == "other_day"@ {
        Some(theme.other_day)
    } else if name == "reminder"@ {
        Some(theme.reminder)
    } else if name == "overdue"@ {
        Some(theme.overdue)
    } else if name == "accent"@ {
        Some(theme.accent)
    } else if name == "age"@ {
        Some(theme.age)
    } else if name == "repeat"@ {
        Some(theme.repeat)
    } else if name == "done_day"@ {
        Some(theme.done_day)
    } else {
        None
    }
}

/// Setting a colour sets the one of that name alone.
proof fn one_color_is_set(theme: Theme, name: Seq<char>, color: Color, other: Seq<char>)
    ensures
        with_color(theme, name, color) is None <==> color_named(theme, name) is None,
        match with_color(theme, name, color) {
            Some(after) => color_named(after, name) == Some(color) && (other != name
                ==> color_named(after, other) == color_named(theme, other)),
            None => true,
        },
{
    color_names_differ();
}

/// The names of colours are different.
proof fn color_names_differ()
    ensures
        "high"@ != "low"@,
        "high"@ != "today"@,
        "high"@ != "other_day"@,
        "high"@ != "reminder"@,
        "high"@ != "overdue"@,
        "high"@ != "accent"@,
        "high"@ != "age"@,
        "high"@ != "repeat"@,
        "high"@ != "done_day"@,
{
    reveal_strlit("high");
    reveal_strlit("low");
    reveal_strlit("today");
    reveal_strlit("other_day");
    reveal_strlit("reminder");
    reveal_strlit("overdue");
    reveal_strlit("accent");
    reveal_strlit("age");
    reveal_strlit("repeat");
    reveal_strlit("done_day");
    assert("high"@[0] == 'h' && "low"@[0] == 'l' && "today"@[0] == 't' && "other_day"@[0] == 'o'
        && "reminder"@[0] == 'r' && "overdue"@[0] == 'o' && "accent"@[0] == 'a' && "age"@[0] == 'a'
        && "repeat"@[0] == 'r' && "done_day"@[0] == 'd');
}

/// The colours after some settings.
proof fn colors_until(theme: Theme, settings: Seq<(Seq<char>, Seq<char>)>, n: int, name: Seq<char>)
    requires
        0 <= n <= settings.len(),
        themed_until(theme, settings, n) is Ok,
    ensures
        (forall|i: int| 0 <= i < n ==> (#[trigger] settings[i]).0 != name) ==> color_named(
            themed_until(theme, settings, n)->Ok_0,
            name,
        ) == color_named(theme, name),
        forall|i: int|
            0 <= i < n && (#[trigger] settings[i]).0 == name && (forall|j: int|
                i < j < n ==> (#[trigger] settings[j]).0 != name) ==> color_named(
                themed_until(theme, settings, n)->Ok_0,
                name,
            ) == color_of(settings[i].1) && color_of(settings[i].1) is Some,
    decreases n,
{
    if n > 0 {
        colors_until(theme, settings, n - 1, name);
        let before = themed_until(theme, settings, n - 1)->Ok_0;
        let (last, value) = settings[n - 1];
        one_color_is_set(before, last, color_of(value)->Some_0, name);
    }
}

/// A theme has the colours of its preset but for those that settings name: these have the colour that
/// the last setting for them gives.
pub proof fn settings_replace_colors(
    preset: Seq<char>,
    settings: Seq<(Seq<char>, Seq<char>)>,
    name: Seq<char>,
)
    requires
        themed(preset, settings) is Ok,
    ensures
        preset_of(preset) is Some,
        (forall|i: int| 0 <= i < settings.len() ==> (#[trigger] settings[i]).0 != name)
            ==> color_named(themed(preset, settings)->Ok_0, name) == color_named(
            preset_of(preset)->Some_0,
            name,
        ),
        forall|i: int|
            0 <= i < settings.len() && (#[trigger] settings[i]).0 == name && (forall|j: int|
                i < j < settings.len() ==> (#[trigger] settings[j]).0 != name) ==> color_named(
                themed(preset, settings)->Ok_0,
                name,
            ) == color_of(settings[i].1) && color_of(settings[i].1) is Some,
{
    colors_until(preset_of(preset)->Some_0, settings, settings.len() as int, name);
}

/// Settings are refused where a value is no colour, a name is that of none, or the preset is unknown,
/// and the fault tells which.
pub proof fn bad_colors_are_refused(preset: Seq<char>, settings: Seq<(Seq<char>, Seq<char>)>)
    ensures
        match themed(preset, settings) {
            Ok(theme) => forall|i: int|
                0 <= i < settings.len() ==> color_of((#[trigger] settings[i]).1) is Some
                    && color_named(theme, settings[i].0) is Some,
            Err(ThemeFault::UnknownTheme { name }) => name == preset && preset_of(preset) is None,
            Err(ThemeFault::UnknownColor { name, value }) => settings.contains((name, value))
                && color_of(value) is None,
            Err(ThemeFault::UnknownEntry { name }) => exists|i: int|
                0 <= i < settings.len() && (#[trigger] settings[i]).0 == name && color_named(
                    default_theme(),
                    name,
                ) is None,
        },
{
    if let Some(theme) = preset_of(preset) {
        refused_until(theme, settings, settings.len() as int);
        if let Ok(made) = themed(preset, settings) {
            assert forall|i: int| 0 <= i < settings.len() implies color_of(
                (#[trigger] settings[i]).1,
            ) is Some && color_named(made, settings[i].0) is Some by {}
        }
    }
}

/// The same after some settings.
proof fn refused_until(theme: Theme, settings: Seq<(Seq<char>, Seq<char>)>, n: int)
    requires
        0 <= n <= settings.len(),
    ensures
        match themed_until(theme, settings, n) {
            Ok(theme) => forall|i: int|
                0 <= i < n ==> color_of((#[trigger] settings[i]).1) is Some && color_named(
                    theme,
                    settings[i].0,
                ) is Some,
            Err(ThemeFault::UnknownTheme { name }) => false,
            Err(ThemeFault::UnknownColor { name, value }) => settings.contains((name, value))
                && color_of(value) is None,
            Err(ThemeFault::UnknownEntry { name }) => exists|i: int|
                0 <= i < settings.len() && (#[trigger] settings[i]).0 == name && color_named(
                    default_theme(),
                    name,
                ) is None,
        },
    decreases n,
{
    if n > 0 {
        refused_until(theme, settings, n - 1);
        if let Ok(before) = themed_until(theme, settings, n - 1) {
            let (name, value) = settings[n - 1];
            assert(settings[n - 1] == (name, value));
            assert(settings.contains((name, value)));
            if let Some(color) = color_of(value) {
                assert forall|i: int|
                    0 <= i < n && with_color(before, name, color) is Some implies color_named(
                    with_color(before, name, color)->Some_0,
                    (#[trigger] settings[i]).0,
                ) is Some by {
                    one_color_is_set(before, name, color, settings[i].0);
                }
                one_color_is_set(before, name, color, name);
                assert(settings[n - 1].0 == name);
            }
        }
    }
}

// --- the names of lists --------------------------------------------------------

/// Adding a list to the settings adds its name once, behind those that stand there; where none stand
/// there, the name of the list that is there without settings comes first.
pub proof fn an_added_list_is_named_last(entry: TomlEntryV, name: Seq<char>)
    ensures
        entry is Array && entry->Array_0.contains(Some(name)) ==> listed_after(entry, name)
            == entry->Array_0,
        entry is Array && !entry->Array_0.contains(Some(name)) ==> listed_after(entry, name)
            == entry->Array_0.push(Some(name)),
        !(entry is Array) && name == DEFAULT_LIST@ ==> listed_after(entry, name) == seq![Some(name)],
        !(entry is Array) && name != DEFAULT_LIST@ ==> listed_after(entry, name) == seq![
            Some(DEFAULT_LIST@),
            Some(name),
        ],
{
    let base = as_items(seq![DEFAULT_LIST@]);
    assert(base =~= seq![Some(DEFAULT_LIST@)]);
    assert(base[0] == Some(DEFAULT_LIST@));
    assert(base.contains(Some(name)) <==> name == DEFAULT_LIST@);
    let none: Seq<Seq<char>> = Seq::empty();
    assert(as_items(none) =~= Seq::<Option<Seq<char>>>::empty());
    assert(as_items(seq![name]) =~= seq![Some(name)]);
    assert(listed_after(entry, name) =~= (match entry {
        TomlEntryV::Array(items) => if items.contains(Some(name)) {
            items
        } else {
            items.push(Some(name))
        },
        _ => if name == DEFAULT_LIST@ {
            seq![Some(name)]
        } else {
            seq![Some(DEFAULT_LIST@), Some(name)]
        },
    }));
}

// --- keys in messages ----------------------------------------------------------

/// The first word of a text that begins with one.
proof fn first_word(word: Seq<char>, rest: Seq<char>)
    requires
        word.len() > 0,
        forall|k: int| 0 <= k < word.len() ==> !is_white(#[trigger] word[k]),
        rest.len() > 0 ==> is_white(rest[0]),
    ensures
        words_of(word + rest).len() > 0,
        words_of(word + rest)[0] == word,
{
    let s = word + rest;
    words_end_at_white_space(s);
    let n = word_end(s);
    assert(s[0] == word[0]);
    if n < word.len() {
        assert(s[n as int] == word[n as int]);
    } else if n > word.len() {
        assert(s[word.len() as int] == rest[0]);
    }
    assert(s.take(n as int) =~= word);
}

/// Messages and hints name the first key that is bound to an action.
pub proof fn hints_name_the_first_key(bindings: Seq<Bound>, action: Action)
    requires
        codes_from(bindings, action, 0).len() > 0,
        key_text(codes_from(bindings, action, 0)[0]).len() > 0,
        forall|k: int|
            0 <= k < key_text(codes_from(bindings, action, 0)[0]).len() ==> !is_white(
                #[trigger] key_text(codes_from(bindings, action, 0)[0])[k],
            ),
    ensures
        first_key_text(bindings, action) == key_text(codes_from(bindings, action, 0)[0]),
{
    reveal_strlit(" ");
    let names = key_texts(codes_from(bindings, action, 0));
    let first = key_text(codes_from(bindings, action, 0)[0]);
    assert(names[0] == first);
    joined_texts_keep_their_order(names, " "@, 0);
    if names.len() == 1 {
        first_word(first, Seq::empty());
        assert(first + Seq::<char>::empty() =~= first);
    } else {
        joined_texts_keep_their_order(names, " "@, 1);
        joined_texts_keep_their_order(names.take(1), " "@, 0);
        let rest = " "@ + joined(names.skip(1), " "@);
        assert(rest[0] == ' ');
        first_word(first, rest);
        assert(joined(names, " "@) =~= first + rest);
    }
}

/// The keys of an action are those of its first binding.
pub proof fn keys_are_those_of_the_binding(bindings: Seq<Bound>, action: Action, i: int)
    requires
        0 <= i < bindings.len(),
        bindings[i].action == action,
        forall|j: int| 0 <= j < i ==> (#[trigger] bindings[j]).action != action,
    ensures
        codes_from(bindings, action, 0) == bindings[i].codes,
{
    codes_reach(bindings, action, i, 0);
}

/// The same from a position on.
proof fn codes_reach(bindings: Seq<Bound>, action: Action, i: int, k: int)
    requires
        0 <= k <= i < bindings.len(),
        bindings[i].action == action,
        forall|j: int| 0 <= j < i ==> (#[trigger] bindings[j]).action != action,
    ensures
        codes_from(bindings, action, k) == bindings[i].codes,
    decreases i - k,
{
    if k < i {
        assert(bindings[k].action != action);
        codes_reach(bindings, action, i, k + 1);
    }
}

/// A single character names its own key; a longer name stands for the same key in any case, and is
/// read letter by letter: `A` to `Z` as `a` to `z`, everything else as it is.
pub proof fn keys_are_named_in_any_case(a: Seq<char>, b: Seq<char>, c: char)
    requires
        a.len() > 1,
        a.len() == b.len(),
        forall|i: int| 0 <= i < a.len() ==> ascii_lower(#[trigger] a[i]) == ascii_lower(b[i]),
    ensures
        key_of(a) == key_of(b),
        key_of(seq![c]) == Some(KeyCode::Char(c)),
        'A' <= c <= 'Z' ==> ascii_lower(c) as int - 'a' as int == c as int - 'A' as int,
        !('A' <= c <= 'Z') ==> ascii_lower(c) == c,
{
    assert(ascii_lowered(a) =~= ascii_lowered(b));
}

} // verus!
