//! The settings: lists, colours, key bindings and behaviour flags.
//! Everything has a default, so the settings may be absent or partial.

use vstd::prelude::*;

use crate::text::{contains_char, has_part, owned, quote, quoted, same, str_texts, texts};

verus! {

/// The environment variable that names the file with the settings.
pub const ENV_CONFIG: &'static str = "TUI_DO_LIST_CONFIG";

/// The name of the list that is there without settings.
pub const DEFAULT_LIST: &'static str = "tasks";

/// The name of the setting that holds the names of the lists.
pub const LISTS_KEY: &'static str = "lists";

/// The settings as they stand in the file.
#[derive(Debug, Clone)]
pub struct Config {
    /// Named lists; each is stored as `<name>.json`. `Tab` cycles through them.
    pub lists: Vec<String>,
    /// Start with the priority/overdue sort switched on (`s` toggles it).
    pub sort_by_priority: bool,
    /// Start in the focus view, with completed tasks hidden (`f` toggles it).
    pub hide_done: bool,
    /// Start with the read-only side pane open (`|` toggles it).
    pub split: bool,
    /// Ask `y/n` before deleting a task.
    pub confirm_delete: bool,
    /// Seconds before "now" that `tui-do-list notify` looks back for reminders.
    pub notify_window_secs: u64,
    /// The colour preset.
    pub theme: String,
    pub colors: Vec<(String, String)>,
    pub keys: Vec<(String, String)>,
}

/// The names of the lists that are there without settings.
pub open spec fn default_lists() -> Seq<Seq<char>> {
    seq![DEFAULT_LIST@]
}

impl Default for Config {
    fn default() -> (r: Self)
        ensures
            texts(r.lists@) == default_lists(),
            !r.sort_by_priority,
            !r.hide_done,
            !r.split,
            !r.confirm_delete,
            r.notify_window_secs == 60,
            r.theme@ == "default"@,
            r.colors@.len() == 0,
            r.keys@.len() == 0,
    {
        Config {
            lists: initial_lists(),
            sort_by_priority: false,
            hide_done: false,
            split: false,
            confirm_delete: false,
            notify_window_secs: 60,
            theme: owned("default"),
            colors: Vec::new(),
            keys: Vec::new(),
        }
    }
}

/// The names of the lists that are there without settings.
fn initial_lists() -> (r: Vec<String>)
    ensures
        texts(r@) == default_lists(),
{
    let mut lists: Vec<String> = Vec::new();
    lists.push(owned(DEFAULT_LIST));
    assert(texts(lists@) =~= default_lists());
    lists
}

// --- names of lists ------------------------------------------------------------

/// Why `name` cannot be used as a list name beside those that exist: it is empty or has a path
/// separator in it, or it is already taken.
pub open spec fn name_error(name: Seq<char>, existing: Seq<Seq<char>>) -> Option<Seq<char>> {
    if name.len() == 0 || name.contains('/') || name.contains('\\') {
        Some("invalid list name "@ + quoted(name))
    } else if existing.contains(name) {
        Some("duplicate list name "@ + quoted(name))
    } else {
        None
    }
}

/// Why `name` cannot be used as a list name (`None` when it can). A duplicate
/// would load the same file into two independent stores, and the save-on-exit
/// of the stale copy would clobber the fresh one.
pub fn list_name_error(name: &str, existing: &[&str]) -> (r: Option<String>)
    ensures
        match r {
            Some(error) => name_error(name@, str_texts(existing@)) == Some(error@),
            None => name_error(name@, str_texts(existing@)) is None,
        },
{
    if name.is_empty() || contains_char(name, '/') || contains_char(name, '\\') {
        let mut out = owned("invalid list name ");
        out.push_str(quote(name).as_str());
        return Some(out);
    }
    let ghost all = str_texts(existing@);
    let mut i: usize = 0;
    while i < existing.len()
        invariant
            i <= existing@.len(),
            all == str_texts(existing@),
            name@.len() > 0,
            !name@.contains('/'),
            !name@.contains('\\'),
            forall|k: int| 0 <= k < i ==> #[trigger] all[k] != name@,
        decreases existing@.len() - i,
    {
        assert(all[i as int] == existing@[i as int]@);
        if same(existing[i], name) {
            let mut out = owned("duplicate list name ");
            out.push_str(quote(name).as_str());
            return Some(out);
        }
        i += 1;
    }
    None
}

/// What is wrong with the names of lists from the `n`-th on; each is held against those before it.
pub open spec fn lists_error_from(lists: Seq<Seq<char>>, n: int) -> Option<Seq<char>>
    decreases lists.len() - n,
{
    if n >= lists.len() {
        None
    } else {
        match name_error(lists[n], lists.take(n)) {
            Some(error) => Some(error),
            None => lists_error_from(lists, n + 1),
        }
    }
}

/// What is wrong with the names of all lists.
pub open spec fn lists_error(lists: Seq<Seq<char>>) -> Option<Seq<char>> {
    if lists.len() == 0 {
        Some("`lists` must contain at least one name"@)
    } else {
        lists_error_from(lists, 0)
    }
}

/// What is wrong with the names of the lists, if anything is.
pub fn check_lists(lists: &Vec<String>) -> (r: Option<String>)
    ensures
        match r {
            Some(error) => lists_error(texts(lists@)) == Some(error@),
            None => lists_error(texts(lists@)) is None,
        },
{
    if lists.len() == 0 {
        return Some(owned("`lists` must contain at least one name"));
    }
    let ghost all = texts(lists@);
    let mut prior: Vec<&str> = Vec::new();
    let mut n: usize = 0;
    assert(str_texts(prior@) =~= all.take(0));
    while n < lists.len()
        invariant
            n <= lists@.len(),
            lists@.len() > 0,
            all == texts(lists@),
            str_texts(prior@) == all.take(n as int),
            lists_error(all) == lists_error_from(all, n as int),
        decreases lists@.len() - n,
    {
        let name = lists[n].as_str();
        assert(all[n as int] == name@);
        if let Some(error) = list_name_error(name, prior.as_slice()) {
            return Some(error);
        }
        let ghost before = prior@;
        prior.push(name);
        assert(str_texts(prior@) =~= str_texts(before).push(name@));
        assert(all.take(n + 1) =~= all.take(n as int).push(name@));
        n += 1;
    }
    None
}

/// Names that nothing is wrong with are all different, and each can be used.
pub proof fn good_names_are_different(lists: Seq<Seq<char>>)
    requires
        lists_error(lists) is None,
    ensures
        lists.len() > 0,
        lists.no_duplicates(),
        forall|i: int|
            0 <= i < lists.len() ==> name_error(#[trigger] lists[i], Seq::empty()) is None,
{
    good_names_from(lists, 0);
    assert forall|i: int, j: int| 0 <= i < j < lists.len() implies lists[i] != lists[j] by {
        assert(name_error(lists[j], lists.take(j)) is None);
        assert(lists.take(j)[i] == lists[i]);
    }
    assert forall|i: int| 0 <= i < lists.len() implies name_error(
        #[trigger] lists[i],
        Seq::empty(),
    ) is None by {
        assert(name_error(lists[i], lists.take(i)) is None);
    }
}

/// Nothing is wrong with a name held against those before it.
proof fn good_names_from(lists: Seq<Seq<char>>, n: int)
    requires
        0 <= n,
        lists_error_from(lists, n) is None,
    ensures
        forall|i: int|
            #![trigger lists[i]]
            n <= i < lists.len() ==> name_error(lists[i], lists.take(i)) is None,
    decreases lists.len() - n,
{
    if n < lists.len() {
        good_names_from(lists, n + 1);
    }
}

// --- a new list in the text of the settings ------------------------------------

/// What stands under a key of a TOML document.
#[derive(Debug)]
pub enum TomlEntry {
    Absent,
    /// Something that is no array.
    NotArray,
    /// An array: its strings, and nothing for each item that is no string.
    Array(Vec<Option<String>>),
}

/// What stands under a key of a TOML document, with texts by what they hold.
#[verifier::ext_equal]
pub ghost enum TomlEntryV {
    Absent,
    NotArray,
    Array(Seq<Option<Seq<char>>>),
}

/// The characters of texts that may be missing.
pub open spec fn opt_texts(list: Seq<Option<String>>) -> Seq<Option<Seq<char>>> {
    list.map_values(|s: Option<String>| crate::task::opt_text(s))
}

impl View for TomlEntry {
    type V = TomlEntryV;

    open spec fn view(&self) -> TomlEntryV {
        match self {
            TomlEntry::Absent => TomlEntryV::Absent,
            TomlEntry::NotArray => TomlEntryV::NotArray,
            TomlEntry::Array(items) => TomlEntryV::Array(opt_texts(items@)),
        }
    }
}

/// Texts as items of an array.
pub open spec fn as_items(list: Seq<Seq<char>>) -> Seq<Option<Seq<char>>> {
    list.map_values(|s: Seq<char>| Some(s))
}

/// What stands under `key` in the TOML document `raw`, or what is wrong with the document.
pub uninterp spec fn toml_entry(raw: Seq<char>, key: Seq<char>) -> Result<TomlEntryV, Seq<char>>;

/// The TOML document `raw` with an array of texts put in under `key`.
pub uninterp spec fn toml_inserted(
    raw: Seq<char>,
    key: Seq<char>,
    items: Seq<Seq<char>>,
) -> Seq<char>;

/// The TOML document `raw` with texts added to the array under `key`.
pub uninterp spec fn toml_extended(
    raw: Seq<char>,
    key: Seq<char>,
    items: Seq<Seq<char>>,
) -> Seq<char>;

/// Whether positions `a` and `b` of a text are on one line.
pub open spec fn same_line(raw: Seq<char>, a: int, b: int) -> bool {
    forall|k: int| a <= k < b ==> raw[k] != '\n'
}

/// Whether position `i` of a TOML document is in a value or in a comment: before it on its line
/// stands an `=` or a `#` that no quotation mark comes before.
pub open spec fn behind_key(raw: Seq<char>, i: int) -> bool {
    exists|h: int|
        0 <= h < i && (raw[h] == '=' || raw[h] == '#') && #[trigger] same_line(raw, h, i)
            && forall|k: int|
            0 <= k < h && (raw[k] == '"' || raw[k] == '\'') ==> !#[trigger] same_line(raw, k, h)
}

/// Whether a TOML document is made of lines with simple keys: no dotted keys or names of tables, no
/// arrays of tables, no inline tables, no texts over several lines, no byte order mark, and lines
/// that end in a line feed alone.
pub open spec fn plain_toml(raw: Seq<char>) -> bool {
    &&& !raw.contains('\r') && !raw.contains('{') && !(raw.len() > 0 && raw[0] == '\u{feff}')
    &&& !has_part(raw, "[["@) && !has_part(raw, "\"\"\""@) && !has_part(raw, "\'\'\'"@)
    &&& forall|i: int| 0 <= i < raw.len() && #[trigger] raw[i] == '.' ==> behind_key(raw, i)
}

/// A text with a piece put in at `i`.
pub open spec fn with_piece(raw: Seq<char>, i: int, piece: Seq<char>) -> Seq<char> {
    raw.take(i) + piece + raw.skip(i)
}

/// Whether `text` is `raw` with one piece put in.
pub open spec fn one_piece_more(raw: Seq<char>, text: Seq<char>) -> bool {
    exists|i: int, piece: Seq<char>|
        0 <= i <= raw.len() && text == #[trigger] with_piece(raw, i, piece)
}

/// Whether a last line that has no line feed may have got one.
pub open spec fn may_be_ended(raw: Seq<char>) -> bool {
    raw.len() > 0 && raw.last() != '\n'
}

/// Whether everything in `raw`, comments and white space included, is in `text` as it was: one
/// piece was put in, and the last line may have got a line feed that it lacked.
pub open spec fn layout_kept(raw: Seq<char>, text: Seq<char>) -> bool {
    one_piece_more(raw, text) || may_be_ended(raw) && one_piece_more(raw.push('\n'), text)
}

/// `toml_edit::DocumentMut`'s `FromStr` and `get`: what stands under `key` in the document, or the
/// text of the error where it is no TOML document.
#[verifier::external_body]
fn read_toml_entry(raw: &str, key: &str) -> (r: Result<TomlEntry, String>)
    ensures
        match r {
            Ok(entry) => toml_entry(raw@, key@) == Ok::<TomlEntryV, Seq<char>>(entry@),
            Err(e) => toml_entry(raw@, key@) == Err::<TomlEntryV, Seq<char>>(e@),
        },
{
    let doc = raw.parse::<toml_edit::DocumentMut>().map_err(|e| e.to_string())?;
    Ok(match doc.get(key) {
        None => TomlEntry::Absent,
        Some(item) => match item.as_array() {
            None => TomlEntry::NotArray,
            Some(a) => TomlEntry::Array(a.iter().map(|v| v.as_str().map(str::to_string)).collect()),
        },
    })
}

/// `toml_edit::DocumentMut`'s `insert` and `to_string`: puts an array of texts under a key that is
/// not there yet. The key then holds these texts, and every other key what it held. A plain document
/// is kept as it was but for one piece that is put in; of other documents that is not stated, as
/// some are written out in another order or without their carriage returns.
#[verifier::external_body]
fn insert_toml_array(raw: &str, key: &str, items: &Vec<String>) -> (r: String)
    requires
        (toml_entry(raw@, key@) == Ok::<TomlEntryV, Seq<char>>(TomlEntryV::Absent)),
    ensures
        r@ == toml_inserted(raw@, key@, texts(items@)),
        (toml_entry(r@, key@) == Ok::<TomlEntryV, Seq<char>>(
            TomlEntryV::Array(as_items(texts(items@))),
        )),
        forall|other: Seq<char>|
            other != key@ ==> #[trigger] toml_entry(r@, other) == toml_entry(raw@, other),
        plain_toml(raw@) ==> layout_kept(raw@, r@),
{
    let mut doc = raw.parse::<toml_edit::DocumentMut>().unwrap();
    doc.insert(key, toml_edit::value(toml_edit::Array::from_iter(items.iter())));
    doc.to_string()
}

/// `toml_edit::Array`'s `extend` and `toml_edit::DocumentMut`'s `to_string`: adds texts at the end of
/// the array under a key. The key then holds what it held and these texts, and every other key
/// what it held. A plain document is kept as it was but for one piece that is put in, which is empty
/// where there are no texts to add; of other documents that is not stated, as some are written out
/// in another order or without their carriage returns.
#[verifier::external_body]
fn extend_toml_array(raw: &str, key: &str, items: &Vec<String>) -> (r: String)
    requires
        toml_entry(raw@, key@) is Ok,
        toml_entry(raw@, key@)->Ok_0 is Array,
    ensures
        r@ == toml_extended(raw@, key@, texts(items@)),
        (toml_entry(r@, key@) == Ok::<TomlEntryV, Seq<char>>(
            TomlEntryV::Array(toml_entry(raw@, key@)->Ok_0->Array_0 + as_items(texts(items@))),
        )),
        forall|other: Seq<char>|
            other != key@ ==> #[trigger] toml_entry(r@, other) == toml_entry(raw@, other),
        plain_toml(raw@) ==> layout_kept(raw@, r@),
        plain_toml(raw@) && items@.len() == 0 ==> r@ == raw@ || may_be_ended(raw@) && r@
            == raw@.push('\n'),
{
    let mut doc = raw.parse::<toml_edit::DocumentMut>().unwrap();
    let array = doc[key].as_array_mut().unwrap();
    array.extend(items.iter());
    doc.to_string()
}

/// Why a list cannot be added to the settings.
#[derive(Debug)]
pub enum AddListError {
    /// The text is no TOML document; what is wrong with it.
    Syntax(String),
    /// The names of the lists are no array.
    NotArray,
}

impl AddListError {
    /// What is wrong, in words.
    pub fn message(&self) -> (r: String)
        ensures
            match self {
                AddListError::Syntax(error) => r@ == error@,
                AddListError::NotArray => r@ == "`lists` is not an array"@,
            },
    {
        match self {
            AddListError::Syntax(error) => owned(error.as_str()),
            AddListError::NotArray => owned("`lists` is not an array"),
        }
    }
}

/// Whether `name` is among the items of an array.
fn has_item(items: &Vec<Option<String>>, name: &str) -> (r: bool)
    ensures
        r == opt_texts(items@).contains(Some(name@)),
{
    let ghost all = opt_texts(items@);
    let mut i: usize = 0;
    while i < items.len()
        invariant
            i <= items@.len(),
            all == opt_texts(items@),
            forall|k: int| 0 <= k < i ==> #[trigger] all[k] != Some(name@),
        decreases items@.len() - i,
    {
        assert(all[i as int] == crate::task::opt_text(items@[i as int]));
        if let Some(item) = &items[i] {
            if same(item.as_str(), name) {
                assert(all[i as int] == Some(name@));
                return true;
            }
        }
        i += 1;
    }
    false
}

/// The names that `add_list` adds to those that are there: `name`, unless it is among them.
pub open spec fn names_to_add(items: Seq<Option<Seq<char>>>, name: Seq<char>) -> Seq<Seq<char>> {
    if items.contains(Some(name)) {
        Seq::empty()
    } else {
        seq![name]
    }
}

/// The text of the settings with `name` added to the names of the lists.
pub open spec fn list_added(raw: Seq<char>, name: Seq<char>) -> Seq<char> {
    let entry = toml_entry(raw, LISTS_KEY@)->Ok_0;
    if entry is Array {
        toml_extended(raw, LISTS_KEY@, names_written(entry, name))
    } else {
        toml_inserted(raw, LISTS_KEY@, names_written(entry, name))
    }
}

/// The names that `add_list` writes: those that are missing behind the ones that stand there, or,
/// where nothing stands there, all of them.
pub open spec fn names_written(entry: TomlEntryV, name: Seq<char>) -> Seq<Seq<char>> {
    match entry {
        TomlEntryV::Array(items) => names_to_add(items, name),
        _ => default_lists() + names_to_add(as_items(default_lists()), name),
    }
}

/// The names to write for a new list, given what stands under the key; nothing where that is no
/// array.
pub fn names_to_write(entry: &TomlEntry, name: &str) -> (r: Option<Vec<String>>)
    ensures
        match r {
            Some(names) => !(entry@ is NotArray) && texts(names@) == names_written(entry@, name@),
            None => entry@ is NotArray,
        },
{
    match entry {
        TomlEntry::NotArray => None,
        TomlEntry::Absent => {
            let mut names = initial_lists();
            let ghost before = names@;
            proof {
                assert(as_items(default_lists())[0] == Some(DEFAULT_LIST@));
                assert(as_items(default_lists()).contains(Some(name@)) <==> name@
                    == DEFAULT_LIST@);
            }
            if !same(name, DEFAULT_LIST) {
                names.push(owned(name));
                assert(texts(names@) =~= texts(before) + seq![name@]);
            } else {
                assert(texts(names@) =~= texts(before) + Seq::<Seq<char>>::empty());
            }
            Some(names)
        },
        TomlEntry::Array(items) => {
            let mut names: Vec<String> = Vec::new();
            if !has_item(items, name) {
                names.push(owned(name));
                assert(texts(names@) =~= seq![name@]);
            } else {
                assert(texts(names@) =~= Seq::<Seq<char>>::empty());
            }
            Some(names)
        },
    }
}

/// Whether the settings name a list already.
pub open spec fn already_listed(raw: Seq<char>, name: Seq<char>) -> bool {
    match toml_entry(raw, LISTS_KEY@) {
        Ok(TomlEntryV::Array(items)) => items.contains(Some(name)),
        _ => false,
    }
}

/// Appends `name` to `lists` in the text of the settings, preserving comments and unrelated
/// settings. When the key is absent the default is written out first, so the lists already in
/// use keep loading. A name that is already present is left alone.
pub fn add_list(raw: &str, name: &str) -> (r: Result<String, AddListError>)
    ensures
        match r {
            Ok(text) => toml_entry(raw@, LISTS_KEY@) is Ok && !(toml_entry(
                raw@,
                LISTS_KEY@,
            )->Ok_0 is NotArray) && text@ == list_added(raw@, name@) && toml_entry(
                text@,
                LISTS_KEY@,
            ) == Ok::<TomlEntryV, Seq<char>>(
                TomlEntryV::Array(listed_after(toml_entry(raw@, LISTS_KEY@)->Ok_0, name@)),
            ) && (forall|other: Seq<char>|
                other != LISTS_KEY@ ==> #[trigger] toml_entry(text@, other) == toml_entry(
                    raw@,
                    other,
                )) && (plain_toml(raw@) ==> layout_kept(raw@, text@)) && (plain_toml(raw@)
                && already_listed(raw@, name@) ==> text@ == raw@ || may_be_ended(raw@) && text@
                == raw@.push('\n')),
            Err(AddListError::Syntax(error)) => toml_entry(raw@, LISTS_KEY@) == Err::<
                TomlEntryV,
                Seq<char>,
            >(error@),
            Err(AddListError::NotArray) => toml_entry(raw@, LISTS_KEY@) == Ok::<
                TomlEntryV,
                Seq<char>,
            >(TomlEntryV::NotArray),
        },
{
    match read_toml_entry(raw, LISTS_KEY) {
        Err(error) => Err(AddListError::Syntax(error)),
        Ok(entry) => match names_to_write(&entry, name) {
            None => Err(AddListError::NotArray),
            Some(names) => {
                assert(as_items(texts(names@)) =~= as_items(names_written(entry@, name@)));
                match entry {
                    TomlEntry::Array(_) => Ok(extend_toml_array(raw, LISTS_KEY, &names)),
                    _ => {
                        assert(as_items(texts(names@)) =~= listed_after(entry@, name@));
                        Ok(insert_toml_array(raw, LISTS_KEY, &names))
                    },
                }
            },
        },
    }
}

/// The names of the lists after `name` was added to what stood under the key.
pub open spec fn listed_after(entry: TomlEntryV, name: Seq<char>) -> Seq<Option<Seq<char>>> {
    let before = match entry {
        TomlEntryV::Array(items) => items,
        _ => as_items(default_lists()),
    };
    before + as_items(names_to_add(before, name))
}

/// Adding a list keeps the names that were there, in order, and puts the new one behind them;
/// adding it again changes nothing.
pub proof fn added_list_stays(entry: TomlEntryV, name: Seq<char>)
    ensures
        listed_after(entry, name).contains(Some(name)),
        entry is Array ==> entry->Array_0.is_prefix_of(listed_after(entry, name)),
        listed_after(TomlEntryV::Array(listed_after(entry, name)), name) == listed_after(
            entry,
            name,
        ),
{
    let before = match entry {
        TomlEntryV::Array(items) => items,
        _ => as_items(default_lists()),
    };
    let after = listed_after(entry, name);
    if before.contains(Some(name)) {
        let k = choose|k: int| 0 <= k < before.len() && before[k] == Some(name);
        assert(after[k] == Some(name));
    } else {
        assert(after[before.len() as int] == Some(name));
    }
    assert(as_items(Seq::<Seq<char>>::empty()) =~= Seq::<Option<Seq<char>>>::empty());
    assert(after + Seq::<Option<Seq<char>>>::empty() =~= after);
}

} // verus!
