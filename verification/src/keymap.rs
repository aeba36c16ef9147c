//! The keys of the task list: which key does what, with the configuration's own bindings.

use vstd::prelude::*;

use crate::keys::{
    key_name, key_of, key_text, parse_key, Action, KeyCode, KeyError, ACTIONS,
};
use crate::text::{join, joined, owned, quote, quoted, same, texts, words, words_of};

verus! {

/// What a list of settings holds: names with their values.
pub open spec fn entries(list: Seq<(String, String)>) -> Seq<(Seq<char>, Seq<char>)> {
    list.map_values(|e: (String, String)| (e.0@, e.1@))
}

/// The value that the first setting of that name, from `i` on, has.
pub open spec fn setting_from(
    list: Seq<(Seq<char>, Seq<char>)>,
    name: Seq<char>,
    i: int,
) -> Option<Seq<char>>
    decreases list.len() - i,
{
    if i >= list.len() {
        None
    } else if list[i].0 == name {
        Some(list[i].1)
    } else {
        setting_from(list, name, i + 1)
    }
}

/// The value of a setting, if there is one of that name.
pub open spec fn setting(list: Seq<(Seq<char>, Seq<char>)>, name: Seq<char>) -> Option<Seq<char>> {
    setting_from(list, name, 0)
}

/// An action with the keys bound to it.
#[verifier::ext_equal]
pub ghost struct Bound {
    pub action: Action,
    pub codes: Seq<KeyCode>,
}

/// The action that the first binding of `code`, from `i` on, has.
pub open spec fn owner_from(bindings: Seq<Bound>, code: KeyCode, i: int) -> Option<Action>
    decreases bindings.len() - i,
{
    if i >= bindings.len() {
        None
    } else if bindings[i].codes.contains(code) {
        Some(bindings[i].action)
    } else {
        owner_from(bindings, code, i + 1)
    }
}

/// The action that `code` is bound to, if it is.
pub open spec fn owner(bindings: Seq<Bound>, code: KeyCode) -> Option<Action> {
    owner_from(bindings, code, 0)
}

/// The keys bound to `action` by its first binding from `i` on; none without one.
pub open spec fn codes_from(bindings: Seq<Bound>, action: Action, i: int) -> Seq<KeyCode>
    decreases bindings.len() - i,
{
    if i >= bindings.len() {
        Seq::empty()
    } else if bindings[i].action == action {
        bindings[i].codes
    } else {
        codes_from(bindings, action, i + 1)
    }
}

/// The names of keys.
pub open spec fn key_texts(codes: Seq<KeyCode>) -> Seq<Seq<char>> {
    codes.map_values(|code: KeyCode| key_text(code))
}

/// The names of the keys bound to `action`, separated by spaces.
pub open spec fn keys_text(bindings: Seq<Bound>, action: Action) -> Seq<char> {
    joined(key_texts(codes_from(bindings, action, 0)), " "@)
}

/// The first key bound to `action` as it is shown in messages and hints.
pub open spec fn first_key_text(bindings: Seq<Bound>, action: Action) -> Seq<char> {
    let names = words_of(keys_text(bindings, action));
    if names.len() > 0 {
        names[0]
    } else {
        "?"@
    }
}

// --- from the configuration ----------------------------------------------------

/// What can be wrong with key settings.
#[verifier::ext_equal]
pub ghost enum KeymapFault {
    /// A name that stands for no key.
    Key { action: Action, spec: Seq<char> },
    /// A key that is bound twice.
    Conflict { action: Action, code: KeyCode, other: Action },
    /// A setting for an action that does not exist.
    UnknownAction { name: Seq<char> },
}

/// The keys that names stand for, or the first name that stands for none.
pub open spec fn codes_of(names: Seq<Seq<char>>) -> Result<Seq<KeyCode>, Seq<char>>
    decreases names.len(),
{
    if names.len() == 0 {
        Ok(Seq::empty())
    } else {
        match codes_of(names.drop_last()) {
            Err(bad) => Err(bad),
            Ok(codes) => match key_of(names.last()) {
                Some(code) => Ok(codes.push(code)),
                None => Err(names.last()),
            },
        }
    }
}

/// The keys for `action`: those that the settings name, or else the defaults.
pub open spec fn codes_for(
    settings: Seq<(Seq<char>, Seq<char>)>,
    action: Action,
) -> Result<Seq<KeyCode>, Seq<char>> {
    match setting(settings, action.name_text()) {
        Some(value) => codes_of(words_of(value)),
        None => Ok(action.default_codes()),
    }
}

/// The first of the keys for `action`, from `i` on, that is already bound, with what it is bound
/// to.
pub open spec fn conflict_from(
    bindings: Seq<Bound>,
    action: Action,
    codes: Seq<KeyCode>,
    i: int,
) -> Option<(KeyCode, Action)>
    decreases codes.len() - i,
{
    if i >= codes.len() {
        None
    } else {
        match owner(bindings.push(Bound { action, codes: codes.take(i) }), codes[i]) {
            Some(other) => Some((codes[i], other)),
            None => conflict_from(bindings, action, codes, i + 1),
        }
    }
}

/// The bindings of the first `n` actions, or the first thing that is wrong with them.
pub open spec fn bound_until(
    settings: Seq<(Seq<char>, Seq<char>)>,
    n: int,
) -> Result<Seq<Bound>, KeymapFault>
    decreases n,
{
    if n <= 0 {
        Ok(Seq::empty())
    } else {
        match bound_until(settings, n - 1) {
            Err(fault) => Err(fault),
            Ok(bindings) => {
                let action = Action::at(n - 1);
                match codes_for(settings, action) {
                    Err(spec) => Err(KeymapFault::Key { action, spec }),
                    Ok(codes) => match conflict_from(bindings, action, codes, 0) {
                        Some((code, other)) => Err(KeymapFault::Conflict { action, code, other }),
                        None => Ok(bindings.push(Bound { action, codes })),
                    },
                }
            },
        }
    }
}

/// Whether there is an action of that name among those from `i` on.
pub open spec fn names_action_from(name: Seq<char>, i: int) -> bool
    decreases ACTIONS - i,
{
    i < ACTIONS && (Action::at(i).name_text() == name || names_action_from(name, i + 1))
}

/// The first setting from `i` on that names no action.
pub open spec fn unknown_from(settings: Seq<(Seq<char>, Seq<char>)>, i: int) -> Option<Seq<char>>
    decreases settings.len() - i,
{
    if i >= settings.len() {
        None
    } else if names_action_from(settings[i].0, 0) {
        unknown_from(settings, i + 1)
    } else {
        Some(settings[i].0)
    }
}

/// The bindings that the settings make, or the first thing that is wrong with them.
pub open spec fn bindings_of(
    settings: Seq<(Seq<char>, Seq<char>)>,
) -> Result<Seq<Bound>, KeymapFault> {
    match bound_until(settings, ACTIONS as int) {
        Err(fault) => Err(fault),
        Ok(bindings) => match unknown_from(settings, 0) {
            Some(name) => Err(KeymapFault::UnknownAction { name }),
            None => Ok(bindings),
        },
    }
}

/// The default bindings.
pub open spec fn default_bindings() -> Seq<Bound> {
    Seq::new(
        ACTIONS as nat,
        |i: int| Bound { action: Action::at(i), codes: Action::at(i).default_codes() },
    )
}

/// What is wrong with key settings.
#[derive(Debug)]
pub enum KeymapError {
    /// A name that stands for no key.
    Key { action: Action, error: KeyError },
    /// A key that is bound twice.
    Conflict { action: Action, code: KeyCode, other: Action },
    /// A setting for an action that does not exist.
    UnknownAction { name: String },
}

impl View for KeymapError {
    type V = KeymapFault;

    open spec fn view(&self) -> KeymapFault {
        match self {
            KeymapError::Key { action, error } => KeymapFault::Key {
                action: *action,
                spec: error.spec@,
            },
            KeymapError::Conflict { action, code, other } => KeymapFault::Conflict {
                action: *action,
                code: *code,
                other: *other,
            },
            KeymapError::UnknownAction { name } => KeymapFault::UnknownAction { name: name@ },
        }
    }
}

impl KeymapFault {
    /// What is wrong, in words.
    pub open spec fn text(self) -> Seq<char> {
        match self {
            KeymapFault::Key { action, spec } => "[keys] "@ + action.name_text(),
            KeymapFault::Conflict { action, code, other } => "[keys] "@ + action.name_text()
                + ": "@ + key_text(code) + " is already bound to "@ + other.name_text(),
            KeymapFault::UnknownAction { name } => "[keys] unknown action "@ + quoted(name),
        }
    }
}

impl KeymapError {
    /// What is wrong, in words; for a name that stands for no key, where it stands.
    pub fn message(&self) -> (r: String)
        ensures
            r@ == self@.text(),
    {
        match self {
            KeymapError::Key { action, error } => {
                let mut out = owned("[keys] ");
                out.push_str(action.name());
                out
            },
            KeymapError::Conflict { action, code, other } => {
                let mut out = owned("[keys] ");
                out.push_str(action.name());
                out.push_str(": ");
                out.push_str(key_name(*code).as_str());
                out.push_str(" is already bound to ");
                out.push_str(other.name());
                out
            },
            KeymapError::UnknownAction { name } => {
                let mut out = owned("[keys] unknown action ");
                out.push_str(quote(name.as_str()).as_str());
                out
            },
        }
    }
}

/// Key → action lookup for the task list.
#[derive(Debug, Clone)]
pub struct Keymap {
    /// Bindings in declaration order, so hints show the primary key first.
    bindings: Vec<(Action, Vec<KeyCode>)>,
}

/// What bindings hold.
pub open spec fn bounds(list: Seq<(Action, Vec<KeyCode>)>) -> Seq<Bound> {
    list.map_values(|b: (Action, Vec<KeyCode>)| Bound { action: b.0, codes: b.1@ })
}

impl View for Keymap {
    type V = Seq<Bound>;

    closed spec fn view(&self) -> Seq<Bound> {
        bounds(self.bindings@)
    }
}

/// The value of a setting, if there is one of that name.
pub fn find_setting<'a>(list: &'a Vec<(String, String)>, name: &str) -> (r: Option<&'a str>)
    ensures
        match r {
            Some(value) => setting(entries(list@), name@) == Some(value@),
            None => setting(entries(list@), name@) is None,
        },
{
    let mut i: usize = 0;
    while i < list.len()
        invariant
            i <= list@.len(),
            setting(entries(list@), name@) == setting_from(entries(list@), name@, i as int),
        decreases list@.len() - i,
    {
        assert(entries(list@)[i as int] == (list@[i as int].0@, list@[i as int].1@));
        if same(list[i].0.as_str(), name) {
            return Some(list[i].1.as_str());
        }
        i += 1;
    }
    None
}

/// Whether `code` is among `codes`.
fn has_code(codes: &Vec<KeyCode>, code: KeyCode, n: usize) -> (r: bool)
    requires
        n <= codes@.len(),
    ensures
        r == codes@.take(n as int).contains(code),
{
    let mut i: usize = 0;
    while i < n
        invariant
            i <= n <= codes@.len(),
            forall|k: int| 0 <= k < i ==> codes@[k] != code,
        decreases n - i,
    {
        if codes[i] == code {
            assert(codes@.take(n as int)[i as int] == code);
            return true;
        }
        i += 1;
    }
    assert(!codes@.take(n as int).contains(code)) by {
        assert forall|k: int| 0 <= k < n implies codes@.take(n as int)[k] != code by {}
    }
    false
}

/// The action that `code` is bound to, if it is.
fn find_owner(bindings: &Vec<(Action, Vec<KeyCode>)>, code: KeyCode) -> (r: Option<Action>)
    ensures
        r == owner(bounds(bindings@), code),
{
    let mut i: usize = 0;
    while i < bindings.len()
        invariant
            i <= bindings@.len(),
            owner(bounds(bindings@), code) == owner_from(bounds(bindings@), code, i as int),
        decreases bindings@.len() - i,
    {
        let codes = &bindings[i].1;
        assert(bounds(bindings@)[i as int].codes == codes@);
        assert(codes@.take(codes@.len() as int) =~= codes@);
        if has_code(codes, code, codes.len()) {
            return Some(bindings[i].0);
        }
        i += 1;
    }
    None
}

/// A last binding decides only where the others do not.
proof fn owner_push(bindings: Seq<Bound>, last: Bound, code: KeyCode, i: int)
    requires
        0 <= i <= bindings.len(),
    ensures
        owner_from(bindings.push(last), code, i) == (match owner_from(bindings, code, i) {
            Some(action) => Some(action),
            None => if last.codes.contains(code) {
                Some(last.action)
            } else {
                None
            },
        }),
    decreases bindings.len() - i,
{
    if i < bindings.len() {
        owner_push(bindings, last, code, i + 1);
    } else {
        reveal_with_fuel(owner_from, 2);
    }
}

/// The keys that names stand for, or the first name that stands for none.
fn parse_keys(names: &Vec<String>) -> (r: Result<Vec<KeyCode>, KeyError>)
    ensures
        match r {
            Ok(codes) => codes_of(texts(names@)) == Ok::<Seq<KeyCode>, Seq<char>>(codes@),
            Err(e) => codes_of(texts(names@)) == Err::<Seq<KeyCode>, Seq<char>>(e.spec@),
        },
{
    let ghost all = texts(names@);
    let mut codes: Vec<KeyCode> = Vec::new();
    let mut i: usize = 0;
    assert(codes@ =~= Seq::<KeyCode>::empty());
    while i < names.len()
        invariant
            i <= names@.len(),
            all == texts(names@),
            codes_of(all.take(i as int)) == Ok::<Seq<KeyCode>, Seq<char>>(codes@),
        decreases names@.len() - i,
    {
        assert(all.take(i + 1).drop_last() =~= all.take(i as int));
        assert(all[i as int] == names@[i as int]@);
        match parse_key(names[i].as_str()) {
            Ok(code) => {
                codes.push(code);
            },
            Err(e) => {
                proof {
                    first_bad_stays(all, i + 1);
                }
                return Err(e);
            },
        }
        i += 1;
    }
    assert(all.take(all.len() as int) =~= all);
    Ok(codes)
}

/// What is wrong with some of the names is wrong with all of them.
proof fn first_bad_stays(names: Seq<Seq<char>>, n: int)
    requires
        0 <= n <= names.len(),
        codes_of(names.take(n)) is Err,
    ensures
        codes_of(names) == codes_of(names.take(n)),
    decreases names.len() - n,
{
    if n < names.len() {
        assert(names.take(n + 1).drop_last() =~= names.take(n));
        first_bad_stays(names, n + 1);
    } else {
        assert(names.take(n) =~= names);
    }
}

/// What is wrong with some of the actions is wrong with all of them.
proof fn first_fault_stays(settings: Seq<(Seq<char>, Seq<char>)>, n: int, m: int)
    requires
        0 <= n <= m,
        bound_until(settings, n) is Err,
    ensures
        bound_until(settings, m) == bound_until(settings, n),
    decreases m - n,
{
    if n < m {
        first_fault_stays(settings, n, m - 1);
    }
}

/// Whether there is an action of that name.
fn names_action(name: &str) -> (r: bool)
    ensures
        r == names_action_from(name@, 0),
{
    let mut i: usize = 0;
    while i < ACTIONS
        invariant
            i <= ACTIONS,
            names_action_from(name@, 0) == names_action_from(name@, i as int),
        decreases ACTIONS - i,
    {
        if same(Action::nth(i).name(), name) {
            return true;
        }
        i += 1;
    }
    false
}

impl Default for Keymap {
    fn default() -> (r: Self)
        ensures
            r@ == default_bindings(),
    {
        let mut bindings: Vec<(Action, Vec<KeyCode>)> = Vec::new();
        let mut i: usize = 0;
        while i < ACTIONS
            invariant
                i <= ACTIONS,
                bindings@.len() == i,
                forall|k: int|
                    0 <= k < i ==> #[trigger] bounds(bindings@)[k] == default_bindings()[k],
            decreases ACTIONS - i,
        {
            let action = Action::nth(i);
            let ghost before = bindings@;
            bindings.push((action, action.default_keys()));
            proof {
                assert forall|k: int| 0 <= k < i + 1 implies #[trigger] bounds(bindings@)[k]
                    == default_bindings()[k] by {
                    if k < i {
                        assert(bounds(bindings@)[k] == bounds(before)[k]);
                    }
                }
            }
            i += 1;
        }
        assert(bounds(bindings@) =~= default_bindings());
        Keymap { bindings }
    }
}

impl Keymap {
    /// Builds the map from defaults, replacing an action's keys when the settings
    /// name it. Values are space-separated key names (`"space x enter"`); an empty value unbinds
    /// the action.
    pub fn from_config(keys: &Vec<(String, String)>) -> (r: Result<Keymap, KeymapError>)
        ensures
            match r {
                Ok(keymap) => bindings_of(entries(keys@)) == Ok::<Seq<Bound>, KeymapFault>(keymap@),
                Err(e) => bindings_of(entries(keys@)) == Err::<Seq<Bound>, KeymapFault>(e@),
            },
    {
        let ghost settings = entries(keys@);
        let mut bindings: Vec<(Action, Vec<KeyCode>)> = Vec::new();
        let mut n: usize = 0;
        assert(bounds(bindings@) =~= Seq::<Bound>::empty());
        while n < ACTIONS
            invariant
                n <= ACTIONS,
                settings == entries(keys@),
                bound_until(settings, n as int) == Ok::<Seq<Bound>, KeymapFault>(bounds(bindings@)),
            decreases ACTIONS - n,
        {
            let action = Action::nth(n);
            let codes = match find_setting(keys, action.name()) {
                Some(value) => match parse_keys(&words(value)) {
                    Ok(codes) => codes,
                    Err(error) => {
                        proof {
                            first_fault_stays(settings, n + 1, ACTIONS as int);
                        }
                        return Err(KeymapError::Key { action, error });
                    },
                },
                None => action.default_keys(),
            };
            let ghost bound = bounds(bindings@);
            let mut i: usize = 0;
            while i < codes.len()
                invariant
                    n < ACTIONS,
                    action == Action::at(n as int),
                    settings == entries(keys@),
                    i <= codes@.len(),
                    bound == bounds(bindings@),
                    bound_until(settings, n as int) == Ok::<Seq<Bound>, KeymapFault>(bound),
                    codes_for(settings, action) == Ok::<Seq<KeyCode>, Seq<char>>(codes@),
                    conflict_from(bound, action, codes@, 0) == conflict_from(
                        bound,
                        action,
                        codes@,
                        i as int,
                    ),
                decreases codes@.len() - i,
            {
                let code = codes[i];
                proof {
                    owner_push(bound, Bound { action, codes: codes@.take(i as int) }, code, 0);
                }
                let other = match find_owner(&bindings, code) {
                    Some(other) => Some(other),
                    None => if has_code(&codes, code, i) {
                        Some(action)
                    } else {
                        None
                    },
                };
                if let Some(other) = other {
                    proof {
                        first_fault_stays(settings, n + 1, ACTIONS as int);
                    }
                    return Err(KeymapError::Conflict { action, code, other });
                }
                i += 1;
            }
            let ghost codes_view = codes@;
            bindings.push((action, codes));
            assert(bounds(bindings@) =~= bound.push(Bound { action, codes: codes_view }));
            n += 1;
        }
        let mut i: usize = 0;
        while i < keys.len()
            invariant
                i <= keys@.len(),
                settings == entries(keys@),
                bound_until(settings, ACTIONS as int) == Ok::<Seq<Bound>, KeymapFault>(
                    bounds(bindings@),
                ),
                unknown_from(settings, 0) == unknown_from(settings, i as int),
            decreases keys@.len() - i,
        {
            assert(settings[i as int].0 == keys@[i as int].0@);
            if !names_action(keys[i].0.as_str()) {
                return Err(KeymapError::UnknownAction { name: owned(keys[i].0.as_str()) });
            }
            i += 1;
        }
        Ok(Keymap { bindings })
    }

    /// What `code` does.
    pub fn action(&self, code: KeyCode) -> (r: Option<Action>)
        ensures
            r == owner(self@, code),
    {
        find_owner(&self.bindings, code)
    }

    /// Keys bound to `action`, for the help screen and footer.
    pub fn keys_for(&self, action: Action) -> (r: String)
        ensures
            r@ == keys_text(self@, action),
    {
        let mut names: Vec<String> = Vec::new();
        let mut i: usize = 0;
        while i < self.bindings.len() && self.bindings[i].0 != action
            invariant
                i <= self.bindings@.len(),
                codes_from(self@, action, 0) == codes_from(self@, action, i as int),
            decreases self.bindings@.len() - i,
        {
            assert(self@[i as int].action == self.bindings@[i as int].0);
            i += 1;
        }
        if i < self.bindings.len() {
            let codes = &self.bindings[i].1;
            assert(self@[i as int] == (Bound { action, codes: codes@ }));
            let mut k: usize = 0;
            while k < codes.len()
                invariant
                    k <= codes@.len(),
                    names@.len() == k,
                    forall|j: int| 0 <= j < k ==> #[trigger] names@[j]@ == key_text(codes@[j]),
                decreases codes@.len() - k,
            {
                names.push(key_name(codes[k]));
                k += 1;
            }
        }
        assert(texts(names@) =~= key_texts(codes_from(self@, action, 0)));
        join(&names, " ")
    }

    /// First key bound to `action`, for messages and hints.
    pub fn first_key(&self, action: Action) -> (r: String)
        ensures
            r@ == first_key_text(self@, action),
    {
        let mut names = words(self.keys_for(action).as_str());
        if names.len() > 0 {
            assert(texts(names@)[0] == names@[0]@);
            names.remove(0)
        } else {
            owned("?")
        }
    }
}

// --- what holds of every keymap ------------------------------------------------

/// Whether no key is bound twice.
pub open spec fn unambiguous(bindings: Seq<Bound>) -> bool {
    &&& forall|i: int, j: int, code: KeyCode|
        0 <= i < j < bindings.len() && #[trigger] bindings[i].codes.contains(code)
            ==> !#[trigger] bindings[j].codes.contains(code)
    &&& forall|i: int| 0 <= i < bindings.len() ==> (#[trigger] bindings[i]).codes.no_duplicates()
}

/// Where no key is bound to an action from `i` on, none of the bindings there has it.
proof fn owner_none(bindings: Seq<Bound>, code: KeyCode, i: int)
    requires
        0 <= i <= bindings.len(),
        owner_from(bindings, code, i) is None,
    ensures
        forall|k: int|
            i <= k < bindings.len() ==> !(#[trigger] bindings[k]).codes.contains(code),
    decreases bindings.len() - i,
{
    if i < bindings.len() {
        owner_none(bindings, code, i + 1);
    }
}

/// Where there is no conflict, the keys are new and all different.
proof fn no_conflict(bindings: Seq<Bound>, action: Action, codes: Seq<KeyCode>, i: int)
    requires
        0 <= i <= codes.len(),
        conflict_from(bindings, action, codes, i) is None,
    ensures
        forall|k: int|
            #![trigger codes[k]]
            i <= k < codes.len() ==> owner(bindings, codes[k]) is None && !codes.take(k).contains(
                codes[k],
            ),
    decreases codes.len() - i,
{
    if i < codes.len() {
        owner_push(bindings, Bound { action, codes: codes.take(i) }, codes[i], 0);
        no_conflict(bindings, action, codes, i + 1);
    }
}

/// No key is bound twice among the first actions.
proof fn bound_until_is_unambiguous(settings: Seq<(Seq<char>, Seq<char>)>, n: int)
    requires
        0 <= n <= ACTIONS,
        bound_until(settings, n) is Ok,
    ensures
        unambiguous(bound_until(settings, n)->Ok_0),
        bound_until(settings, n)->Ok_0.len() == n,
        forall|i: int|
            0 <= i < n ==> (#[trigger] bound_until(settings, n)->Ok_0[i]).action == Action::at(i),
    decreases n,
{
    if n > 0 {
        bound_until_is_unambiguous(settings, n - 1);
        let before = bound_until(settings, n - 1)->Ok_0;
        let after = bound_until(settings, n)->Ok_0;
        let action = Action::at(n - 1);
        let codes = codes_for(settings, action)->Ok_0;
        assert(after == before.push(Bound { action, codes }));
        no_conflict(before, action, codes, 0);
        assert(codes.no_duplicates()) by {
            assert forall|j: int, k: int| 0 <= j < k < codes.len() implies codes[j] != codes[k] by {
                assert(!codes.take(k).contains(codes[k]));
                assert(codes.take(k)[j] == codes[j]);
            }
        }
        assert forall|i: int, j: int, code: KeyCode|
            0 <= i < j < after.len() && #[trigger] after[i].codes.contains(
                code,
            ) implies !#[trigger] after[j].codes.contains(code) by {
            assert(before[i] == after[i]);
            if j < before.len() {
                assert(before[j] == after[j]);
            } else if codes.contains(code) {
                let k = choose|k: int| 0 <= k < codes.len() && codes[k] == code;
                assert(owner(before, codes[k]) is None);
                owner_none(before, code, 0);
            }
        }
        assert forall|i: int| 0 <= i < after.len() implies (
        #[trigger] after[i]).codes.no_duplicates() by {
            if i < before.len() {
                assert(before[i] == after[i]);
            }
        }
        assert forall|i: int| 0 <= i < n implies (#[trigger] after[i]).action == Action::at(i) by {
            if i < before.len() {
                assert(before[i] == after[i]);
            }
        }
    }
}

/// The bindings that settings make bind every action once and no key twice.
pub proof fn no_key_is_bound_twice(settings: Seq<(Seq<char>, Seq<char>)>)
    requires
        bindings_of(settings) is Ok,
    ensures
        unambiguous(bindings_of(settings)->Ok_0),
        bindings_of(settings)->Ok_0.len() == ACTIONS,
        forall|i: int|
            0 <= i < ACTIONS ==> (#[trigger] bindings_of(settings)->Ok_0[i]).action == Action::at(
                i,
            ),
{
    bound_until_is_unambiguous(settings, ACTIONS as int);
}

/// Where no key is bound twice, a key does what it is bound to.
pub proof fn a_bound_key_does_its_action(bindings: Seq<Bound>, i: int, code: KeyCode)
    requires
        unambiguous(bindings),
        0 <= i < bindings.len(),
        bindings[i].codes.contains(code),
    ensures
        owner(bindings, code) == Some(bindings[i].action),
{
    owner_is(bindings, i, code, 0);
}

/// The first binding of a key is the one it has.
proof fn owner_is(bindings: Seq<Bound>, i: int, code: KeyCode, k: int)
    requires
        unambiguous(bindings),
        0 <= k <= i < bindings.len(),
        bindings[i].codes.contains(code),
    ensures
        owner_from(bindings, code, k) == Some(bindings[i].action),
    decreases i - k,
{
    if k < i {
        if bindings[k].codes.contains(code) {
            assert(!bindings[i].codes.contains(code));
        }
        owner_is(bindings, i, code, k + 1);
    }
}

/// Actions stand at different positions of the key reference.
pub proof fn every_action_has_a_position(i: int)
    requires
        0 <= i < ACTIONS,
    ensures
        Action::at(i).position() == i,
{
}

/// The action that a key has by default.
pub open spec fn default_action(code: KeyCode) -> Option<Action> {
    match code {
        KeyCode::Down => Some(Action::Down),
        KeyCode::Up => Some(Action::Up),
        KeyCode::Enter => Some(Action::Toggle),
        KeyCode::Left => Some(Action::PrevDay),
        KeyCode::Right => Some(Action::NextDay),
        KeyCode::Tab => Some(Action::NextList),
        KeyCode::Char(c) => default_char_action(c),
        _ => None,
    }
}

/// The action that a character key has by default.
pub open spec fn default_char_action(c: char) -> Option<Action> {
    match c {
        'j' => Some(Action::Down),
        'k' => Some(Action::Up),
        'g' => Some(Action::First),
        'G' => Some(Action::Last),
        'a' => Some(Action::Add),
        'e' => Some(Action::Edit),
        ' ' => Some(Action::Toggle),
        'x' => Some(Action::Toggle),
        'd' => Some(Action::Delete),
        'u' => Some(Action::Undo),
        'J' => Some(Action::MoveDown),
        'K' => Some(Action::MoveUp),
        'p' => Some(Action::Priority),
        'r' => Some(Action::Reminder),
        'R' => Some(Action::Repeat),
        'n' => Some(Action::Note),
        'H' => Some(Action::Hide),
        'v' => Some(Action::Reveal),
        '>' => Some(Action::Postpone),
        'm' => Some(Action::MoveToDate),
        's' => Some(Action::Sort),
        'f' => Some(Action::HideDone),
        '/' => Some(Action::Search),
        'w' => Some(Action::Review),
        'h' => Some(Action::PrevDay),
        'l' => Some(Action::NextDay),
        't' => Some(Action::Today),
        'c' => Some(Action::Calendar),
        'L' => Some(Action::Lists),
        '|' => Some(Action::Split),
        'N' => Some(Action::NewList),
        '?' => Some(Action::Help),
        ':' => Some(Action::Command),
        _ => None,
    }
}

/// A default key has the action that it is a default key of, and is listed once.
pub proof fn default_codes_facts(action: Action)
    ensures
        forall|k: int|
            0 <= k < action.default_codes().len() ==> default_action(
                #[trigger] action.default_codes()[k],
            ) == Some(action),
        action.default_codes().no_duplicates(),
{
}

/// No default key is bound to an action that comes later.
proof fn default_owner(n: int, code: KeyCode, i: int)
    requires
        0 <= i <= n < ACTIONS,
        default_action(code) == Some(Action::at(n)),
    ensures
        owner_from(default_bindings().take(n), code, i) is None,
    decreases n - i,
{
    if i < n {
        default_codes_facts(Action::at(i));
        every_action_has_a_position(i);
        every_action_has_a_position(n);
        let codes = default_bindings().take(n)[i].codes;
        if codes.contains(code) {
            let k = choose|k: int| 0 <= k < codes.len() && codes[k] == code;
            assert(default_action(Action::at(i).default_codes()[k]) == Some(Action::at(i)));
        }
        default_owner(n, code, i + 1);
    }
}

/// The default keys of an action are free.
proof fn default_no_conflict(n: int, i: int)
    requires
        0 <= n < ACTIONS,
        0 <= i <= Action::at(n).default_codes().len(),
    ensures
        conflict_from(
            default_bindings().take(n),
            Action::at(n),
            Action::at(n).default_codes(),
            i,
        ) is None,
    decreases Action::at(n).default_codes().len() - i,
{
    let action = Action::at(n);
    let codes = action.default_codes();
    if i < codes.len() {
        default_codes_facts(action);
        default_owner(n, codes[i], 0);
        owner_push(
            default_bindings().take(n),
            Bound { action, codes: codes.take(i) },
            codes[i],
            0,
        );
        assert(!codes.take(i).contains(codes[i])) by {
            assert forall|k: int| 0 <= k < i implies codes.take(i)[k] != codes[i] by {}
        }
        default_no_conflict(n, i + 1);
    }
}

/// Without settings, every action has its default keys and there is no conflict.
pub proof fn default_keys_do_not_conflict(n: int)
    requires
        0 <= n <= ACTIONS,
    ensures
        bound_until(Seq::empty(), n) == Ok::<Seq<Bound>, KeymapFault>(default_bindings().take(n)),
    decreases n,
{
    let none: Seq<(Seq<char>, Seq<char>)> = Seq::empty();
    if n > 0 {
        default_keys_do_not_conflict(n - 1);
        default_no_conflict(n - 1, 0);
        assert(default_bindings().take(n) =~= default_bindings().take(n - 1).push(
            default_bindings()[n - 1],
        ));
    } else {
        assert(default_bindings().take(n) =~= Seq::<Bound>::empty());
    }
}

/// The default keymap is the one that no settings make.
pub proof fn default_keymap_is_valid()
    ensures
        bindings_of(Seq::empty()) == Ok::<Seq<Bound>, KeymapFault>(default_bindings()),
{
    default_keys_do_not_conflict(ACTIONS as int);
    assert(default_bindings().take(ACTIONS as int) =~= default_bindings());
}

} // verus!
