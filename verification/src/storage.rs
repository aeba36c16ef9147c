//! What is decided when data files are found, loaded and locked. Reading and writing them is left
//! to the caller.

use vstd::prelude::*;

use crate::config::DEFAULT_LIST;
use crate::model::{Store, StoreV, STORE_VERSION};
use crate::pages::PageV;
use crate::task::TaskV;
use crate::text::{
    copy_texts, decimal, owned, parse_unsigned, texts, to_decimal, trim, trimmed, unsigned,
};

verus! {

/// The environment variable that names a single data file.
pub const ENV_OVERRIDE: &'static str = "TUI_DO_LIST_FILE";

/// The name of the data file of a list.
pub fn data_file_name(list: &str) -> (r: String)
    ensures
        r@ == list@ + ".json"@,
{
    let mut out = owned(list);
    out.push_str(".json");
    out
}

/// The names of the lists to load: those of the settings, or a single one where the environment
/// names a data file.
pub fn list_names_to_load(lists: &Vec<String>, overridden: bool) -> (r: Vec<String>)
    ensures
        texts(r@) == (if overridden {
            seq![DEFAULT_LIST@]
        } else {
            texts(lists@)
        }),
{
    if overridden {
        let mut names: Vec<String> = Vec::new();
        names.push(owned(DEFAULT_LIST));
        assert(texts(names@) =~= seq![DEFAULT_LIST@]);
        names
    } else {
        copy_texts(lists)
    }
}

// --- loading -------------------------------------------------------------------

/// The greatest number among the first `n` tasks, or zero.
pub open spec fn top_id(tasks: Seq<TaskV>, n: int) -> int
    decreases n,
{
    if n <= 0 {
        0
    } else if tasks[n - 1].id > top_id(tasks, n - 1) {
        tasks[n - 1].id
    } else {
        top_id(tasks, n - 1)
    }
}

/// The greatest number of a task on the first `n` pages, or zero.
pub open spec fn top_id_in(pages: Seq<PageV>, n: int) -> int
    decreases n,
{
    if n <= 0 {
        0
    } else {
        let on_page = top_id(pages[n - 1].tasks, pages[n - 1].tasks.len() as int);
        if on_page > top_id_in(pages, n - 1) {
            on_page
        } else {
            top_id_in(pages, n - 1)
        }
    }
}

impl StoreV {
    /// The greatest number of a task, or zero.
    pub open spec fn max_id(self) -> int {
        top_id_in(self.days, self.days.len() as int)
    }

    /// The store with its next number reconciled with the tasks that are there.
    pub open spec fn reconciled(self) -> StoreV {
        StoreV {
            next_id: if self.next_id > self.max_id() {
                self.next_id
            } else {
                self.max_id() + 1
            },
            ..self
        }
    }
}

/// A data file in a format that is newer than this library.
#[derive(Debug, Clone, Copy, PartialEq, Eq, Structural)]
pub struct NewerVersion {
    pub version: u32,
}

impl NewerVersion {
    /// What is wrong, in words; `file` is the file as it is named to the user.
    pub fn message(&self, file: &str) -> (r: String)
        ensures
            r@ == file@ + " was written by a newer version (format v"@ + decimal(
                self.version as nat,
            ) + ")"@,
    {
        let mut out = owned(file);
        out.push_str(" was written by a newer version (format v");
        out.push_str(to_decimal(self.version as u64).as_str());
        out.push_str(")");
        out
    }
}

impl Store {
    /// The greatest number of a task, or zero.
    pub fn max_id(&self) -> (r: u64)
        ensures
            r == self@.max_id(),
    {
        let mut top: u64 = 0;
        let mut p: usize = 0;
        while p < self.days.len()
            invariant
                p <= self.days@.len(),
                top == top_id_in(self@.days, p as int),
            decreases self.days@.len() - p,
        {
            let tasks = &self.days[p].tasks;
            let ghost views = self@.days[p as int].tasks;
            let mut on_page: u64 = 0;
            let mut i: usize = 0;
            while i < tasks.len()
                invariant
                    p < self.days@.len(),
                    tasks == self.days@[p as int].tasks,
                    i <= tasks@.len(),
                    views == self@.days[p as int].tasks,
                    on_page == top_id(views, i as int),
                decreases tasks@.len() - i,
            {
                assert(views[i as int] == tasks@[i as int]@);
                if tasks[i].id > on_page {
                    on_page = tasks[i].id;
                }
                i += 1;
            }
            if on_page > top {
                top = on_page;
            }
            p += 1;
        }
        top
    }

    /// A store as it was read from its file: the next number is reconciled with the tasks actually
    /// present, so a hand-edited or partially restored file can never hand out duplicate ids. A
    /// file written by a newer version is refused.
    pub fn loaded(self) -> (r: Result<Store, NewerVersion>)
        requires
            self@.max_id() < u64::MAX,
        ensures
            match r {
                Ok(store) => self.version <= STORE_VERSION && store@ == self@.reconciled() && (
                self.wf() ==> store.wf()),
                Err(e) => self.version > STORE_VERSION && e.version == self.version,
            },
    {
        let max_id = self.max_id();
        if self.version > STORE_VERSION {
            return Err(NewerVersion { version: self.version });
        }
        let mut store = self;
        if store.next_id <= max_id {
            store.next_id = max_id + 1;
        }
        Ok(store)
    }
}

/// No task has a greater number than the greatest.
proof fn top_id_is_top(tasks: Seq<TaskV>, n: int)
    requires
        0 <= n <= tasks.len(),
    ensures
        forall|i: int| 0 <= i < n ==> (#[trigger] tasks[i]).id <= top_id(tasks, n),
    decreases n,
{
    if n > 0 {
        top_id_is_top(tasks, n - 1);
    }
}

/// No page has a task with a greater number than the greatest.
proof fn top_id_in_is_top(pages: Seq<PageV>, n: int)
    requires
        0 <= n <= pages.len(),
    ensures
        forall|p: int, i: int|
            0 <= p < n && 0 <= i < pages[p].tasks.len() ==> (#[trigger] pages[p].tasks[i]).id
                <= top_id_in(pages, n),
    decreases n,
{
    if n > 0 {
        top_id_in_is_top(pages, n - 1);
        top_id_is_top(pages[n - 1].tasks, pages[n - 1].tasks.len() as int);
    }
}

/// After loading, the next number is above the number of every task, so that no task that is added
/// gets a number that is taken; what is on the pages is as it was.
pub proof fn loading_makes_room_for_new_tasks(s: StoreV)
    ensures
        s.reconciled().days == s.days,
        s.reconciled().next_id >= s.next_id,
        forall|p: int, i: int|
            0 <= p < s.days.len() && 0 <= i < s.days[p].tasks.len() ==> (
            #[trigger] s.days[p].tasks[i]).id < s.reconciled().next_id,
{
    top_id_in_is_top(s.days, s.days.len() as int);
}

// --- locking -------------------------------------------------------------------

/// What came of trying to create the lock file.
#[derive(Debug)]
pub enum LockEvent {
    Created,
    /// It is already there. What it says, where it could be read; whether the machine lists its
    /// processes; and whether it lists the process that the file names.
    Exists { contents: Option<String>, lists_processes: bool, is_running: bool },
    /// It could not be created for another reason.
    Failed,
}

/// What to do next.
#[derive(Debug, Clone, Copy, PartialEq, Eq, Structural)]
pub enum LockAction {
    /// The lock is held.
    Hold,
    /// The lock is stale: remove it and try again.
    TakeOver,
    /// Another instance, with that process number where it is known, holds the lock.
    Refuse { pid: Option<u32> },
    /// Report that the lock file could not be created.
    Fail,
}

/// The process number in a lock file.
pub open spec fn pid_of(contents: Option<Seq<char>>) -> Option<nat> {
    match contents {
        Some(text) => unsigned(trimmed(text), u32::MAX as nat),
        None => None,
    }
}

/// Whether a lock is stale: it names a process, and the machine lists its processes but not that
/// one.
pub open spec fn stale(pid: Option<nat>, lists_processes: bool, is_running: bool) -> bool {
    pid is Some && lists_processes && !is_running
}

/// A process number that may be missing.
pub open spec fn opt_pid(pid: Option<u32>) -> Option<nat> {
    match pid {
        Some(pid) => Some(pid as nat),
        None => None,
    }
}

/// The process number in a lock file, if it holds one.
pub fn lock_pid(contents: &Option<String>) -> (r: Option<u32>)
    ensures
        opt_pid(r) == pid_of(crate::task::opt_text(*contents)),
{
    match contents {
        Some(text) => match parse_unsigned(trim(text.as_str()).as_str(), u32::MAX as u64) {
            Some(pid) => Some(pid as u32),
            None => None,
        },
        None => None,
    }
}

/// What to do after trying to create the lock file. A stale lock is taken over once; a lock whose
/// process cannot be told is never treated as stale.
pub fn lock_step(first_attempt: bool, event: &LockEvent) -> (r: LockAction)
    ensures
        match event {
            LockEvent::Created => r == LockAction::Hold,
            LockEvent::Failed => r == LockAction::Fail,
            LockEvent::Exists { contents, lists_processes, is_running } => {
                let pid = pid_of(crate::task::opt_text(*contents));
                if !first_attempt {
                    r == LockAction::Fail
                } else if stale(pid, *lists_processes, *is_running) {
                    r == LockAction::TakeOver
                } else {
                    r is Refuse && opt_pid(r->pid) == pid
                }
            },
        },
{
    match event {
        LockEvent::Created => LockAction::Hold,
        LockEvent::Failed => LockAction::Fail,
        LockEvent::Exists { contents, lists_processes, is_running } => {
            if !first_attempt {
                return LockAction::Fail;
            }
            let pid = lock_pid(contents);
            if pid.is_some() && *lists_processes && !*is_running {
                LockAction::TakeOver
            } else {
                LockAction::Refuse { pid }
            }
        },
    }
}

/// What is said of a lock that another instance holds.
pub open spec fn locked_text(pid: Option<nat>, file: Seq<char>) -> Seq<char> {
    let who = match pid {
        Some(pid) => " (pid "@ + decimal(pid) + ")"@,
        None => ""@,
    };
    "another tui-do-list instance"@ + who
        + " is already editing this data — close it first, or delete "@ + file
        + " if that instance crashed"@
}

/// What is said of a lock that another instance holds; `file` is the lock file as it is named to
/// the user.
pub fn locked_message(pid: Option<u32>, file: &str) -> (r: String)
    ensures
        r@ == locked_text(opt_pid(pid), file@),
{
    let mut who = owned("");
    if let Some(pid) = pid {
        who = owned(" (pid ");
        who.push_str(to_decimal(pid as u64).as_str());
        who.push_str(")");
    }
    let mut out = owned("another tui-do-list instance");
    out.push_str(who.as_str());
    out.push_str(" is already editing this data — close it first, or delete ");
    out.push_str(file);
    out.push_str(" if that instance crashed");
    out
}

} // verus!
