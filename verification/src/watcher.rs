//! What a file watcher decides: which changes of a watched file count, how
//! long a file is watched, and what follows a change that counts.
//!
//! Reading files and waiting for events is left to the caller, who hands in
//! the text that was read.

use crate::lines::{line_value, line_values, line_values_of};
use crate::numbers::{parse_count, parse_usize};
use crate::table::NameTable;
use crate::text::{chars_of, str_eq};
use vstd::prelude::*;
use vstd::string::StrSliceExecFns;
use vstd::utf8::encode_utf8;

verus! {

/// How long the lines of a file are watched.
#[derive(Debug, Clone, Copy, PartialEq, Eq, Structural)]
pub enum LineWatch {
    /// For this many more changes.
    Count(usize),
    /// Without end.
    Forever,
}

/// A watched file: its path, the checksums of its lines when they were last
/// taken, and how its lines are watched.
#[derive(Debug, Clone, PartialEq, Eq)]
pub struct FileEntry {
    pub path: String,
    pub line_values: Vec<u64>,
    pub liner_watch: Option<LineWatch>,
}

/// A watched file as mathematical values.
pub struct FileEntryView {
    pub path: Seq<char>,
    pub line_values: Seq<u64>,
    pub liner_watch: Option<LineWatch>,
}

impl View for FileEntry {
    type V = FileEntryView;

    open spec fn view(&self) -> FileEntryView {
        FileEntryView {
            path: self.path@,
            line_values: self.line_values@,
            liner_watch: self.liner_watch,
        }
    }
}

impl FileEntryView {
    /// Whether a reading with these line checksums differs from the entry.
    pub open spec fn changed_by(self, fresh: Seq<u64>) -> bool {
        fresh != self.line_values
    }

    /// The entry after a reading with line checksums `fresh`.
    ///
    /// A file watched by count loses one of its count with every change, down
    /// to zero, and keeps its checksums. A file watched without end keeps
    /// everything. A file that is not watched by line takes over the fresh
    /// checksums.
    pub open spec fn after(self, fresh: Seq<u64>) -> FileEntryView {
        if !self.changed_by(fresh) {
            self
        } else {
            match self.liner_watch {
                Some(LineWatch::Count(count)) => FileEntryView {
                    liner_watch: Some(
                        LineWatch::Count(
                            if count > 0 {
                                (count - 1) as usize
                            } else {
                                count
                            },
                        ),
                    ),
                    ..self
                },
                Some(LineWatch::Forever) => self,
                None => FileEntryView { line_values: fresh, ..self },
            }
        }
    }

    /// Whether a reading with line checksums `fresh` is reported as a
    /// modification: it differs, and a file watched by count has some of its
    /// count left after this change.
    pub open spec fn reports(self, fresh: Seq<u64>) -> bool {
        self.changed_by(fresh) && match self.liner_watch {
            Some(LineWatch::Count(count)) => count > 1,
            Some(LineWatch::Forever) => true,
            None => true,
        }
    }
}

/// Whether two lists of checksums are the same.
pub fn values_eq(a: &[u64], b: &[u64]) -> (r: bool)
    ensures
        r == (a@ == b@),
{
    if a.len() != b.len() {
        return false;
    }
    let mut i: usize = 0;
    while i < a.len()
        invariant
            a.len() == b.len(),
            i <= a.len(),
            forall|k: int| 0 <= k < i ==> a@[k] == b@[k],
        decreases a.len() - i,
    {
        if a[i] != b[i] {
            return false;
        }
        i += 1;
    }
    assert(a@ =~= b@);
    true
}

impl FileEntry {
    /// The entry of the file at `path` whose text is `content`, not watched
    /// by line.
    pub fn from_path(path: &str, content: &str) -> (r: FileEntry)
        ensures
            r@.path == path@,
            r@.line_values == line_values_of(encode_utf8(content@)),
            r@.liner_watch is None,
    {
        FileEntry {
            path: path.to_owned(),
            line_values: line_values(content.as_bytes()),
            liner_watch: None,
        }
    }

    /// The checksum of a line: the sum of its UTF-8 bytes modulo 2^64.
    pub fn line_value(line: &str) -> (r: u64)
        ensures
            r == crate::lines::checksum(encode_utf8(line@)),
    {
        line_value(line)
    }

    /// Takes in a fresh reading of the file and says whether it is reported
    /// as a modification.
    pub fn update(&mut self, content: &str) -> (r: bool)
        ensures
            final(self)@ == old(self)@.after(line_values_of(encode_utf8(content@))),
            r == old(self)@.reports(line_values_of(encode_utf8(content@))),
    {
        let fresh = line_values(content.as_bytes());
        let changed = !values_eq(fresh.as_slice(), self.line_values.as_slice());
        match self.liner_watch {
            Some(LineWatch::Count(count)) => {
                if changed {
                    let left: usize = if count > 0 {
                        count - 1
                    } else {
                        count
                    };
                    self.liner_watch = Some(LineWatch::Count(left));
                    return left > 0;
                }
                false
            },
            Some(LineWatch::Forever) => changed,
            None => {
                if changed {
                    self.line_values = fresh;
                    return true;
                }
                false
            },
        }
    }

    /// Sets how the lines of the file are watched.
    pub fn set_liner_watch(&mut self, watch: LineWatch)
        ensures
            final(self)@ == (FileEntryView { liner_watch: Some(watch), ..old(self)@ }),
    {
        self.liner_watch = Some(watch);
    }
}

/// A reading that does not differ changes nothing and is not reported.
pub proof fn lemma_same_reading_is_silent(e: FileEntryView)
    ensures
        e.after(e.line_values) == e,
        !e.reports(e.line_values),
{
}

/// A file watched by count is reported one time less than its count says:
/// the change that uses up the count is not reported, nor any after it.
pub proof fn lemma_count_runs_out(e: FileEntryView, fresh: Seq<u64>)
    requires
        e.liner_watch matches Some(LineWatch::Count(count)) && count <= 1,
    ensures
        !e.reports(fresh),
        e.after(fresh).liner_watch == Some(LineWatch::Count(0)) || e.after(fresh) == e,
        !e.after(fresh).reports(fresh),
{
}

/// The key that lets a detected modification pass.
pub open spec fn recovery_key() -> Seq<char> {
    "AUTHORIZED"@
}

/// Whether `key` lets a detected modification pass.
pub fn pass_recovery_gate(key: &str) -> (r: bool)
    ensures
        r == (key@ == recovery_key()),
{
    str_eq(key, "AUTHORIZED")
}

/// The position of the first colon of `s` at or after `from`; the length of
/// `s` when there is none.
pub open spec fn first_colon(s: Seq<char>, from: int) -> int
    decreases s.len() - from,
{
    if from < 0 || from >= s.len() {
        s.len() as int
    } else if s[from] == ':' {
        from
    } else {
        first_colon(s, from + 1)
    }
}

/// The first colon at or after `from` is not before `from`, nothing between
/// the two is a colon, and it is a colon unless it is the end.
pub proof fn lemma_first_colon(s: Seq<char>, from: int)
    requires
        0 <= from <= s.len(),
    ensures
        from <= first_colon(s, from) <= s.len(),
        first_colon(s, from) < s.len() ==> s[first_colon(s, from)] == ':',
        forall|i: int| from <= i < first_colon(s, from) ==> s[i] != ':',
    decreases s.len() - from,
{
    if from < s.len() && s[from] != ':' {
        lemma_first_colon(s, from + 1);
    }
}

/// The path of a line-watch argument: what stands before its first colon.
pub open spec fn liner_path(arg: Seq<char>) -> Seq<char> {
    arg.subrange(0, first_colon(arg, 0))
}

/// The value of a line-watch argument: what stands after its first colon,
/// and `1` when it has no colon.
pub open spec fn liner_value(arg: Seq<char>) -> Seq<char> {
    if first_colon(arg, 0) < arg.len() {
        arg.subrange(first_colon(arg, 0) + 1, arg.len() as int)
    } else {
        "1"@
    }
}

/// The watch that a value asks for: `forever-all-day` asks for a watch
/// without end, a count asks for that many changes, and anything else for one.
pub open spec fn watch_of(value: Seq<char>) -> LineWatch {
    if value == "forever-all-day"@ {
        LineWatch::Forever
    } else {
        LineWatch::Count(
            match parse_count(value) {
                Some(n) => n,
                None => 1,
            },
        )
    }
}

/// The watch that a value asks for.
pub fn watch_from(value: &str) -> (r: LineWatch)
    ensures
        r == watch_of(value@),
{
    if str_eq(value, "forever-all-day") {
        LineWatch::Forever
    } else {
        match parse_usize(value) {
            Some(n) => LineWatch::Count(n),
            None => LineWatch::Count(1),
        }
    }
}

/// Reads a line-watch argument of the form `PATH`, `PATH:COUNT` or
/// `PATH:forever-all-day`.
pub fn parse_liner_street(arg: &str) -> (r: (String, LineWatch))
    ensures
        r.0@ == liner_path(arg@),
        r.1 == watch_of(liner_value(arg@)),
{
    let cs = chars_of(arg);
    let n = cs.len();
    let mut i: usize = 0;
    while i < n && cs[i] != ':'
        invariant
            i <= n,
            n == arg@.len(),
            cs@ == arg@,
            first_colon(arg@, 0) == first_colon(arg@, i as int),
        decreases n - i,
    {
        i += 1;
    }
    let path = arg.substring_char(0, i).to_owned();
    let watch = if i < n {
        watch_from(arg.substring_char(i + 1, n))
    } else {
        watch_from("1")
    };
    (path, watch)
}

/// The exit code of a process that ends because a modification was detected
/// and not let pass.
pub const TAMPER_EXIT_CODE: i32 = 1337;

/// What the caller does after an event on a path.
#[derive(Debug, Clone, Copy, PartialEq, Eq, Structural)]
pub enum WatchAction {
    /// Nothing was detected: write the bundle anew.
    Export,
    /// A modification was detected and let pass: raise the alert, then write
    /// the bundle anew.
    AlertAndExport,
    /// A modification was detected and not let pass: raise the alert, then
    /// end the process with `TAMPER_EXIT_CODE`.
    AlertAndExit,
}

/// The files under watch, by path.
pub struct WatchManager {
    pub files: NameTable<FileEntry>,
}

/// What follows a reading `fresh` of a watched file `entry` when the caller
/// holds `key`.
pub open spec fn action_for(entry: FileEntryView, fresh: Seq<u64>, key: Seq<char>) -> WatchAction {
    if !entry.reports(fresh) {
        WatchAction::Export
    } else if key == recovery_key() {
        WatchAction::AlertAndExport
    } else {
        WatchAction::AlertAndExit
    }
}

impl WatchManager {
    /// Whether the manager is well formed; every manager made by `new` and
    /// changed by the methods of this type is.
    pub open spec fn wf(&self) -> bool {
        self.files.wf()
    }

    /// The files under watch as mathematical values, by path.
    pub open spec fn watched(&self) -> Map<Seq<char>, FileEntryView> {
        Map::new(
            |path: Seq<char>| self.files@.contains_key(path),
            |path: Seq<char>| self.files@[path]@,
        )
    }

    /// A manager that watches nothing.
    pub fn new() -> (r: WatchManager)
        ensures
            r.wf(),
            r.watched() == Map::<Seq<char>, FileEntryView>::empty(),
    {
        let r = WatchManager { files: NameTable::new() };
        assert(r.watched() =~= Map::<Seq<char>, FileEntryView>::empty());
        r
    }

    /// Whether nothing is watched.
    pub fn is_empty(&self) -> (r: bool)
        requires
            self.wf(),
        ensures
            r == (self.watched() == Map::<Seq<char>, FileEntryView>::empty()),
    {
        let r = self.files.is_empty();
        proof {
            if r {
                assert(self.watched() =~= Map::<Seq<char>, FileEntryView>::empty());
            } else {
                assert(self.files@ != Map::<Seq<char>, FileEntry>::empty());
                if self.watched() == Map::<Seq<char>, FileEntryView>::empty() {
                    assert forall|k: Seq<char>| !self.files@.contains_key(k) by {
                        assert(!self.watched().contains_key(k));
                    }
                    assert(self.files@ =~= Map::<Seq<char>, FileEntry>::empty());
                }
            }
        }
        r
    }

    /// Puts the file at `path`, whose text is `content`, under watch, by line
    /// if `liner` says how. A path that is watched already stays as it is.
    /// Says whether the file was added.
    pub fn add_file(&mut self, path: &str, content: &str, liner: Option<LineWatch>) -> (r: bool)
        requires
            old(self).wf(),
        ensures
            final(self).wf(),
            r == !old(self).watched().contains_key(path@),
            !r ==> final(self).watched() == old(self).watched(),
            r ==> final(self).watched() == old(self).watched().insert(
                path@,
                FileEntryView {
                    path: path@,
                    line_values: line_values_of(encode_utf8(content@)),
                    liner_watch: liner,
                },
            ),
    {
        if self.files.contains_key(path) {
            return false;
        }
        let mut entry = FileEntry::from_path(path, content);
        if let Some(watch) = liner {
            entry.set_liner_watch(watch);
        }
        let ghost view = entry@;
        self.files.insert(path.to_owned(), entry);
        assert(self.watched() =~= old(self).watched().insert(path@, view));
        true
    }

    /// Takes in a fresh reading `content` of the file at `path` and says what
    /// follows. `key` is the recovery key that the caller holds. An event on
    /// a path that is not watched changes nothing.
    pub fn update_if_needed(&mut self, path: &str, content: &str, key: &str) -> (r: WatchAction)
        requires
            old(self).wf(),
        ensures
            final(self).wf(),
            !old(self).watched().contains_key(path@) ==> {
                &&& r == WatchAction::Export
                &&& final(self).watched() == old(self).watched()
            },
            old(self).watched().contains_key(path@) ==> {
                let fresh = line_values_of(encode_utf8(content@));
                let entry = old(self).watched()[path@];
                &&& r == action_for(entry, fresh, key@)
                &&& final(self).watched() == old(self).watched().insert(path@, entry.after(fresh))
            },
    {
        match self.files.remove(path) {
            None => {
                assert(self.watched() =~= old(self).watched());
                WatchAction::Export
            },
            Some(entry) => {
                let mut entry = entry;
                let ghost before = entry@;
                let modified = entry.update(content);
                let ghost after = entry@;
                self.files.insert(path.to_owned(), entry);
                assert(self.watched() =~= old(self).watched().insert(path@, after));
                if !modified {
                    WatchAction::Export
                } else if pass_recovery_gate(key) {
                    WatchAction::AlertAndExport
                } else {
                    WatchAction::AlertAndExit
                }
            },
        }
    }

    /// The paths of the files to pack when the bundle is written anew: each
    /// watched path once.
    pub fn export_pself(&self) -> (r: Vec<String>)
        requires
            self.wf(),
        ensures
            forall|i: int, j: int| 0 <= i < j < r@.len() ==> r@[i]@ != r@[j]@,
            forall|i: int| 0 <= i < r@.len() ==> self.watched().contains_key(#[trigger] r@[i]@),
            forall|path: Seq<char>|
                self.watched().contains_key(path) ==> exists|i: int|
                    0 <= i < r@.len() && #[trigger] r@[i]@ == path,
    {
        self.files.keys()
    }
}

} // verus!
