//! Reading the listings of running processes that `ps -eo pid,comm` and
//! `tasklist` print.
//!
//! Both listings give one process per line after some header lines. A line
//! that is not read as a process is passed over.

use crate::hfs::{ProcessInfo, ProcessView};
use crate::lines::{lines_from, text_line_at, text_lines};
use crate::numbers::{parse_i32, parse_int32, read_int32};
use crate::text::chars_of;
use crate::words::{join_words, trim_range, trimmed, word_ranges, words_of};
use regex::Regex;
use vstd::prelude::*;
use vstd::string::{StrSliceExecFns, StringExecFns};

verus! {

/// The two listings that are read.
#[derive(Debug, Clone, Copy, PartialEq, Eq, Structural)]
pub enum ListingKind {
    /// What `ps -eo pid,comm` prints: one header line, then lines of a
    /// process number and a command.
    Ps,
    /// What `tasklist` prints: three header lines, then lines of an image
    /// name and a process number, with more columns behind.
    Tasklist,
}

/// What a regular expression captures in a text, by the rules of the `regex`
/// crate: nothing when the pattern is not accepted or matches nowhere; else,
/// for the leftmost match, the text of each group in the order of the opening
/// parentheses, the whole match first, and no text for a group that took no
/// part in the match.
pub uninterp spec fn regex_captures(pattern: Seq<char>, haystack: Seq<char>) -> Option<
    Seq<Option<Seq<char>>>,
>;

/// `Regex::new` and `Regex::captures` of the `regex` crate, with the groups
/// read out by `Captures::iter` and `Match::as_str`. The result depends on the
/// pattern and the text alone; what it is for given ones is not stated here.
#[verifier::external_body]
pub(crate) fn captures(pattern: &str, haystack: &str) -> (r: Option<Vec<Option<String>>>)
    ensures
        r.deep_view() == regex_captures(pattern@, haystack@),
{
    let re = match Regex::new(pattern) {
        Ok(re) => re,
        Err(_) => return None,
    };
    let caps = re.captures(haystack)?;
    let mut groups = Vec::new();
    for group in caps.iter() {
        groups.push(group.map(|m| m.as_str().to_string()));
    }
    Some(groups)
}

/// The pattern that a line of `tasklist` is matched against: at its start a
/// run of characters that are no blanks, then blanks, then digits.
pub open spec fn tasklist_pattern() -> Seq<char> {
    "^(\\S+)\\s+(\\d+)"@
}

/// The process that a line of `ps` names: its first word read as the process
/// number, and the words after it, with one space between two, as the command.
/// A line of fewer than two words names none, nor does one whose first word is
/// no number.
pub open spec fn ps_entry(line: Seq<char>) -> Option<ProcessView> {
    let words = words_of(line);
    if words.len() < 2 {
        None
    } else {
        match parse_int32(words[0]) {
            Some(pid) => Some(
                ProcessView { pid, command: join_words(words.subrange(1, words.len() as int)) },
            ),
            None => None,
        }
    }
}

/// The process that the captured groups of a line of `tasklist` name: the
/// first group is the command, the second, read as a number, the process
/// number.
pub open spec fn tasklist_entry_of(groups: Option<Seq<Option<Seq<char>>>>) -> Option<ProcessView> {
    match groups {
        None => None,
        Some(g) => if g.len() < 3 {
            None
        } else {
            match g[2] {
                None => None,
                Some(digits) => match parse_int32(digits) {
                    None => None,
                    Some(pid) => Some(
                        ProcessView {
                            pid,
                            command: match g[1] {
                                Some(name) => name,
                                None => Seq::empty(),
                            },
                        },
                    ),
                },
            }
        },
    }
}

/// The process that a line of `tasklist` names. A line of blanks names none.
pub open spec fn tasklist_entry(line: Seq<char>) -> Option<ProcessView> {
    if trimmed(line).len() == 0 {
        None
    } else {
        tasklist_entry_of(regex_captures(tasklist_pattern(), trimmed(line)))
    }
}

/// Number of header lines of a listing.
pub open spec fn header_lines(kind: ListingKind) -> nat {
    match kind {
        ListingKind::Ps => 1,
        ListingKind::Tasklist => 3,
    }
}

/// The process that a line of a listing names.
pub open spec fn entry_of(kind: ListingKind, line: Seq<char>) -> Option<ProcessView> {
    match kind {
        ListingKind::Ps => ps_entry(line),
        ListingKind::Tasklist => tasklist_entry(line),
    }
}

/// The processes that the lines of a listing name, in their order; the
/// header lines name none.
pub open spec fn entries_of(kind: ListingKind, lines: Seq<Seq<char>>) -> Seq<ProcessView>
    decreases lines.len(),
{
    if lines.len() == 0 {
        Seq::empty()
    } else {
        let before = entries_of(kind, lines.drop_last());
        if lines.len() <= header_lines(kind) {
            before
        } else {
            match entry_of(kind, lines.last()) {
                Some(p) => before.push(p),
                None => before,
            }
        }
    }
}

/// The processes that a listing names.
pub open spec fn listing(kind: ListingKind, stdout: Seq<char>) -> Seq<ProcessView> {
    entries_of(kind, text_lines(stdout))
}

/// A list of processes as mathematical values.
pub open spec fn views(processes: Seq<ProcessInfo>) -> Seq<ProcessView> {
    processes.map_values(|p: ProcessInfo| p@)
}

/// Reads a line of `ps`.
pub fn parse_ps_line(line: &str) -> (r: Option<ProcessInfo>)
    ensures
        match r {
            Some(p) => ps_entry(line@) == Some(p@),
            None => ps_entry(line@) is None,
        },
{
    let cs = chars_of(line);
    let ranges = word_ranges(cs.as_slice());
    if ranges.len() < 2 {
        return None;
    }
    let ghost words = words_of(line@);
    let pid = match read_int32(cs.as_slice(), ranges[0].0, ranges[0].1) {
        Some(pid) => pid,
        None => {
            return None;
        },
    };
    let mut command = line.substring_char(ranges[1].0, ranges[1].1).to_owned();
    assert(words.subrange(1, 2) =~= seq![words[1]]);
    let mut k: usize = 2;
    while k < ranges.len()
        invariant
            2 <= k <= ranges@.len(),
            cs@ == line@,
            words == words_of(line@),
            ranges@.len() == words.len(),
            forall|j: int|
                0 <= j < ranges@.len() ==> (#[trigger] ranges@[j]).0 < ranges@[j].1 <= cs@.len()
                    && cs@.subrange(ranges@[j].0 as int, ranges@[j].1 as int) == words[j],
            command@ == join_words(words.subrange(1, k as int)),
        decreases ranges@.len() - k,
    {
        proof {
            reveal_strlit(" ");
            assert(" "@ =~= seq![' ']);
            let upto = words.subrange(1, k + 1);
            assert(upto.drop_last() =~= words.subrange(1, k as int));
            assert(upto.last() == words[k as int]);
        }
        command.append(" ");
        command.append(line.substring_char(ranges[k].0, ranges[k].1));
        k += 1;
    }
    Some(ProcessInfo { pid, command })
}

/// The process that the captured groups of a line of `tasklist` name.
pub fn tasklist_entry_from(groups: Option<Vec<Option<String>>>) -> (r: Option<ProcessInfo>)
    ensures
        match r {
            Some(p) => tasklist_entry_of(groups.deep_view()) == Some(p@),
            None => tasklist_entry_of(groups.deep_view()) is None,
        },
{
    let groups = match groups {
        Some(g) => g,
        None => {
            return None;
        },
    };
    if groups.len() < 3 {
        return None;
    }
    let ghost g = groups.deep_view();
    assert(g[1] == groups@[1].deep_view());
    assert(g[2] == groups@[2].deep_view());
    let pid = match &groups[2] {
        None => {
            return None;
        },
        Some(digits) => match parse_i32(digits.as_str()) {
            Some(pid) => pid,
            None => {
                return None;
            },
        },
    };
    let command = match &groups[1] {
        Some(name) => name.clone(),
        None => String::new(),
    };
    Some(ProcessInfo { pid, command })
}

/// Reads a line of `tasklist`.
pub fn parse_tasklist_line(line: &str) -> (r: Option<ProcessInfo>)
    ensures
        match r {
            Some(p) => tasklist_entry(line@) == Some(p@),
            None => tasklist_entry(line@) is None,
        },
{
    let cs = chars_of(line);
    let (start, end) = trim_range(cs.as_slice());
    if start == end {
        return None;
    }
    let groups = captures("^(\\S+)\\s+(\\d+)", line.substring_char(start, end));
    tasklist_entry_from(groups)
}

/// Reads a line of a listing.
pub fn parse_line(kind: ListingKind, line: &str) -> (r: Option<ProcessInfo>)
    ensures
        match r {
            Some(p) => entry_of(kind, line@) == Some(p@),
            None => entry_of(kind, line@) is None,
        },
{
    match kind {
        ListingKind::Ps => parse_ps_line(line),
        ListingKind::Tasklist => parse_tasklist_line(line),
    }
}

/// Reads a listing: the processes that its lines name, in their order.
pub fn parse_listing(kind: ListingKind, stdout: &str) -> (r: Vec<ProcessInfo>)
    ensures
        views(r@) == listing(kind, stdout@),
{
    let skip: usize = match kind {
        ListingKind::Ps => 1,
        ListingKind::Tasklist => 3,
    };
    let cs = chars_of(stdout);
    let mut out: Vec<ProcessInfo> = Vec::new();
    let ghost mut done: Seq<Seq<char>> = Seq::empty();
    let mut index: usize = 0;
    let mut start: usize = 0;
    assert(views(out@) =~= entries_of(kind, done));
    while start < cs.len()
        invariant
            cs@ == stdout@,
            skip == header_lines(kind),
            index == done.len(),
            index <= start <= cs@.len(),
            text_lines(stdout@) == done + lines_from(cs@, '\n', '\r', start as int),
            views(out@) == entries_of(kind, done),
        decreases cs@.len() - start,
    {
        let (end, brk) = text_line_at(cs.as_slice(), start);
        let ghost line = cs@.subrange(start as int, end as int);
        let ghost rest = if brk < cs@.len() {
            lines_from(cs@, '\n', '\r', brk + 1)
        } else {
            Seq::<Seq<char>>::empty()
        };
        proof {
            assert(lines_from(cs@, '\n', '\r', start as int) == seq![line] + rest);
            assert(done + (seq![line] + rest) =~= done.push(line) + rest);
            assert(done.push(line).drop_last() =~= done);
        }
        if index >= skip {
            match parse_line(kind, stdout.substring_char(start, end)) {
                Some(p) => {
                    let ghost before = out@;
                    out.push(p);
                    assert(views(out@) =~= views(before).push(p@));
                },
                None => {},
            }
        }
        proof {
            done = done.push(line);
        }
        index += 1;
        if brk == cs.len() {
            proof {
                assert(done + Seq::<Seq<char>>::empty() =~= done);
            }
            return out;
        }
        start = brk + 1;
    }
    proof {
        assert(lines_from(cs@, '\n', '\r', start as int) =~= Seq::<Seq<char>>::empty());
        assert(done + Seq::<Seq<char>>::empty() =~= done);
    }
    out
}

/// Reads what `ps -eo pid,comm` printed.
pub fn parse_ps_listing(stdout: &str) -> (r: Vec<ProcessInfo>)
    ensures
        views(r@) == listing(ListingKind::Ps, stdout@),
{
    parse_listing(ListingKind::Ps, stdout)
}

/// Reads what `tasklist` printed.
pub fn parse_tasklist_listing(stdout: &str) -> (r: Vec<ProcessInfo>)
    ensures
        views(r@) == listing(ListingKind::Tasklist, stdout@),
{
    parse_listing(ListingKind::Tasklist, stdout)
}

} // verus!
