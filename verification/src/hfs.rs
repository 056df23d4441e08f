//! The policy of the process hunter: which running processes are forbidden.
//!
//! A process is forbidden when its command holds one of the forbidden
//! patterns, letter case set aside. The first forbidden process of a listing
//! is reported, and a hunt ends with its first report.

use crate::text::{lowercase, occurs_in, str_contains, to_lowercase};
use vstd::prelude::*;
use vstd::utf8::encode_utf8;

verus! {

/// A running process.
#[derive(Debug, Clone, PartialEq, Eq)]
pub struct ProcessInfo {
    pub pid: i32,
    pub command: String,
}

/// A running process as mathematical values.
pub struct ProcessView {
    pub pid: i32,
    pub command: Seq<char>,
}

impl View for ProcessInfo {
    type V = ProcessView;

    open spec fn view(&self) -> ProcessView {
        ProcessView { pid: self.pid, command: self.command@ }
    }
}

/// The hunter: the patterns it looks for, and the pause between two looks.
#[derive(Debug, PartialEq, Eq)]
pub struct HfsHunter {
    pub forbidden_patterns: Vec<String>,
    pub scan_interval: std::time::Duration,
}

/// What the hunter does after a look at the running processes.
#[derive(Debug, Clone, PartialEq, Eq)]
pub enum ScanStep {
    /// Nothing forbidden runs: pause, then look again.
    Continue,
    /// A forbidden process runs: report it and end the hunt.
    Report(ProcessInfo),
}

/// Whether a command holds a pattern, letter case set aside: the bytes of the
/// lower-case pattern stand somewhere in the bytes of the lower-case command.
pub open spec fn holds_pattern(command: Seq<char>, pattern: Seq<char>) -> bool {
    occurs_in(encode_utf8(lowercase(pattern)), encode_utf8(lowercase(command)))
}

/// Whether a command holds one of the patterns.
pub open spec fn is_forbidden(command: Seq<char>, patterns: Seq<String>) -> bool {
    exists|j: int| 0 <= j < patterns.len() && holds_pattern(command, (#[trigger] patterns[j])@)
}

/// Whether `i` is the position of the first forbidden process of a listing.
pub open spec fn is_first_forbidden(processes: Seq<ProcessInfo>, patterns: Seq<String>, i: int) -> bool {
    &&& 0 <= i < processes.len()
    &&& is_forbidden(processes[i].command@, patterns)
    &&& forall|k: int| 0 <= k < i ==> !is_forbidden((#[trigger] processes[k]).command@, patterns)
}

/// Whether a command that is already in lower case holds a pattern that is
/// already in lower case.
pub fn lowered_holds(lower_command: &str, lower_pattern: &str) -> (r: bool)
    ensures
        r == occurs_in(encode_utf8(lower_pattern@), encode_utf8(lower_command@)),
{
    str_contains(lower_command, lower_pattern)
}

impl HfsHunter {
    /// A hunter for the given patterns that pauses for `scan_interval`
    /// between two looks.
    pub fn new(forbidden_patterns: Vec<String>, scan_interval: std::time::Duration) -> (r: HfsHunter)
        ensures
            r.forbidden_patterns@ == forbidden_patterns@,
            r.scan_interval == scan_interval,
    {
        HfsHunter { forbidden_patterns, scan_interval }
    }

    /// Whether `command` holds one of the forbidden patterns.
    pub fn forbids(&self, command: &str) -> (r: bool)
        ensures
            r == is_forbidden(command@, self.forbidden_patterns@),
    {
        let lower_command = to_lowercase(command);
        let mut j: usize = 0;
        while j < self.forbidden_patterns.len()
            invariant
                j <= self.forbidden_patterns@.len(),
                lower_command@ == lowercase(command@),
                forall|k: int|
                    0 <= k < j ==> !holds_pattern(
                        command@,
                        (#[trigger] self.forbidden_patterns@[k])@,
                    ),
            decreases self.forbidden_patterns@.len() - j,
        {
            let lower_pattern = to_lowercase(self.forbidden_patterns[j].as_str());
            if lowered_holds(lower_command.as_str(), lower_pattern.as_str()) {
                return true;
            }
            j += 1;
        }
        false
    }

    /// The position of the first forbidden process of a listing, if one is
    /// forbidden.
    pub fn find_violation(&self, processes: &[ProcessInfo]) -> (r: Option<usize>)
        ensures
            match r {
                Some(i) => is_first_forbidden(processes@, self.forbidden_patterns@, i as int),
                None => forall|k: int|
                    0 <= k < processes@.len() ==> !is_forbidden(
                        (#[trigger] processes@[k]).command@,
                        self.forbidden_patterns@,
                    ),
            },
    {
        let mut i: usize = 0;
        while i < processes.len()
            invariant
                i <= processes@.len(),
                forall|k: int|
                    0 <= k < i ==> !is_forbidden(
                        (#[trigger] processes@[k]).command@,
                        self.forbidden_patterns@,
                    ),
            decreases processes@.len() - i,
        {
            if self.forbids(processes[i].command.as_str()) {
                return Some(i);
            }
            i += 1;
        }
        None
    }

    /// What the hunter does after a look that found `processes` running.
    pub fn scan(&self, processes: &[ProcessInfo]) -> (r: ScanStep)
        ensures
            match r {
                ScanStep::Report(p) => exists|i: int|
                    is_first_forbidden(processes@, self.forbidden_patterns@, i) && p.pid
                        == processes@[i].pid && p.command@ == processes@[i].command@,
                ScanStep::Continue => forall|k: int|
                    0 <= k < processes@.len() ==> !is_forbidden(
                        (#[trigger] processes@[k]).command@,
                        self.forbidden_patterns@,
                    ),
            },
    {
        match self.find_violation(processes) {
            Some(i) => {
                let p = &processes[i];
                ScanStep::Report(ProcessInfo { pid: p.pid, command: p.command.clone() })
            },
            None => ScanStep::Continue,
        }
    }
}

/// A hunter without patterns forbids nothing.
pub proof fn lemma_no_patterns_forbid_nothing(command: Seq<char>, patterns: Seq<String>)
    requires
        patterns.len() == 0,
    ensures
        !is_forbidden(command, patterns),
{
}

/// Letter case plays no part: two commands with one lower-case form are
/// forbidden together, and two patterns with one lower-case form forbid the
/// same commands.
pub proof fn lemma_case_plays_no_part(a: Seq<char>, b: Seq<char>, pattern: Seq<char>, other: Seq<char>)
    ensures
        lowercase(a) == lowercase(b) ==> holds_pattern(a, pattern) == holds_pattern(b, pattern),
        lowercase(pattern) == lowercase(other) ==> holds_pattern(a, pattern) == holds_pattern(
            a,
            other,
        ),
{
}

} // verus!
