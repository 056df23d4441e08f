//! Loading a container and selecting the section meant for the host.
//!
//! A runner is made from the bytes of a whole container and never changes
//! them. Loading reads the header and the section table. A run then scans the
//! records in file order and stops at the first one that passes three checks,
//! in this order: its byte range lies inside the container, its stored digest
//! is the digest of those bytes, and its type is the one the platform loads.
//! A record that fails a check is passed over and the scan goes on. A scan
//! that reaches the end of the table without a match ends in
//! `NoCompatibleSection`.

use crate::digest::{digest_eq, sha256, sha256_digest};
use crate::format::{
    decode_header, decode_section, FormatError, PselfHeader, SectionEntry, SectionEntryView,
    SectionType, HEADER_SIZE, SECTION_SIZE,
};
use crate::platform::{compatible, detect_kernel, is_compatible_with, kernel_of, KernelType};
use vstd::prelude::*;
use vstd::slice::{slice_subrange, slice_to_vec};
use vstd::string::StringExecFns;

verus! {

/// The stored digest of a section is not the digest of its bytes.
#[derive(Debug, Clone, Copy, PartialEq, Eq, Structural)]
pub enum IntegrityError {
    HashMismatch,
}

/// The byte range of a section does not lie inside the container.
#[derive(Debug, Clone, Copy, PartialEq, Eq, Structural)]
pub enum RangeError {
    OutOfBounds,
}

/// No section of the container can be loaded on the platform.
#[derive(Debug, Clone, Copy, PartialEq, Eq, Structural)]
pub enum SelectionError {
    NoCompatibleSection,
}

/// Why a run ended without a section.
#[derive(Debug, Clone, Copy, PartialEq, Eq, Structural)]
pub enum PselfError {
    /// The container could not be loaded.
    Format(FormatError),
    /// The container was loaded and none of its sections was selected.
    Selection(SelectionError),
}

/// What the scan finds of one record.
#[derive(Debug, Clone, Copy, PartialEq, Eq, Structural)]
pub enum SectionStatus {
    /// The record could not be read.
    Malformed(FormatError),
    /// The record points outside the container.
    OutOfRange(RangeError),
    /// The bytes the record points at do not have the stored digest.
    Tampered(IntegrityError),
    /// The record is sound but of a type that the platform does not load.
    Incompatible,
    /// The record passes every check.
    Selected,
}

/// Where a run stands.
///
/// A run starts as `Loaded`, scans the table record by record, and ends as
/// `Selected` at the first record that passes every check or as `Exhausted`
/// behind the last record. A container whose header is not read never gets
/// this far: loading it fails.
#[derive(Debug, Clone, Copy, PartialEq, Eq, Structural)]
pub enum RunState {
    /// Header and table are read; no record was looked at.
    Loaded,
    /// The records before this position were passed over; the record at it
    /// is looked at next.
    Scanning(usize),
    /// The record at this position passed every check. The run is over.
    Selected(usize),
    /// No record passed. The run is over.
    Exhausted,
}

/// A file to be written: its name and its bytes.
#[derive(Debug, Clone, PartialEq, Eq)]
pub struct OutputArtifact {
    pub file_name: String,
    pub content: Vec<u8>,
}

/// The outcome of a run that found a section.
#[derive(Debug, Clone, PartialEq, Eq)]
pub struct Selection {
    /// Position of the selected record in the table.
    pub index: usize,
    /// The type of the selected section.
    pub section_type: SectionType,
    /// The payload, ready to be written out.
    pub artifact: OutputArtifact,
}

/// A loaded container.
#[derive(Debug, Clone, PartialEq, Eq)]
pub struct PselfRunner {
    /// The bytes of the whole container.
    pub data: Vec<u8>,
    /// The header read from the first 12 bytes.
    pub header: PselfHeader,
    /// One entry per record of the table, in file order: the record, or why
    /// it could not be read.
    pub sections: Vec<Result<SectionEntry, FormatError>>,
}

/// A record of the table as mathematical values, or why it could not be read.
pub type RecordView = Result<SectionEntryView, FormatError>;

/// The mathematical value of one entry of a runner's table.
pub open spec fn record_view(r: Result<SectionEntry, FormatError>) -> RecordView {
    match r {
        Ok(e) => Ok(e@),
        Err(x) => Err(x),
    }
}

/// Whether a table of `count` records fits in a container of `len` bytes.
pub open spec fn table_fits(len: nat, count: u32) -> bool {
    12 + 73 * count <= len
}

/// The bytes of record `i` of the table.
pub open spec fn record_bytes(data: Seq<u8>, i: int) -> Seq<u8> {
    data.subrange(12 + 73 * i, 12 + 73 * (i + 1))
}

/// Why a byte string is not loaded as a container, if it is not: its header
/// is not read, or it is too short for the table that the header announces.
pub open spec fn load_error(data: Seq<u8>) -> Option<FormatError> {
    match decode_header(data) {
        Err(x) => Some(x),
        Ok(h) => if table_fits(data.len(), h.section_count) {
            None
        } else {
            Some(FormatError::TooShort)
        },
    }
}

/// The table of a container that is loaded.
pub open spec fn load_table(data: Seq<u8>) -> Seq<RecordView>
    recommends
        load_error(data) is None,
{
    Seq::new(decode_header(data)->Ok_0.section_count as nat, |i: int| decode_section(record_bytes(data, i)))
}

/// The bytes that a record points at.
pub open spec fn payload(e: SectionEntryView, data: Seq<u8>) -> Seq<u8>
    recommends
        e.offset + e.length <= data.len(),
{
    data.subrange(e.offset as int, e.offset + e.length)
}

/// What the scan finds of a record, on the platform named `os`.
pub open spec fn status_of(rec: RecordView, data: Seq<u8>, os: Seq<char>) -> SectionStatus {
    match rec {
        Err(x) => SectionStatus::Malformed(x),
        Ok(e) => if e.offset + e.length > data.len() {
            SectionStatus::OutOfRange(RangeError::OutOfBounds)
        } else if sha256(payload(e, data)) != e.hash {
            SectionStatus::Tampered(IntegrityError::HashMismatch)
        } else if !compatible(e.section_type, kernel_of(os)) {
            SectionStatus::Incompatible
        } else {
            SectionStatus::Selected
        },
    }
}

/// The record that a scan starting at position `from` stops at, if any.
pub open spec fn scan_from(records: Seq<RecordView>, data: Seq<u8>, os: Seq<char>, from: int) -> Option<int>
    decreases records.len() - from,
{
    if from < 0 || from >= records.len() {
        None
    } else if status_of(records[from], data, os) is Selected {
        Some(from)
    } else {
        scan_from(records, data, os, from + 1)
    }
}

/// The state that follows `state` in a run over `records`.
pub open spec fn next_state(records: Seq<RecordView>, data: Seq<u8>, os: Seq<char>, state: RunState) -> RunState {
    match state {
        RunState::Loaded => RunState::Scanning(0),
        RunState::Scanning(i) => if i >= records.len() {
            RunState::Exhausted
        } else if status_of(records[i as int], data, os) is Selected {
            RunState::Selected(i)
        } else {
            RunState::Scanning((i + 1) as usize)
        },
        RunState::Selected(i) => RunState::Selected(i),
        RunState::Exhausted => RunState::Exhausted,
    }
}

/// The state after `n` steps from `state`.
pub open spec fn state_after(records: Seq<RecordView>, data: Seq<u8>, os: Seq<char>, state: RunState, n: nat) -> RunState
    decreases n,
{
    if n == 0 {
        state
    } else {
        state_after(records, data, os, next_state(records, data, os, state), (n - 1) as nat)
    }
}

/// The state in which a scan ends that stops at `found`.
pub open spec fn final_state(found: Option<int>) -> RunState {
    match found {
        Some(i) => RunState::Selected(i as usize),
        None => RunState::Exhausted,
    }
}

/// The file-name suffix of the artifact written for a section type.
pub open spec fn output_suffix(t: SectionType) -> Seq<char> {
    match t {
        SectionType::Elf => ".elf.pself"@,
        SectionType::Pe => ".exe.pself"@,
        SectionType::Macho => ".mach.pself"@,
    }
}

/// The file name of the artifact written for a section type.
pub open spec fn output_name(t: SectionType) -> Seq<char> {
    "output_"@ + output_suffix(t)
}

impl SectionEntry {
    /// The SHA-256 digest of `content`.
    pub fn compute_hash(content: &[u8]) -> (r: [u8; 32])
        ensures
            r@ == sha256(content@),
    {
        sha256_digest(content)
    }

    /// Whether `digest` is the digest stored in this record.
    pub fn matches_digest(&self, digest: &[u8; 32]) -> (r: bool)
        ensures
            r == (digest@ == self@.hash),
    {
        digest_eq(digest, &self.hash)
    }

    /// Whether the digest of `content` is the digest stored in this record.
    ///
    /// This detects a payload that was changed without the record; it cannot
    /// detect a change by someone who rewrites the record too.
    pub fn verify_hash(&self, content: &[u8]) -> (r: bool)
        ensures
            r == (sha256(content@) == self@.hash),
    {
        let computed = Self::compute_hash(content);
        self.matches_digest(&computed)
    }

    /// Whether the byte range of this record lies inside a container of
    /// `data_len` bytes.
    pub fn in_bounds(&self, data_len: usize) -> (r: bool)
        ensures
            r == (self.offset + self.length <= data_len),
    {
        self.offset as u64 + self.length as u64 <= data_len as u64
    }
}

/// The file-name suffix of the artifact written for a section type.
pub fn suffix_of(t: SectionType) -> (r: &'static str)
    ensures
        r@ == output_suffix(t),
{
    match t {
        SectionType::Elf => ".elf.pself",
        SectionType::Pe => ".exe.pself",
        SectionType::Macho => ".mach.pself",
    }
}

impl PselfRunner {
    /// The table of this runner as mathematical values.
    pub open spec fn records(&self) -> Seq<RecordView> {
        Seq::new(self.sections@.len(), |i: int| record_view(self.sections@[i]))
    }

    /// Loads a container from its bytes.
    ///
    /// Fails when the header is not read, with the header's error, and with
    /// `TooShort` when the container is shorter than the header and the table
    /// that the header announces. A record of the table that cannot be read
    /// does not fail the load: its place in the table holds the error.
    pub fn new(data: Vec<u8>) -> (r: Result<PselfRunner, FormatError>)
        ensures
            match r {
                Ok(runner) => {
                    &&& load_error(data@) is None
                    &&& runner.data@ == data@
                    &&& decode_header(data@) == Ok::<PselfHeader, FormatError>(runner.header)
                    &&& runner.records() == load_table(data@)
                },
                Err(x) => load_error(data@) == Some(x),
            },
    {
        let header = match PselfHeader::from_bytes(data.as_slice()) {
            Ok(h) => h,
            Err(x) => {
                return Err(x);
            },
        };
        let count = header.section_count;
        if HEADER_SIZE as u64 + SECTION_SIZE as u64 * (count as u64) > data.len() as u64 {
            return Err(FormatError::TooShort);
        }
        let mut sections: Vec<Result<SectionEntry, FormatError>> = Vec::new();
        let mut i: usize = 0;
        while i < count as usize
            invariant
                i <= count,
                12 + 73 * count <= data@.len() <= usize::MAX,
                sections@.len() == i,
                forall|j: int|
                    0 <= j < i ==> record_view(#[trigger] sections@[j]) == decode_section(
                        record_bytes(data@, j),
                    ),
            decreases count - i,
        {
            let off: usize = HEADER_SIZE + SECTION_SIZE * i;
            let record = slice_subrange(data.as_slice(), off, off + SECTION_SIZE);
            let entry = SectionEntry::from_bytes(record);
            sections.push(entry);
            i += 1;
        }
        let runner = PselfRunner { data, header, sections };
        assert(runner.records() =~= load_table(data@));
        Ok(runner)
    }

    /// The normalized name of a host's platform, from the operating-system
    /// name of its build target: `linux`, `windows`, `macos`, or `unknown`
    /// for every other name.
    pub fn detect_os(target_os: &str) -> (r: &'static str)
        ensures
            r@ == match kernel_of(target_os@) {
                KernelType::Linux => "linux"@,
                KernelType::Windows => "windows"@,
                KernelType::MacOS => "macos"@,
                KernelType::Unknown => "unknown"@,
            },
    {
        match detect_kernel(target_os) {
            KernelType::Linux => "linux",
            KernelType::Windows => "windows",
            KernelType::MacOS => "macos",
            KernelType::Unknown => "unknown",
        }
    }

    /// Whether the platform named `os` loads sections of type `section_type`:
    /// `linux` loads Elf, `windows` loads Pe, `macos` loads Macho, and a
    /// platform of any other name loads nothing.
    pub fn is_compatible(section_type: SectionType, os: &str) -> (r: bool)
        ensures
            r == compatible(section_type, kernel_of(os@)),
    {
        is_compatible_with(section_type, detect_kernel(os))
    }

    /// The artifact that holds `content` as the payload of a section of type
    /// `section_type`: the bytes unchanged, under the name that the type gives.
    pub fn load_section(&self, content: &[u8], section_type: SectionType) -> (r: OutputArtifact)
        ensures
            r.file_name@ == output_name(section_type),
            r.content@ == content@,
    {
        let file_name = String::from_str("output_").concat(suffix_of(section_type));
        OutputArtifact { file_name, content: slice_to_vec(content) }
    }

    /// What the scan finds of the record at `index` on the platform named
    /// `os`; `None` when the table has no such record.
    pub fn inspect(&self, index: usize, os: &str) -> (r: Option<SectionStatus>)
        ensures
            index >= self.sections@.len() ==> r is None,
            index < self.sections@.len() ==> r == Some(
                status_of(self.records()[index as int], self.data@, os@),
            ),
    {
        if index >= self.sections.len() {
            return None;
        }
        match &self.sections[index] {
            Err(x) => Some(SectionStatus::Malformed(*x)),
            Ok(sec) => {
                if !sec.in_bounds(self.data.len()) {
                    return Some(SectionStatus::OutOfRange(RangeError::OutOfBounds));
                }
                let start = sec.offset as usize;
                let end = start + sec.length as usize;
                let content = slice_subrange(self.data.as_slice(), start, end);
                if !sec.verify_hash(content) {
                    return Some(SectionStatus::Tampered(IntegrityError::HashMismatch));
                }
                if !Self::is_compatible(sec.section_type, os) {
                    return Some(SectionStatus::Incompatible);
                }
                Some(SectionStatus::Selected)
            },
        }
    }

    /// Takes a run one step further on the platform named `os`.
    pub fn step(&self, state: RunState, os: &str) -> (r: RunState)
        ensures
            r == next_state(self.records(), self.data@, os@, state),
    {
        match state {
            RunState::Loaded => RunState::Scanning(0),
            RunState::Scanning(i) => match self.inspect(i, os) {
                None => RunState::Exhausted,
                Some(SectionStatus::Selected) => RunState::Selected(i),
                Some(_) => {
                    assert(i < self.sections.len());
                    RunState::Scanning(i + 1)
                },
            },
            RunState::Selected(i) => RunState::Selected(i),
            RunState::Exhausted => RunState::Exhausted,
        }
    }

    /// Scans the table in file order on the platform named `os` and returns
    /// the first record that passes every check, with its payload as the
    /// artifact to write. Records after it are not looked at. Fails with
    /// `NoCompatibleSection` when no record passes.
    pub fn run(&self, os: &str) -> (r: Result<Selection, SelectionError>)
        ensures
            match r {
                Ok(sel) => {
                    &&& scan_from(self.records(), self.data@, os@, 0) == Some(sel.index as int)
                    &&& sel.index < self.sections@.len()
                    &&& self.records()[sel.index as int] matches Ok(e)
                    &&& sel.section_type == e.section_type
                    &&& sel.artifact.file_name@ == output_name(e.section_type)
                    &&& sel.artifact.content@ == payload(e, self.data@)
                },
                Err(x) => {
                    &&& scan_from(self.records(), self.data@, os@, 0) is None
                    &&& x == SelectionError::NoCompatibleSection
                },
            },
    {
        assert(self.data@.len() == self.data.len());
        let mut i: usize = 0;
        while i < self.sections.len()
            invariant
                i <= self.sections@.len(),
                self.data@.len() <= usize::MAX,
                scan_from(self.records(), self.data@, os@, 0) == scan_from(
                    self.records(),
                    self.data@,
                    os@,
                    i as int,
                ),
            decreases self.sections@.len() - i,
        {
            let status = self.inspect(i, os);
            if let Some(SectionStatus::Selected) = status {
                match &self.sections[i] {
                    Ok(sec) => {
                        assert(self.records()[i as int] == Ok::<SectionEntryView, FormatError>(
                            sec@,
                        ));
                        let start = sec.offset as usize;
                        let end = start + sec.length as usize;
                        let content = slice_subrange(self.data.as_slice(), start, end);
                        let artifact = self.load_section(content, sec.section_type);
                        return Ok(Selection { index: i, section_type: sec.section_type, artifact });
                    },
                    Err(_) => {},
                }
            }
            i += 1;
        }
        Err(SelectionError::NoCompatibleSection)
    }
}

/// Loads a container from its bytes and runs it on the platform named `os`.
pub fn run_pself(data: Vec<u8>, os: &str) -> (r: Result<Selection, PselfError>)
    ensures
        match r {
            Ok(sel) => {
                &&& load_error(data@) is None
                &&& scan_from(load_table(data@), data@, os@, 0) == Some(sel.index as int)
                &&& load_table(data@)[sel.index as int] matches Ok(e)
                &&& sel.section_type == e.section_type
                &&& sel.artifact.file_name@ == output_name(e.section_type)
                &&& sel.artifact.content@ == payload(e, data@)
            },
            Err(PselfError::Format(x)) => load_error(data@) == Some(x),
            Err(PselfError::Selection(x)) => {
                &&& load_error(data@) is None
                &&& scan_from(load_table(data@), data@, os@, 0) is None
                &&& x == SelectionError::NoCompatibleSection
            },
        },
{
    let runner = match PselfRunner::new(data) {
        Ok(runner) => runner,
        Err(x) => {
            return Err(PselfError::Format(x));
        },
    };
    match runner.run(os) {
        Ok(sel) => Ok(sel),
        Err(x) => Err(PselfError::Selection(x)),
    }
}

/// A scan stops at the first record that passes every check: no record
/// before it passes, and records after it play no part. It ends without a
/// record exactly when no record from its start on passes.
pub proof fn lemma_scan_stops_at_first(records: Seq<RecordView>, data: Seq<u8>, os: Seq<char>, from: int)
    requires
        0 <= from,
    ensures
        match scan_from(records, data, os, from) {
            Some(i) => {
                &&& from <= i < records.len()
                &&& status_of(records[i], data, os) is Selected
                &&& forall|j: int| from <= j < i ==> !(status_of(records[j], data, os) is Selected)
            },
            None => forall|j: int|
                from <= j < records.len() ==> !(status_of(records[j], data, os) is Selected),
        },
    decreases records.len() - from,
{
    if from < records.len() && !(status_of(records[from], data, os) is Selected) {
        lemma_scan_stops_at_first(records, data, os, from + 1);
    }
}

/// A run that has ended stays where it is.
pub proof fn lemma_ended_run_stays(records: Seq<RecordView>, data: Seq<u8>, os: Seq<char>, state: RunState, n: nat)
    requires
        state is Selected || state is Exhausted,
    ensures
        state_after(records, data, os, state, n) == state,
    decreases n,
{
    if n > 0 {
        lemma_ended_run_stays(records, data, os, state, (n - 1) as nat);
    }
}

/// A run that stands before record `from` ends where the scan from `from`
/// stops, after as many steps as there are records left and one more, or any
/// greater number of steps.
pub proof fn lemma_run_ends_where_scan_stops(records: Seq<RecordView>, data: Seq<u8>, os: Seq<char>, from: usize, more: nat)
    requires
        from <= records.len() <= usize::MAX,
    ensures
        state_after(
            records,
            data,
            os,
            RunState::Scanning(from),
            (records.len() - from + 1 + more) as nat,
        ) == final_state(scan_from(records, data, os, from as int)),
    decreases records.len() - from,
{
    let n = (records.len() - from + 1 + more) as nat;
    let next = next_state(records, data, os, RunState::Scanning(from));
    assert(state_after(records, data, os, RunState::Scanning(from), n) == state_after(
        records,
        data,
        os,
        next,
        (n - 1) as nat,
    ));
    if from >= records.len() {
        lemma_ended_run_stays(records, data, os, RunState::Exhausted, (n - 1) as nat);
    } else if status_of(records[from as int], data, os) is Selected {
        lemma_ended_run_stays(records, data, os, RunState::Selected(from), (n - 1) as nat);
    } else {
        let after = (from + 1) as usize;
        assert(next == RunState::Scanning(after));
        assert((records.len() - after + 1 + more) as nat == (n - 1) as nat);
        lemma_run_ends_where_scan_stops(records, data, os, after, more);
    }
}

/// A run from the loaded state ends where the scan of the whole table stops.
pub proof fn lemma_run_from_loaded(records: Seq<RecordView>, data: Seq<u8>, os: Seq<char>, more: nat)
    requires
        records.len() <= usize::MAX,
    ensures
        state_after(records, data, os, RunState::Loaded, (records.len() + 2 + more) as nat)
            == final_state(scan_from(records, data, os, 0)),
{
    lemma_run_ends_where_scan_stops(records, data, os, 0, more);
    assert(next_state(records, data, os, RunState::Loaded) == RunState::Scanning(0));
}

/// A record that does not pass is passed over: the scan that reaches it goes
/// on with the record after it, and never stops at it.
pub proof fn lemma_failed_record_is_skipped(records: Seq<RecordView>, data: Seq<u8>, os: Seq<char>, k: int)
    requires
        0 <= k < records.len(),
        !(status_of(records[k], data, os) is Selected),
    ensures
        scan_from(records, data, os, k) == scan_from(records, data, os, k + 1),
        scan_from(records, data, os, 0) != Some(k),
{
    lemma_scan_stops_at_first(records, data, os, 0);
}

/// A record whose stored digest is not the digest of the bytes it points at
/// is passed over, also when the platform loads its type.
pub proof fn lemma_tampered_section_is_skipped(records: Seq<RecordView>, data: Seq<u8>, os: Seq<char>, k: int)
    requires
        0 <= k < records.len(),
        records[k] matches Ok(e) && e.offset + e.length <= data.len() && sha256(payload(e, data))
            != e.hash,
    ensures
        status_of(records[k], data, os) == SectionStatus::Tampered(IntegrityError::HashMismatch),
        scan_from(records, data, os, k) == scan_from(records, data, os, k + 1),
        scan_from(records, data, os, 0) != Some(k),
{
    lemma_failed_record_is_skipped(records, data, os, k);
}

/// A record whose byte range ends beyond the container is passed over, and
/// the scan goes on with the records after it.
pub proof fn lemma_out_of_range_section_is_skipped(records: Seq<RecordView>, data: Seq<u8>, os: Seq<char>, k: int)
    requires
        0 <= k < records.len(),
        records[k] matches Ok(e) && e.offset + e.length > data.len(),
    ensures
        status_of(records[k], data, os) == SectionStatus::OutOfRange(RangeError::OutOfBounds),
        scan_from(records, data, os, k) == scan_from(records, data, os, k + 1),
        scan_from(records, data, os, 0) != Some(k),
{
    lemma_failed_record_is_skipped(records, data, os, k);
}

/// A scan of the whole table finds nothing exactly when no record of the
/// table passes every check.
pub proof fn lemma_nothing_selected_iff_none_passes(records: Seq<RecordView>, data: Seq<u8>, os: Seq<char>)
    ensures
        scan_from(records, data, os, 0) is None <==> forall|j: int|
            0 <= j < records.len() ==> !(status_of(records[j], data, os) is Selected),
{
    lemma_scan_stops_at_first(records, data, os, 0);
}

/// On a platform of unknown name nothing is ever selected.
pub proof fn lemma_unknown_platform_selects_nothing(records: Seq<RecordView>, data: Seq<u8>, os: Seq<char>)
    requires
        kernel_of(os) == KernelType::Unknown,
    ensures
        scan_from(records, data, os, 0) is None,
{
    lemma_scan_stops_at_first(records, data, os, 0);
}

} // verus!
