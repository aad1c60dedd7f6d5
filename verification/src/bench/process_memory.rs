//! Process memory as `/proc` reports it.

use crate::bench::scan::{
    chars_of, find_line, find_word, has_prefix, lemma_line_has_prefix, line_with, lines, number,
    parse_number, part, split_lines, texts, word, NumberError,
};
use vstd::prelude::*;
use vstd::string::*;

verus! {

/// Resident memory by owner, in bytes.
#[derive(Clone, Copy, Debug, PartialEq, Eq, Structural)]
pub struct MemoryBreakdown {
    /// Anonymous memory.
    pub anonymous_rss_bytes: u64,
    /// Memory backed by files.
    pub file_backed_rss_bytes: u64,
    /// The heap mapping.
    pub heap_mapping_rss_bytes: u64,
    /// Mappings of the database file.
    pub database_mapped_rss_bytes: u64,
}

impl MemoryBreakdown {
    /// Subtract a baseline, owner by owner. No owner falls below zero.
    pub fn saturating_sub(self, baseline: Self) -> (delta: Self)
        ensures
            delta.anonymous_rss_bytes == above(
                self.anonymous_rss_bytes,
                baseline.anonymous_rss_bytes,
            ),
            delta.file_backed_rss_bytes == above(
                self.file_backed_rss_bytes,
                baseline.file_backed_rss_bytes,
            ),
            delta.heap_mapping_rss_bytes == above(
                self.heap_mapping_rss_bytes,
                baseline.heap_mapping_rss_bytes,
            ),
            delta.database_mapped_rss_bytes == above(
                self.database_mapped_rss_bytes,
                baseline.database_mapped_rss_bytes,
            ),
    {
        MemoryBreakdown {
            anonymous_rss_bytes: self.anonymous_rss_bytes.saturating_sub(
                baseline.anonymous_rss_bytes,
            ),
            file_backed_rss_bytes: self.file_backed_rss_bytes.saturating_sub(
                baseline.file_backed_rss_bytes,
            ),
            heap_mapping_rss_bytes: self.heap_mapping_rss_bytes.saturating_sub(
                baseline.heap_mapping_rss_bytes,
            ),
            database_mapped_rss_bytes: self.database_mapped_rss_bytes.saturating_sub(
                baseline.database_mapped_rss_bytes,
            ),
        }
    }
}

/// How far a value lies above a baseline.
pub open spec fn above(value: u64, baseline: u64) -> u64 {
    if value >= baseline {
        (value - baseline) as u64
    } else {
        0
    }
}

/// How far memory has grown above a baseline.
pub fn growth(value: u64, baseline: u64) -> (bytes: u64)
    ensures
        bytes == above(value, baseline),
{
    value.saturating_sub(baseline)
}

/// A sum that stops at the largest number.
pub open spec fn capped(value: int) -> u64 {
    if value > u64::MAX {
        u64::MAX
    } else {
        value as u64
    }
}

/// The value of a status field in KiB: the second word of the first line that
/// starts with its name.
pub open spec fn status_kib(status: Seq<char>, field: Seq<char>) -> Option<u64> {
    match line_with(lines(status), field) {
        None => None,
        Some(line) => match word(line, 1) {
            None => None,
            Some(value) => match number(value) {
                Ok(kib) => Some(kib),
                Err(_) => None,
            },
        },
    }
}

/// Read a status field in KiB.
pub fn proc_status_kib(status: &str, field: &str) -> (kib: Option<u64>)
    ensures
        kib == status_kib(status@, field@),
{
    match find_line(status, field) {
        None => None,
        Some(line) => match find_word(&line, 1) {
            None => None,
            Some(value) => match parse_number(&value) {
                Ok(kib) => Some(kib),
                Err(_) => None,
            },
        },
    }
}

/// KiB in bytes, where that fits.
pub open spec fn kib_bytes(kib: Option<u64>) -> Option<u64> {
    match kib {
        Some(kib) if kib * 1024 <= u64::MAX => Some((kib * 1024) as u64),
        _ => None,
    }
}

/// The resident memory that a process status reports.
pub fn current_rss_bytes(status: &str) -> (bytes: Option<u64>)
    ensures
        bytes == kib_bytes(status_kib(status@, "VmRSS:"@)),
{
    match proc_status_kib(status, "VmRSS:") {
        Some(kib) => kib.checked_mul(1024),
        None => None,
    }
}

/// The peak of the resident memory that a process status reports.
pub fn peak_rss_bytes(status: &str) -> (bytes: Option<u64>)
    ensures
        bytes == kib_bytes(status_kib(status@, "VmHWM:"@)),
{
    match proc_status_kib(status, "VmHWM:") {
        Some(kib) => kib.checked_mul(1024),
        None => None,
    }
}

/// Why a report gave no value.
#[derive(Clone, Copy, Debug, PartialEq, Eq, Structural)]
pub enum StatusError {
    /// No line has the field.
    FieldMissing,
    /// The line has no value.
    ValueMissing,
    /// The value is no number.
    Number(NumberError),
}

impl StatusError {
    /// The text reported for this error of the field called `label`.
    pub open spec fn text(self, label: Seq<char>) -> Seq<char> {
        match self {
            StatusError::FieldMissing => label + " missing"@,
            StatusError::ValueMissing => label + " value missing"@,
            StatusError::Number(error) => error.text(),
        }
    }

    /// Render this error of the field called `label` for a caller.
    pub fn message(&self, label: &str) -> (text: String)
        ensures
            text@ == self.text(label@),
    {
        let mut out = String::new();
        match self {
            StatusError::FieldMissing => {
                out.append(label);
                out.append(" missing");
            },
            StatusError::ValueMissing => {
                out.append(label);
                out.append(" value missing");
            },
            StatusError::Number(error) => out.append(error.message()),
        }
        assert(out@ =~= self.text(label@));
        out
    }
}

impl StatusError {
    /// The text reported for this error by a program that puts what is missing
    /// last: the `field`, or the `value` of the field.
    pub open spec fn missing_text(self, field: Seq<char>, value: Seq<char>) -> Seq<char> {
        match self {
            StatusError::FieldMissing => "missing "@ + field,
            StatusError::ValueMissing => "missing "@ + value,
            StatusError::Number(error) => error.text(),
        }
    }

    /// Render this error for a program that puts what is missing last.
    fn missing_message(&self, field: &str, value: &str) -> (text: String)
        ensures
            text@ == self.missing_text(field@, value@),
    {
        let mut out = String::new();
        match self {
            StatusError::FieldMissing => {
                out.append("missing ");
                out.append(field);
            },
            StatusError::ValueMissing => {
                out.append("missing ");
                out.append(value);
            },
            StatusError::Number(error) => out.append(error.message()),
        }
        assert(out@ =~= self.missing_text(field@, value@));
        out
    }

    /// The text that the routing program reports for this error of the peak.
    pub open spec fn routing_peak_text(self) -> Seq<char> {
        self.missing_text("VmHWM"@, "VmHWM value"@)
    }

    /// Render this error of the peak for the routing program.
    pub fn routing_peak_message(&self) -> (text: String)
        ensures
            text@ == self.routing_peak_text(),
    {
        self.missing_message("VmHWM", "VmHWM value")
    }

    /// The text that the routing program reports for this error of the resident
    /// page count.
    pub open spec fn routing_resident_text(self) -> Seq<char> {
        self.missing_text("resident page count"@, "resident page count"@)
    }

    /// Render this error of the resident page count for the routing program.
    pub fn routing_resident_message(&self) -> (text: String)
        ensures
            text@ == self.routing_resident_text(),
    {
        self.missing_message("resident page count", "resident page count")
    }
}

/// The number in a word, or why there is none.
pub open spec fn word_number(value: Option<Seq<char>>) -> Result<u64, StatusError> {
    match value {
        None => Err(StatusError::ValueMissing),
        Some(value) => match number(value) {
            Ok(n) => Ok(n),
            Err(error) => Err(StatusError::Number(error)),
        },
    }
}

fn read_word(line: &Vec<char>, n: usize) -> (result: Result<u64, StatusError>)
    ensures
        result == word_number(word(line@, n as nat)),
{
    match find_word(line, n) {
        None => Err(StatusError::ValueMissing),
        Some(value) => match parse_number(&value) {
            Ok(n) => Ok(n),
            Err(error) => Err(StatusError::Number(error)),
        },
    }
}

/// A quantity in units of `scale` bytes, in bytes.
pub open spec fn scaled(quantity: Result<u64, StatusError>, scale: u64) -> Result<
    u64,
    StatusError,
> {
    match quantity {
        Ok(quantity) => Ok(capped(quantity * scale)),
        Err(error) => Err(error),
    }
}

fn scale_up(quantity: Result<u64, StatusError>, scale: u64) -> (result: Result<u64, StatusError>)
    ensures
        result == scaled(quantity, scale),
{
    match quantity {
        Ok(quantity) => match quantity.checked_mul(scale) {
            Some(bytes) => Ok(bytes),
            None => Ok(0xFFFF_FFFF_FFFF_FFFF),
        },
        Err(error) => Err(error),
    }
}

/// The bytes of a status field that has to be there.
pub open spec fn required_status(status: Seq<char>, field: Seq<char>) -> Result<u64, StatusError> {
    match line_with(lines(status), field) {
        None => Err(StatusError::FieldMissing),
        Some(line) => scaled(word_number(word(line, 1)), 1024),
    }
}

/// Read a status field that has to be there, in bytes.
pub fn required_status_bytes(status: &str, field: &str) -> (result: Result<u64, StatusError>)
    ensures
        result == required_status(status@, field@),
{
    match find_line(status, field) {
        None => Err(StatusError::FieldMissing),
        Some(line) => scale_up(read_word(&line, 1), 1024),
    }
}

/// The peak memory of a status whose value may follow the name without a
/// space: the first word behind `VmHWM:`.
pub open spec fn adjoining_peak(status: Seq<char>) -> Result<u64, StatusError> {
    match line_with(lines(status), "VmHWM:"@) {
        None => Err(StatusError::FieldMissing),
        Some(line) => scaled(word_number(word(line.skip("VmHWM:"@.len() as int), 0)), 1024),
    }
}

/// Read the peak memory off a status.
pub fn adjoining_peak_bytes(status: &str) -> (result: Result<u64, StatusError>)
    ensures
        result == adjoining_peak(status@),
{
    let name = "VmHWM:";
    match find_line(status, name) {
        None => Err(StatusError::FieldMissing),
        Some(line) => {
            proof {
                lemma_line_has_prefix(lines(status@), name@);
            }
            let rest = part(&line, name.unicode_len(), line.len());
            assert(rest@ =~= line@.skip(name@.len() as int));
            scale_up(read_word(&rest, 0), 1024)
        },
    }
}

/// The resident memory of a page table report: its second word, in pages of
/// 4096 bytes.
pub fn statm_rss_bytes(statm: &str) -> (result: Result<u64, StatusError>)
    ensures
        result == scaled(word_number(word(statm@, 1)), 4096),
{
    let chars = chars_of(statm);
    scale_up(read_word(&chars, 1), 4096)
}

/// The memory of one process at one time.
#[derive(Clone, Copy, Debug, PartialEq, Eq, Structural)]
pub struct ProcessMemory {
    /// Resident memory.
    pub rss_bytes: u64,
    /// Its peak so far.
    pub hwm_bytes: u64,
}

/// Read the memory of a process off its status. The first error is reported,
/// with the field that it belongs to.
pub fn process_memory(status: &str) -> (result: Result<
    ProcessMemory,
    (&'static str, StatusError),
>)
    ensures
        match result {
            Ok(memory) => {
                &&& required_status(status@, "VmRSS:"@) == Ok::<u64, StatusError>(memory.rss_bytes)
                &&& required_status(status@, "VmHWM:"@) == Ok::<u64, StatusError>(memory.hwm_bytes)
            },
            Err((field, error)) => {
                ||| field@ == "VmRSS:"@ && required_status(status@, "VmRSS:"@) == Err::<
                    u64,
                    StatusError,
                >(error)
                ||| field@ == "VmHWM:"@ && required_status(status@, "VmRSS:"@) is Ok
                    && required_status(status@, "VmHWM:"@) == Err::<u64, StatusError>(error)
            },
        },
{
    let rss_bytes: u64 = match required_status_bytes(status, "VmRSS:") {
        Ok(bytes) => bytes,
        Err(error) => return Err(("VmRSS:", error)),
    };
    let hwm_bytes: u64 = match required_status_bytes(status, "VmHWM:") {
        Ok(bytes) => bytes,
        Err(error) => return Err(("VmHWM:", error)),
    };
    Ok(ProcessMemory { rss_bytes, hwm_bytes })
}

/// A character of an address range: a hexadecimal digit or the dash.
pub open spec fn is_range_char(c: char) -> bool {
    c == '-' || is_hex_digit(c)
}

/// A hexadecimal digit of either case.
pub open spec fn is_hex_digit(c: char) -> bool {
    '0' <= c <= '9' || 'a' <= c <= 'f' || 'A' <= c <= 'F'
}

/// Whether a character is a hexadecimal digit.
pub fn hex_digit(c: char) -> (yes: bool)
    ensures
        yes == is_hex_digit(c),
{
    ('0' <= c && c <= '9') || ('a' <= c && c <= 'f') || ('A' <= c && c <= 'F')
}

/// Whether a line opens a mapping: its first word is an address range.
pub open spec fn smaps_header(line: Seq<char>) -> bool {
    match word(line, 0) {
        None => false,
        Some(range) => range.contains('-') && forall|i: int|
            0 <= i < range.len() ==> is_range_char(#[trigger] range[i]),
    }
}

fn opens_mapping(line: &Vec<char>) -> (yes: bool)
    ensures
        yes == smaps_header(line@),
{
    let range = match find_word(line, 0) {
        None => return false,
        Some(range) => range,
    };
    let mut dash = false;
    let mut i: usize = 0;
    while i < range.len()
        invariant
            i <= range.len(),
            word(line@, 0) == Some(range@),
            dash <==> exists|j: int| 0 <= j < i && range@[j] == '-',
            forall|j: int| 0 <= j < i ==> is_range_char(#[trigger] range@[j]),
        decreases range.len() - i,
    {
        let c: char = range[i];
        if c == '-' {
            assert(range@[i as int] == '-');
            dash = true;
        } else if !hex_digit(c) {
            assert(!is_range_char(range@[i as int]));
            return false;
        }
        i += 1;
    }
    dash
}

/// Whether a line opens a mapping.
pub fn is_smaps_header(line: &str) -> (yes: bool)
    ensures
        yes == smaps_header(line@),
{
    opens_mapping(&chars_of(line))
}

/// The value of a mapping field in bytes, where the line has the field.
pub open spec fn smaps_value(line: Seq<char>, field: Seq<char>) -> Option<u64> {
    if field.is_prefix_of(line) {
        match word(line.skip(field.len() as int), 0) {
            None => None,
            Some(value) => match number(value) {
                Ok(kib) => kib_bytes(Some(kib)),
                Err(_) => None,
            },
        }
    } else {
        None
    }
}

fn mapping_value(line: &Vec<char>, field: &str) -> (bytes: Option<u64>)
    ensures
        bytes == smaps_value(line@, field@),
{
    if !has_prefix(line, field) {
        return None;
    }
    let rest = part(line, field.unicode_len(), line.len());
    assert(rest@ =~= line@.skip(field@.len() as int));
    match find_word(&rest, 0) {
        None => None,
        Some(value) => match parse_number(&value) {
            Ok(kib) => kib.checked_mul(1024),
            Err(_) => None,
        },
    }
}

/// Read a mapping field in bytes. The line has to start with its exact name.
pub fn smaps_kib_value(line: &str, field: &str) -> (bytes: Option<u64>)
    ensures
        bytes == smaps_value(line@, field@),
{
    mapping_value(&chars_of(line), field)
}

/// What has been read off a mapping report so far.
#[derive(Clone, Copy, Debug, PartialEq, Eq, Structural)]
pub struct SmapsTotals {
    /// The current mapping is the heap.
    pub in_heap: bool,
    /// The current mapping is the database file.
    pub in_database: bool,
    /// Resident bytes of all mappings.
    pub total: u64,
    /// Anonymous bytes of all mappings.
    pub anonymous: u64,
    /// Resident bytes of the heap.
    pub heap: u64,
    /// Resident bytes of the database file.
    pub database: u64,
}

/// Nothing read yet.
pub open spec fn no_totals() -> SmapsTotals {
    SmapsTotals {
        in_heap: false,
        in_database: false,
        total: 0,
        anonymous: 0,
        heap: 0,
        database: 0,
    }
}

/// The path that a header line names.
pub open spec fn mapping_path(line: Seq<char>) -> Seq<char> {
    match word(line, 5) {
        Some(path) => path,
        None => ""@,
    }
}

/// The totals once one more line has been read.
pub open spec fn with_line(
    totals: SmapsTotals,
    line: Seq<char>,
    database: Seq<char>,
) -> SmapsTotals {
    if smaps_header(line) {
        SmapsTotals {
            in_heap: mapping_path(line) == "[heap]"@,
            in_database: mapping_path(line) == database,
            ..totals
        }
    } else {
        match smaps_value(line, "Rss:"@) {
            Some(bytes) => SmapsTotals {
                total: capped(totals.total + bytes),
                heap: if totals.in_heap {
                    capped(totals.heap + bytes)
                } else {
                    totals.heap
                },
                database: if totals.in_database {
                    capped(totals.database + bytes)
                } else {
                    totals.database
                },
                ..totals
            },
            None => match smaps_value(line, "Anonymous:"@) {
                Some(bytes) => SmapsTotals {
                    anonymous: capped(totals.anonymous + bytes),
                    ..totals
                },
                None => totals,
            },
        }
    }
}

/// The totals of the first `n` lines.
pub open spec fn totals_of(list: Seq<Seq<char>>, n: nat, database: Seq<char>) -> SmapsTotals
    decreases n,
{
    if n == 0 {
        no_totals()
    } else {
        with_line(totals_of(list, (n - 1) as nat, database), list[n - 1], database)
    }
}

/// The breakdown that the totals give.
pub open spec fn breakdown_of(totals: SmapsTotals) -> MemoryBreakdown {
    MemoryBreakdown {
        anonymous_rss_bytes: totals.anonymous,
        file_backed_rss_bytes: above(totals.total, totals.anonymous),
        heap_mapping_rss_bytes: totals.heap,
        database_mapped_rss_bytes: totals.database,
    }
}

fn same_chars(left: &Vec<char>, right: &Vec<char>) -> (same: bool)
    ensures
        same == (left@ == right@),
{
    if left.len() != right.len() {
        return false;
    }
    let mut i: usize = 0;
    while i < left.len()
        invariant
            i <= left.len() == right.len(),
            forall|j: int| 0 <= j < i ==> left@[j] == right@[j],
        decreases left.len() - i,
    {
        if left[i] != right[i] {
            assert(left@[i as int] != right@[i as int]);
            return false;
        }
        i += 1;
    }
    assert(left@ =~= right@);
    true
}

fn add_line(totals: SmapsTotals, line: &Vec<char>, database: &Vec<char>) -> (next: SmapsTotals)
    ensures
        next == with_line(totals, line@, database@),
{
    if opens_mapping(line) {
        let path = match find_word(line, 5) {
            Some(path) => path,
            None => chars_of(""),
        };
        return SmapsTotals {
            in_heap: same_chars(&path, &chars_of("[heap]")),
            in_database: same_chars(&path, database),
            ..totals
        };
    }
    if let Some(bytes) = mapping_value(line, "Rss:") {
        let heap: u64 = if totals.in_heap {
            totals.heap.saturating_add(bytes)
        } else {
            totals.heap
        };
        let database: u64 = if totals.in_database {
            totals.database.saturating_add(bytes)
        } else {
            totals.database
        };
        return SmapsTotals { total: totals.total.saturating_add(bytes), heap, database, ..totals };
    }
    if let Some(bytes) = mapping_value(line, "Anonymous:") {
        return SmapsTotals { anonymous: totals.anonymous.saturating_add(bytes), ..totals };
    }
    totals
}

/// Break resident memory down by owner. `database_path` is the path of the
/// database file as the report spells it.
pub fn memory_breakdown(smaps: &str, database_path: &str) -> (breakdown: MemoryBreakdown)
    ensures
        breakdown == breakdown_of(
            totals_of(lines(smaps@), lines(smaps@).len(), database_path@),
        ),
{
    let list = split_lines(&chars_of(smaps));
    let database = chars_of(database_path);
    let mut totals = SmapsTotals {
        in_heap: false,
        in_database: false,
        total: 0,
        anonymous: 0,
        heap: 0,
        database: 0,
    };
    let mut i: usize = 0;
    while i < list.len()
        invariant
            i <= list.len(),
            texts(list@) == lines(smaps@),
            database@ == database_path@,
            totals == totals_of(lines(smaps@), i as nat, database_path@),
        decreases list.len() - i,
    {
        assert(lines(smaps@)[i as int] == list@[i as int]@);
        totals = add_line(totals, &list[i], &database);
        i += 1;
    }
    assert(lines(smaps@).len() == list@.len());
    MemoryBreakdown {
        anonymous_rss_bytes: totals.anonymous,
        file_backed_rss_bytes: totals.total.saturating_sub(totals.anonymous),
        heap_mapping_rss_bytes: totals.heap,
        database_mapped_rss_bytes: totals.database,
    }
}

/// No owner of mappings is charged more than all mappings together hold.
pub proof fn law_owner_within_total(list: Seq<Seq<char>>, n: nat, database: Seq<char>)
    ensures
        totals_of(list, n, database).heap <= totals_of(list, n, database).total,
        totals_of(list, n, database).database <= totals_of(list, n, database).total,
    decreases n,
{
    if n > 0 {
        law_owner_within_total(list, (n - 1) as nat, database);
    }
}

} // verus!
