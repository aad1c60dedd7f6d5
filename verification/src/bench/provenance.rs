//! Where a measurement comes from: source commit, digest, host, fixture format.

use crate::bench::process_memory::{hex_digit, is_hex_digit};
use crate::bench::scan::{
    chars_of, find_line, find_word, line_with, lines, part, text_of, trim, trimmed, word,
};
use crate::storage::little_endian;
use vstd::prelude::*;
use vstd::string::*;

verus! {

/// How a program treats a command that ended without success.
#[derive(Clone, Copy, Debug, PartialEq, Eq, Structural)]
pub enum FailureRule {
    /// It fails, and reports the exit status.
    ReportStatus,
    /// It fails, and reports what the command printed as its errors.
    ReportErrors,
    /// It fails, and reports the command alone.
    ReportCommand,
    /// It goes on with what the command printed.
    Ignore,
}

/// What a command left behind when it ended.
#[derive(Debug, PartialEq, Eq)]
pub struct CommandOutcome {
    /// Whether it ended with success.
    pub success: bool,
    /// Its exit status in words.
    pub status: String,
    /// What it printed, or why that is no text.
    pub stdout: Result<String, String>,
    /// What it printed as its errors.
    pub stderr: String,
}

/// The text reported for a command that ended without success.
pub open spec fn failure_text(rule: FailureRule, program: Seq<char>, outcome: CommandOutcome) -> Seq<
    char,
> {
    match rule {
        FailureRule::ReportStatus => program + " failed with "@ + outcome.status@,
        FailureRule::ReportErrors => program + " failed: "@ + trimmed(outcome.stderr@),
        FailureRule::ReportCommand => program + " command failed"@,
        FailureRule::Ignore => Seq::empty(),
    }
}

fn failure_message(rule: FailureRule, program: &str, outcome: &CommandOutcome) -> (text: String)
    ensures
        text@ == failure_text(rule, program@, *outcome),
{
    let mut out = String::new();
    match rule {
        FailureRule::ReportStatus => {
            out.append(program);
            out.append(" failed with ");
            out.append(outcome.status.as_str());
        },
        FailureRule::ReportErrors => {
            out.append(program);
            out.append(" failed: ");
            out.append(text_of(&trim(&chars_of(outcome.stderr.as_str()))).as_str());
        },
        FailureRule::ReportCommand => {
            out.append(program);
            out.append(" command failed");
        },
        FailureRule::Ignore => {},
    }
    assert(out@ =~= failure_text(rule, program@, *outcome));
    out
}

/// Take the text off a command that has ended: what it printed, without the
/// spaces at its ends. A command that ended without success gives no text
/// unless the rule ignores that.
pub fn command_text(rule: FailureRule, program: &str, outcome: &CommandOutcome) -> (result: Result<
    String,
    String,
>)
    ensures
        match result {
            Ok(text) => {
                &&& outcome.success || rule == FailureRule::Ignore
                &&& outcome.stdout matches Ok(stdout) && text@ == trimmed(stdout@)
            },
            Err(reason) => if !outcome.success && rule != FailureRule::Ignore {
                reason@ == failure_text(rule, program@, *outcome)
            } else {
                outcome.stdout matches Err(fault) && reason@ == fault@
            },
        },
{
    if !outcome.success && rule != FailureRule::Ignore {
        return Err(failure_message(rule, program, outcome));
    }
    match &outcome.stdout {
        Ok(stdout) => Ok(text_of(&trim(&chars_of(stdout.as_str())))),
        Err(fault) => Err(fault.clone()),
    }
}

/// Which child of a program is reported.
#[derive(Clone, Copy, Debug, PartialEq, Eq, Structural)]
pub enum ChildKind {
    /// A child that measures.
    Measurement,
    /// A child of the isolation program.
    Benchmark,
    /// Any other child.
    Plain,
}

/// The text reported for a child that ended without success, given what it
/// printed as its errors.
pub open spec fn child_failure_text(kind: ChildKind, stderr: Seq<char>) -> Seq<char> {
    match kind {
        ChildKind::Measurement => "measurement child failed: "@ + trimmed(stderr),
        ChildKind::Benchmark => "benchmark child failed: "@ + trimmed(stderr),
        ChildKind::Plain => "child failed: "@ + stderr,
    }
}

/// Report a child that ended without success.
pub fn child_failure(kind: ChildKind, stderr: &str) -> (text: String)
    ensures
        text@ == child_failure_text(kind, stderr@),
{
    let mut out = String::new();
    match kind {
        ChildKind::Measurement => {
            out.append("measurement child failed: ");
            out.append(text_of(&trim(&chars_of(stderr))).as_str());
        },
        ChildKind::Benchmark => {
            out.append("benchmark child failed: ");
            out.append(text_of(&trim(&chars_of(stderr))).as_str());
        },
        ChildKind::Plain => {
            out.append("child failed: ");
            out.append(stderr);
        },
    }
    assert(out@ =~= child_failure_text(kind, stderr@));
    out
}

/// Whether a status listing shows no changes.
pub fn tracked_clean(status_output: &str) -> (clean: bool)
    ensures
        clean == (trimmed(status_output@).len() == 0),
{
    trim(&chars_of(status_output)).len() == 0
}

/// A text that is no commit id.
#[derive(Clone, Copy, Debug, PartialEq, Eq, Structural)]
pub struct InvalidCommit;

impl InvalidCommit {
    /// Render this error for a caller.
    pub fn message(&self) -> (text: &'static str)
        ensures
            text@ == "git rev-parse returned an invalid commit id"@,
    {
        "git rev-parse returned an invalid commit id"
    }
}

/// A full commit id: forty hexadecimal digits.
pub open spec fn is_commit_id(text: Seq<char>) -> bool {
    text.len() == 40 && forall|i: int| 0 <= i < text.len() ==> is_hex_digit(#[trigger] text[i])
}

/// Take the full commit id off the output of a command.
pub fn git_source_commit(stdout: &str) -> (result: Result<String, InvalidCommit>)
    ensures
        match result {
            Ok(commit) => commit@ == trimmed(stdout@) && is_commit_id(commit@),
            Err(_) => !is_commit_id(trimmed(stdout@)),
        },
{
    let commit = trim(&chars_of(stdout));
    if commit.len() != 40 {
        return Err(InvalidCommit);
    }
    let mut i: usize = 0;
    while i < commit.len()
        invariant
            i <= commit.len(),
            commit@ == trimmed(stdout@),
            forall|j: int| 0 <= j < i ==> is_hex_digit(#[trigger] commit@[j]),
        decreases commit.len() - i,
    {
        if !hex_digit(commit[i]) {
            assert(!is_hex_digit(commit@[i as int]));
            return Err(InvalidCommit);
        }
        i += 1;
    }
    Ok(text_of(&commit))
}

/// The digest that a checksum command printed: its first word.
pub fn sha256_digest(stdout: &str) -> (digest: Option<String>)
    ensures
        match digest {
            Some(digest) => word(stdout@, 0) == Some(digest@),
            None => word(stdout@, 0) is None,
        },
{
    match find_word(&chars_of(stdout), 0) {
        Some(digest) => Some(text_of(&digest)),
        None => None,
    }
}

/// The processor model that a processor listing names: what follows the name
/// of the field on the first line that has it.
pub fn cpu_model(cpuinfo: &str) -> (model: Option<String>)
    ensures
        match model {
            Some(model) => line_with(lines(cpuinfo@), "model name\t: "@) is Some && model@
                == line_with(lines(cpuinfo@), "model name\t: "@)->0.skip(
                "model name\t: "@.len() as int,
            ),
            None => line_with(lines(cpuinfo@), "model name\t: "@) is None,
        },
{
    let name = "model name\t: ";
    match find_line(cpuinfo, name) {
        None => None,
        Some(line) => {
            proof {
                crate::bench::scan::lemma_line_has_prefix(lines(cpuinfo@), name@);
            }
            let rest = part(&line, name.unicode_len(), line.len());
            assert(rest@ =~= line@.skip(name@.len() as int));
            Some(text_of(&rest))
        },
    }
}

/// The format version that a graph file starts with.
pub fn fixture_format_version(start: &[u8; 8]) -> (version: u32)
    ensures
        version == little_endian(start@, 4, 4),
{
    proof {
        reveal_with_fuel(little_endian, 5);
    }
    let b3: u32 = start[7] as u32;
    let b2: u32 = start[6] as u32;
    let b1: u32 = start[5] as u32;
    let b0: u32 = start[4] as u32;
    b0 + 256 * (b1 + 256 * (b2 + 256 * b3))
}

} // verus!
