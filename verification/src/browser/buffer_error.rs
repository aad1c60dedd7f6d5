//! Errors of the page buffer and their texts.

use crate::storage::{StorageError, FORMAT_VERSION, PAGE_SIZE};
use crate::text::{decimal, push_decimal};
use vstd::prelude::*;
use vstd::string::*;

verus! {

/// A page inside a sparse buffer's declared image has not been staged yet.
///
/// Callers fetch the named page, stage it as clean and retry the read.
#[derive(Clone, Copy, Debug, PartialEq, Eq, Structural)]
pub struct PageNotResident(pub u64);

impl PageNotResident {
    /// Return the logical page id that must be fetched.
    pub fn page_id(self) -> (id: u64)
        ensures
            id == self.0,
    {
        self.0
    }
}

/// Why a buffer operation was refused.
#[derive(Clone, Copy, Debug, PartialEq, Eq, Structural)]
pub enum BufferError {
    /// A sparse image declared no pages at all.
    EmptySparseImage,
    /// A page is not exactly one page long.
    InvalidPageLength { page_id: u64, len: usize },
    /// A resident page lies outside the declared image.
    ResidentOutsideDeclared { page_id: u64, declared: u64 },
    /// A page to be pinned by a constructor is not resident.
    PinnedNotResident { page_id: u64 },
    /// A sparse image has no page 0.
    MissingPageZero,
    /// A non-empty buffer has no page 0.
    PageZeroNotFound,
    /// Page 0 does not hold a usable header.
    Header(StorageError),
    /// The image's format cannot be opened page by page.
    UnsupportedSparseVersion { version: u32 },
    /// Page 0 and the loader disagree on the page count.
    PageCountMismatch { published: u64, declared: u64 },
    /// A staged page lies outside the logical image.
    StagedOutsideLogical { page_id: u64, logical: u64 },
    /// Clean bytes would overwrite an unflushed local page.
    OverDirtyPage { page_id: u64 },
    /// A staged batch names a page twice.
    DuplicateStagedPage { page_id: u64 },
    /// A pin lies outside the logical image.
    PinOutsideLogical { page_id: u64, logical: u64 },
    /// A pin names a page that is not resident.
    PinNotResident { page_id: u64 },
    /// A pin lies outside the published image.
    PinOutsideDeclared { page_id: u64, declared: u64 },
    /// Unflushed pages stand in the way of sparse residency.
    DirtyCandidate,
    /// The buffer and page 0 disagree on the page count.
    CandidateCountMismatch { logical: u64, published: u64 },
    /// Page 0 publishes no pages.
    ZeroPageCount,
    /// Pages of the published prefix are missing.
    Truncated { expected: u64, found: u64 },
    /// Written data is not exactly one page long.
    InvalidPageSize { len: usize },
    /// The page id has no successor.
    PageIdOverflow,
    /// The page has to be staged first.
    NotResident(PageNotResident),
    /// There is no such page.
    PageNotFound { page_id: u64 },
}

/// Return the missing page id when `error` came from a sparse buffer read.
pub fn page_not_resident_id(error: &BufferError) -> (id: Option<u64>)
    ensures
        id == match *error {
            BufferError::NotResident(missing) => Some(missing.0),
            _ => None,
        },
{
    match error {
        BufferError::NotResident(missing) => Some(missing.page_id()),
        _ => None,
    }
}

fn push_all(out: &mut String, before: &str, number: u64, after: &str)
    ensures
        final(out)@ == old(out)@ + before@ + decimal(number as nat) + after@,
{
    out.append(before);
    push_decimal(out, number);
    out.append(after);
}


impl BufferError {
    /// The text reported for this error.
    pub open spec fn text(self) -> Seq<char> {
        match self {
            BufferError::EmptySparseImage => "Sparse browser image must declare at least page 0"@,
            BufferError::InvalidPageLength { page_id, len } => "Page "@ + decimal(page_id as nat)
                + " has invalid length "@ + decimal(len as nat) + " (expected "@ + decimal(
                PAGE_SIZE as nat,
            ) + ")"@,
            BufferError::ResidentOutsideDeclared { page_id, declared } => "Resident page "@
                + decimal(page_id as nat) + " is outside declared page count "@ + decimal(
                declared as nat,
            ),
            BufferError::PinnedNotResident { page_id } => "Pinned page "@ + decimal(page_id as nat)
                + " is not resident"@,
            BufferError::MissingPageZero => "Sparse browser image is missing page 0"@,
            BufferError::PageZeroNotFound => "Page 0 not found"@,
            BufferError::Header(error) => error.text(),
            BufferError::UnsupportedSparseVersion { version } =>
                "Sparse browser paging requires format v"@ + decimal(FORMAT_VERSION as nat)
                + ", found v"@ + decimal(version as nat),
            BufferError::PageCountMismatch { published, declared } =>
                "Sparse browser page count mismatch: page 0 publishes "@ + decimal(published as nat)
                + ", loader declared "@ + decimal(declared as nat),
            BufferError::StagedOutsideLogical { page_id, logical } => "Staged page "@ + decimal(
                page_id as nat,
            ) + " is outside logical page count "@ + decimal(logical as nat),
            BufferError::OverDirtyPage { page_id } => "Cannot stage clean bytes over dirty page "@
                + decimal(page_id as nat),
            BufferError::DuplicateStagedPage { page_id } =>
                "Sparse page batch contains duplicate page "@ + decimal(page_id as nat),
            BufferError::PinOutsideLogical { page_id, logical } => "Cannot pin page "@ + decimal(
                page_id as nat,
            ) + " outside logical page count "@ + decimal(logical as nat),
            BufferError::PinNotResident { page_id } => "Cannot pin non-resident page "@ + decimal(
                page_id as nat,
            ),
            BufferError::PinOutsideDeclared { page_id, declared } => "Cannot pin page "@ + decimal(
                page_id as nat,
            ) + " outside declared page count "@ + decimal(declared as nat),
            BufferError::DirtyCandidate => "Cannot configure sparse residency with dirty pages"@,
            BufferError::CandidateCountMismatch { logical, published } =>
                "Sparse candidate page count mismatch: backend has "@ + decimal(logical as nat)
                + ", page 0 publishes "@ + decimal(published as nat),
            BufferError::ZeroPageCount => "Invalid header: published page_count is zero"@,
            BufferError::Truncated { expected, found } =>
                "Published database is truncated: expected "@ + decimal(expected as nat)
                + " prefix pages, found "@ + decimal(found as nat),
            BufferError::InvalidPageSize { len } => "Invalid page size: "@ + decimal(len as nat)
                + " bytes (expected "@ + decimal(PAGE_SIZE as nat) + ")"@,
            BufferError::PageIdOverflow => "Page id overflow"@,
            BufferError::NotResident(missing) => "Page "@ + decimal(missing.0 as nat)
                + " is not resident"@,
            BufferError::PageNotFound { page_id } => "Page "@ + decimal(page_id as nat)
                + " not found"@,
        }
    }

    /// Render this error for a caller.
    pub fn message(&self) -> (text: String)
        ensures
            text@ == self.text(),
    {
        if let BufferError::Header(error) = self {
            return error.message();
        }
        let mut out = String::new();
        proof {
            reveal_strlit("");
        }
        match self {
            BufferError::EmptySparseImage => out.append(
                "Sparse browser image must declare at least page 0",
            ),
            BufferError::InvalidPageLength { page_id, len } => {
                push_all(&mut out, "Page ", *page_id, " has invalid length ");
                push_all(&mut out, "", *len as u64, " (expected ");
                push_all(&mut out, "", PAGE_SIZE as u64, ")");
            },
            BufferError::ResidentOutsideDeclared { page_id, declared } => {
                push_all(&mut out, "Resident page ", *page_id, " is outside declared page count ");
                push_decimal(&mut out, *declared);
            },
            BufferError::PinnedNotResident { page_id } => push_all(
                &mut out,
                "Pinned page ",
                *page_id,
                " is not resident",
            ),
            BufferError::MissingPageZero => out.append("Sparse browser image is missing page 0"),
            BufferError::PageZeroNotFound => out.append("Page 0 not found"),
            BufferError::Header(_) => {},
            BufferError::UnsupportedSparseVersion { version } => {
                push_all(
                    &mut out,
                    "Sparse browser paging requires format v",
                    FORMAT_VERSION as u64,
                    ", found v",
                );
                push_decimal(&mut out, *version as u64);
            },
            BufferError::PageCountMismatch { published, declared } => {
                push_all(
                    &mut out,
                    "Sparse browser page count mismatch: page 0 publishes ",
                    *published,
                    ", loader declared ",
                );
                push_decimal(&mut out, *declared);
            },
            BufferError::StagedOutsideLogical { page_id, logical } => {
                push_all(&mut out, "Staged page ", *page_id, " is outside logical page count ");
                push_decimal(&mut out, *logical);
            },
            BufferError::OverDirtyPage { page_id } => {
                out.append("Cannot stage clean bytes over dirty page ");
                push_decimal(&mut out, *page_id);
            },
            BufferError::DuplicateStagedPage { page_id } => {
                out.append("Sparse page batch contains duplicate page ");
                push_decimal(&mut out, *page_id);
            },
            BufferError::PinOutsideLogical { page_id, logical } => {
                push_all(&mut out, "Cannot pin page ", *page_id, " outside logical page count ");
                push_decimal(&mut out, *logical);
            },
            BufferError::PinNotResident { page_id } => {
                out.append("Cannot pin non-resident page ");
                push_decimal(&mut out, *page_id);
            },
            BufferError::PinOutsideDeclared { page_id, declared } => {
                push_all(&mut out, "Cannot pin page ", *page_id, " outside declared page count ");
                push_decimal(&mut out, *declared);
            },
            BufferError::DirtyCandidate => out.append(
                "Cannot configure sparse residency with dirty pages",
            ),
            BufferError::CandidateCountMismatch { logical, published } => {
                push_all(
                    &mut out,
                    "Sparse candidate page count mismatch: backend has ",
                    *logical,
                    ", page 0 publishes ",
                );
                push_decimal(&mut out, *published);
            },
            BufferError::ZeroPageCount => out.append(
                "Invalid header: published page_count is zero",
            ),
            BufferError::Truncated { expected, found } => {
                push_all(
                    &mut out,
                    "Published database is truncated: expected ",
                    *expected,
                    " prefix pages, found ",
                );
                push_decimal(&mut out, *found);
            },
            BufferError::InvalidPageSize { len } => {
                push_all(&mut out, "Invalid page size: ", *len as u64, " bytes (expected ");
                push_all(&mut out, "", PAGE_SIZE as u64, ")");
            },
            BufferError::PageIdOverflow => out.append("Page id overflow"),
            BufferError::NotResident(missing) => push_all(
                &mut out,
                "Page ",
                missing.page_id(),
                " is not resident",
            ),
            BufferError::PageNotFound { page_id } => push_all(
                &mut out,
                "Page ",
                *page_id,
                " not found",
            ),
        }
        assert(out@ =~= self.text());
        out
    }
}

} // verus!
