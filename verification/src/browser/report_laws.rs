//! What reports name: every figure and every reason that they are about, in the
//! order in which they are told.

use crate::browser::buffer_error::BufferError;
use crate::browser::db::{restore_failure_text, DirtyPageError, ReadViewError};
use crate::browser::image::{ExportError, ImportError, VerifiedExportError};
use crate::browser::indexeddb::IdbError;
use crate::browser::open::refusal_text;
use crate::browser::paging::WindowError;
use crate::browser::projection_rebuild::RebuildError;
use crate::browser::read_loop::{read_name, CurrentReadError, CurrentReadKind};
use crate::browser::read_view::ReadError;
use crate::browser::write::AtomicWriteError;
use crate::storage::StorageError;
use crate::text::{decimal, shows, shows_before, stands_at};
use vstd::prelude::*;

verus! {

/// A refused header is reported with its length or its version.
pub proof fn law_header_report_names_its_figure(error: StorageError)
    ensures
        error matches StorageError::HeaderTooShort { len } ==>
            shows(error.text(), decimal(len as nat)),
        error matches StorageError::UnsupportedVersion { version } ==>
            shows(error.text(), decimal(version as nat)),
{
    let text = error.text();
    match error {
        StorageError::HeaderTooShort { len } => {
            let at: int = ("Header is too short: "@.len()) as int;
            assert(text.subrange(at, at + decimal(len as nat).len()) =~= decimal(len as nat));
            assert(stands_at(text, at, decimal(len as nat)));
        },
        StorageError::UnsupportedVersion { version } => {
            let at: int = ("Unsupported format version: "@.len()) as int;
            assert(text.subrange(at, at + decimal(version as nat).len())
                =~= decimal(version as nat));
            assert(stands_at(text, at, decimal(version as nat)));
        },
        _ => {},
    }
}

/// A report of the page buffer names the page that it is about, and the figures
/// that do not fit, in their order.
pub proof fn law_buffer_report_names_its_pages(error: BufferError)
    ensures
        error matches BufferError::InvalidPageLength { page_id, len } ==>
            shows_before(error.text(), decimal(page_id as nat), decimal(len as nat))
                && shows_before(error.text(), decimal(len as nat), decimal(4096)),
        error matches BufferError::ResidentOutsideDeclared { page_id, declared } ==>
            shows_before(error.text(), decimal(page_id as nat), decimal(declared as nat)),
        error matches BufferError::PinnedNotResident { page_id } ==>
            shows(error.text(), decimal(page_id as nat)),
        error matches BufferError::UnsupportedSparseVersion { version } ==>
            shows_before(error.text(), decimal(12), decimal(version as nat)),
        error matches BufferError::PageCountMismatch { published, declared } ==>
            shows_before(error.text(), decimal(published as nat), decimal(declared as nat)),
        error matches BufferError::StagedOutsideLogical { page_id, logical } ==>
            shows_before(error.text(), decimal(page_id as nat), decimal(logical as nat)),
        error matches BufferError::OverDirtyPage { page_id } ==>
            shows(error.text(), decimal(page_id as nat)),
        error matches BufferError::DuplicateStagedPage { page_id } ==>
            shows(error.text(), decimal(page_id as nat)),
        error matches BufferError::PinOutsideLogical { page_id, logical } ==>
            shows_before(error.text(), decimal(page_id as nat), decimal(logical as nat)),
        error matches BufferError::PinNotResident { page_id } ==>
            shows(error.text(), decimal(page_id as nat)),
        error matches BufferError::PinOutsideDeclared { page_id, declared } ==>
            shows_before(error.text(), decimal(page_id as nat), decimal(declared as nat)),
        error matches BufferError::CandidateCountMismatch { logical, published } ==>
            shows_before(error.text(), decimal(logical as nat), decimal(published as nat)),
        error matches BufferError::Truncated { expected, found } ==>
            shows_before(error.text(), decimal(expected as nat), decimal(found as nat)),
        error matches BufferError::InvalidPageSize { len } ==>
            shows_before(error.text(), decimal(len as nat), decimal(4096)),
        error matches BufferError::NotResident(missing) ==>
            shows(error.text(), decimal(missing.0 as nat)),
        error matches BufferError::PageNotFound { page_id } ==>
            shows(error.text(), decimal(page_id as nat)),
        error matches BufferError::Header(inner) ==> shows(error.text(), inner.text()),
{
    let text = error.text();
    match error {
        BufferError::InvalidPageLength { page_id, len } => {
            let at: int = ("Page "@.len()) as int;
            assert(text.subrange(at, at + decimal(page_id as nat).len())
                =~= decimal(page_id as nat));
            assert(stands_at(text, at, decimal(page_id as nat)));
            let at: int = ("Page "@.len() + decimal(page_id as nat).len()
                + " has invalid length "@.len()) as int;
            assert(text.subrange(at, at + decimal(len as nat).len()) =~= decimal(len as nat));
            assert(stands_at(text, at, decimal(len as nat)));
            let at: int = ("Page "@.len() + decimal(page_id as nat).len()
                + " has invalid length "@.len() + decimal(len as nat).len()
                + " (expected "@.len()) as int;
            assert(text.subrange(at, at + decimal(4096).len()) =~= decimal(4096));
            assert(stands_at(text, at, decimal(4096)));
        },
        BufferError::ResidentOutsideDeclared { page_id, declared } => {
            let at: int = ("Resident page "@.len()) as int;
            assert(text.subrange(at, at + decimal(page_id as nat).len())
                =~= decimal(page_id as nat));
            assert(stands_at(text, at, decimal(page_id as nat)));
            let at: int = ("Resident page "@.len() + decimal(page_id as nat).len()
                + " is outside declared page count "@.len()) as int;
            assert(text.subrange(at, at + decimal(declared as nat).len())
                =~= decimal(declared as nat));
            assert(stands_at(text, at, decimal(declared as nat)));
        },
        BufferError::PinnedNotResident { page_id } => {
            let at: int = ("Pinned page "@.len()) as int;
            assert(text.subrange(at, at + decimal(page_id as nat).len())
                =~= decimal(page_id as nat));
            assert(stands_at(text, at, decimal(page_id as nat)));
        },
        BufferError::UnsupportedSparseVersion { version } => {
            let at: int = ("Sparse browser paging requires format v"@.len()) as int;
            assert(text.subrange(at, at + decimal(12).len()) =~= decimal(12));
            assert(stands_at(text, at, decimal(12)));
            let at: int = ("Sparse browser paging requires format v"@.len() + decimal(12).len()
                + ", found v"@.len()) as int;
            assert(text.subrange(at, at + decimal(version as nat).len())
                =~= decimal(version as nat));
            assert(stands_at(text, at, decimal(version as nat)));
        },
        BufferError::PageCountMismatch { published, declared } => {
            let at: int = ("Sparse browser page count mismatch: page 0 publishes "@.len()) as int;
            assert(text.subrange(at, at + decimal(published as nat).len())
                =~= decimal(published as nat));
            assert(stands_at(text, at, decimal(published as nat)));
            let at: int = ("Sparse browser page count mismatch: page 0 publishes "@.len()
                + decimal(published as nat).len() + ", loader declared "@.len()) as int;
            assert(text.subrange(at, at + decimal(declared as nat).len())
                =~= decimal(declared as nat));
            assert(stands_at(text, at, decimal(declared as nat)));
        },
        BufferError::StagedOutsideLogical { page_id, logical } => {
            let at: int = ("Staged page "@.len()) as int;
            assert(text.subrange(at, at + decimal(page_id as nat).len())
                =~= decimal(page_id as nat));
            assert(stands_at(text, at, decimal(page_id as nat)));
            let at: int = ("Staged page "@.len() + decimal(page_id as nat).len()
                + " is outside logical page count "@.len()) as int;
            assert(text.subrange(at, at + decimal(logical as nat).len())
                =~= decimal(logical as nat));
            assert(stands_at(text, at, decimal(logical as nat)));
        },
        BufferError::OverDirtyPage { page_id } => {
            let at: int = ("Cannot stage clean bytes over dirty page "@.len()) as int;
            assert(text.subrange(at, at + decimal(page_id as nat).len())
                =~= decimal(page_id as nat));
            assert(stands_at(text, at, decimal(page_id as nat)));
        },
        BufferError::DuplicateStagedPage { page_id } => {
            let at: int = ("Sparse page batch contains duplicate page "@.len()) as int;
            assert(text.subrange(at, at + decimal(page_id as nat).len())
                =~= decimal(page_id as nat));
            assert(stands_at(text, at, decimal(page_id as nat)));
        },
        BufferError::PinOutsideLogical { page_id, logical } => {
            let at: int = ("Cannot pin page "@.len()) as int;
            assert(text.subrange(at, at + decimal(page_id as nat).len())
                =~= decimal(page_id as nat));
            assert(stands_at(text, at, decimal(page_id as nat)));
            let at: int = ("Cannot pin page "@.len() + decimal(page_id as nat).len()
                + " outside logical page count "@.len()) as int;
            assert(text.subrange(at, at + decimal(logical as nat).len())
                =~= decimal(logical as nat));
            assert(stands_at(text, at, decimal(logical as nat)));
        },
        BufferError::PinNotResident { page_id } => {
            let at: int = ("Cannot pin non-resident page "@.len()) as int;
            assert(text.subrange(at, at + decimal(page_id as nat).len())
                =~= decimal(page_id as nat));
            assert(stands_at(text, at, decimal(page_id as nat)));
        },
        BufferError::PinOutsideDeclared { page_id, declared } => {
            let at: int = ("Cannot pin page "@.len()) as int;
            assert(text.subrange(at, at + decimal(page_id as nat).len())
                =~= decimal(page_id as nat));
            assert(stands_at(text, at, decimal(page_id as nat)));
            let at: int = ("Cannot pin page "@.len() + decimal(page_id as nat).len()
                + " outside declared page count "@.len()) as int;
            assert(text.subrange(at, at + decimal(declared as nat).len())
                =~= decimal(declared as nat));
            assert(stands_at(text, at, decimal(declared as nat)));
        },
        BufferError::CandidateCountMismatch { logical, published } => {
            let at: int = ("Sparse candidate page count mismatch: backend has "@.len()) as int;
            assert(text.subrange(at, at + decimal(logical as nat).len())
                =~= decimal(logical as nat));
            assert(stands_at(text, at, decimal(logical as nat)));
            let at: int = ("Sparse candidate page count mismatch: backend has "@.len()
                + decimal(logical as nat).len() + ", page 0 publishes "@.len()) as int;
            assert(text.subrange(at, at + decimal(published as nat).len())
                =~= decimal(published as nat));
            assert(stands_at(text, at, decimal(published as nat)));
        },
        BufferError::Truncated { expected, found } => {
            let at: int = ("Published database is truncated: expected "@.len()) as int;
            assert(text.subrange(at, at + decimal(expected as nat).len())
                =~= decimal(expected as nat));
            assert(stands_at(text, at, decimal(expected as nat)));
            let at: int = ("Published database is truncated: expected "@.len()
                + decimal(expected as nat).len() + " prefix pages, found "@.len()) as int;
            assert(text.subrange(at, at + decimal(found as nat).len()) =~= decimal(found as nat));
            assert(stands_at(text, at, decimal(found as nat)));
        },
        BufferError::InvalidPageSize { len } => {
            let at: int = ("Invalid page size: "@.len()) as int;
            assert(text.subrange(at, at + decimal(len as nat).len()) =~= decimal(len as nat));
            assert(stands_at(text, at, decimal(len as nat)));
            let at: int = ("Invalid page size: "@.len() + decimal(len as nat).len()
                + " bytes (expected "@.len()) as int;
            assert(text.subrange(at, at + decimal(4096).len()) =~= decimal(4096));
            assert(stands_at(text, at, decimal(4096)));
        },
        BufferError::NotResident(missing) => {
            let at: int = ("Page "@.len()) as int;
            assert(text.subrange(at, at + decimal(missing.0 as nat).len())
                =~= decimal(missing.0 as nat));
            assert(stands_at(text, at, decimal(missing.0 as nat)));
        },
        BufferError::PageNotFound { page_id } => {
            let at: int = ("Page "@.len()) as int;
            assert(text.subrange(at, at + decimal(page_id as nat).len())
                =~= decimal(page_id as nat));
            assert(stands_at(text, at, decimal(page_id as nat)));
        },
        BufferError::Header(inner) => {
            let at: int = 0;
            assert(text.subrange(at, at + inner.text().len()) =~= inner.text());
            assert(stands_at(text, at, inner.text()));
        },
        _ => {},
    }
}

/// A report of the page store names the page or the range that it is about, and
/// the figures that do not fit, in their order.
pub proof fn law_store_report_names_its_pages(error: IdbError)
    ensures
        error matches IdbError::UnsafePageId { page_id } ==>
            shows(error.text(), decimal(page_id as nat)),
        error matches IdbError::InvalidKey { position } ==>
            shows(error.text(), decimal(position as nat)),
        error matches IdbError::NotContiguous { expected, found } ==>
            shows_before(error.text(), decimal(expected as nat), decimal(found as nat)),
        error matches IdbError::NotBytes { page_id } ==>
            shows(error.text(), decimal(page_id as nat)),
        error matches IdbError::InvalidLength { page_id, len } ==>
            shows_before(error.text(), decimal(page_id as nat), decimal(len as nat))
                && shows_before(error.text(), decimal(len as nat), decimal(4096)),
        error matches IdbError::PublicationPageZeroLength { len } ==>
            shows_before(error.text(), decimal(len as nat), decimal(4096)),
        error matches IdbError::MissingPage { page_id } ==>
            shows(error.text(), decimal(page_id as nat)),
        error matches IdbError::CorruptRange { start_page, page_count } ==>
            shows_before(error.text(), decimal(start_page as nat), decimal(page_count as nat)),
{
    let text = error.text();
    match error {
        IdbError::UnsafePageId { page_id } => {
            let at: int = ("IndexedDB page id "@.len()) as int;
            assert(text.subrange(at, at + decimal(page_id as nat).len())
                =~= decimal(page_id as nat));
            assert(stands_at(text, at, decimal(page_id as nat)));
        },
        IdbError::InvalidKey { position } => {
            let at: int = ("IndexedDB page key at position "@.len()) as int;
            assert(text.subrange(at, at + decimal(position as nat).len())
                =~= decimal(position as nat));
            assert(stands_at(text, at, decimal(position as nat)));
        },
        IdbError::NotContiguous { expected, found } => {
            let at: int = ("IndexedDB page range is not contiguous: expected page "@.len()) as int;
            assert(text.subrange(at, at + decimal(expected as nat).len())
                =~= decimal(expected as nat));
            assert(stands_at(text, at, decimal(expected as nat)));
            let at: int = ("IndexedDB page range is not contiguous: expected page "@.len()
                + decimal(expected as nat).len() + ", found page "@.len()) as int;
            assert(text.subrange(at, at + decimal(found as nat).len()) =~= decimal(found as nat));
            assert(stands_at(text, at, decimal(found as nat)));
        },
        IdbError::NotBytes { page_id } => {
            let at: int = ("IndexedDB page "@.len()) as int;
            assert(text.subrange(at, at + decimal(page_id as nat).len())
                =~= decimal(page_id as nat));
            assert(stands_at(text, at, decimal(page_id as nat)));
        },
        IdbError::InvalidLength { page_id, len } => {
            let at: int = ("IndexedDB page "@.len()) as int;
            assert(text.subrange(at, at + decimal(page_id as nat).len())
                =~= decimal(page_id as nat));
            assert(stands_at(text, at, decimal(page_id as nat)));
            let at: int = ("IndexedDB page "@.len() + decimal(page_id as nat).len()
                + " has invalid length "@.len()) as int;
            assert(text.subrange(at, at + decimal(len as nat).len()) =~= decimal(len as nat));
            assert(stands_at(text, at, decimal(len as nat)));
            let at: int = ("IndexedDB page "@.len() + decimal(page_id as nat).len()
                + " has invalid length "@.len() + decimal(len as nat).len()
                + " (expected "@.len()) as int;
            assert(text.subrange(at, at + decimal(4096).len()) =~= decimal(4096));
            assert(stands_at(text, at, decimal(4096)));
        },
        IdbError::PublicationPageZeroLength { len } => {
            let at: int = ("IndexedDB publication page 0 has invalid length "@.len()) as int;
            assert(text.subrange(at, at + decimal(len as nat).len()) =~= decimal(len as nat));
            assert(stands_at(text, at, decimal(len as nat)));
            let at: int = ("IndexedDB publication page 0 has invalid length "@.len()
                + decimal(len as nat).len() + " (expected "@.len()) as int;
            assert(text.subrange(at, at + decimal(4096).len()) =~= decimal(4096));
            assert(stands_at(text, at, decimal(4096)));
        },
        IdbError::MissingPage { page_id } => {
            let at: int = ("IndexedDB page "@.len()) as int;
            assert(text.subrange(at, at + decimal(page_id as nat).len())
                =~= decimal(page_id as nat));
            assert(stands_at(text, at, decimal(page_id as nat)));
        },
        IdbError::CorruptRange { start_page, page_count } => {
            let at: int = ("IndexedDB page range starting at "@.len()) as int;
            assert(text.subrange(at, at + decimal(start_page as nat).len())
                =~= decimal(start_page as nat));
            assert(stands_at(text, at, decimal(start_page as nat)));
            let at: int = ("IndexedDB page range starting at "@.len()
                + decimal(start_page as nat).len() + " with "@.len()) as int;
            assert(text.subrange(at, at + decimal(page_count as nat).len())
                =~= decimal(page_count as nat));
            assert(stands_at(text, at, decimal(page_count as nat)));
        },
        _ => {},
    }
}

/// A refused import is reported with its format, or with what the page buffer
/// found.
pub proof fn law_import_report_names_its_format(error: ImportError)
    ensures
        error matches ImportError::Buffer(inner) ==> shows(error.text(), inner.text()),
        error matches ImportError::StrictVersion { version } ==>
            shows_before(error.text(), decimal(11), decimal(13))
                && shows_before(error.text(), decimal(13), decimal(version as nat)),
        error matches ImportError::StrictNotReady(inner) ==> shows(error.text(), inner.text()),
        error matches ImportError::Unrepresentable { version } ==>
            shows(error.text(), decimal(version as nat)),
{
    let text = error.text();
    match error {
        ImportError::Buffer(inner) => {
            let at: int = 0;
            assert(text.subrange(at, at + inner.text().len()) =~= inner.text());
            assert(stands_at(text, at, inner.text()));
        },
        ImportError::StrictVersion { version } => {
            let at: int = ("strict paged import requires a paged-ready v"@.len()) as int;
            assert(text.subrange(at, at + decimal(11).len()) =~= decimal(11));
            assert(stands_at(text, at, decimal(11)));
            let at: int = ("strict paged import requires a paged-ready v"@.len()
                + decimal(11).len() + "..=v"@.len()) as int;
            assert(text.subrange(at, at + decimal(13).len()) =~= decimal(13));
            assert(stands_at(text, at, decimal(13)));
            let at: int = ("strict paged import requires a paged-ready v"@.len()
                + decimal(11).len() + "..=v"@.len() + decimal(13).len()
                + " format, but recovery selected v"@.len()) as int;
            assert(text.subrange(at, at + decimal(version as nat).len())
                =~= decimal(version as nat));
            assert(stands_at(text, at, decimal(version as nat)));
        },
        ImportError::StrictNotReady(inner) => {
            let at: int = ("strict paged import candidate is not openPaged-ready: "@.len()) as int;
            assert(text.subrange(at, at + inner.text().len()) =~= inner.text());
            assert(stands_at(text, at, inner.text()));
        },
        ImportError::Unrepresentable { version } => {
            let at: int = ("openPaged import cannot represent recovered format v"@.len()) as int;
            assert(text.subrange(at, at + decimal(version as nat).len())
                =~= decimal(version as nat));
            assert(stands_at(text, at, decimal(version as nat)));
        },
        _ => {},
    }
}

/// A refused read is reported with what was found and what is allowed, or with
/// the text that could not be read and the reason for it.
pub proof fn law_read_report_names_its_figures(error: ReadError)
    ensures
        error matches ReadError::MaxBytesOutOfRange { max_bytes } ==>
            shows_before(error.text(), decimal(8388608), decimal(max_bytes as nat)),
        error matches ReadError::TooManyRows { rows, max_rows } ==>
            shows_before(error.text(), decimal(rows as nat), decimal(max_rows as nat)),
        error matches ReadError::TooManyBytes { bytes, max_bytes } ==>
            shows_before(error.text(), decimal(bytes as nat), decimal(max_bytes as nat)),
        error matches ReadError::InvalidEntityId { id, reason } ==>
            shows_before(error.text(), id@, reason@),
        error matches ReadError::InvalidTargetId { value, reason } ==>
            shows_before(error.text(), value@, reason@),
        error matches ReadError::UnqualifiedAttribute { attribute } ==>
            shows(error.text(), attribute@),
        error matches ReadError::RefsLimitOutOfRange { limit, max_rows } ==>
            shows_before(error.text(), decimal(max_rows as nat), decimal(limit as nat)),
        error is EntitiesTooLarge ==> shows(error.text(), decimal(8388608)),
        error is RefsTooLarge ==> shows(error.text(), decimal(8388608)),
{
    let text = error.text();
    match error {
        ReadError::MaxBytesOutOfRange { max_bytes } => {
            let at: int = ("read-view max_bytes must be in 1..="@.len()) as int;
            assert(text.subrange(at, at + decimal(8388608).len()) =~= decimal(8388608));
            assert(stands_at(text, at, decimal(8388608)));
            let at: int = ("read-view max_bytes must be in 1..="@.len() + decimal(8388608).len()
                + "; got "@.len()) as int;
            assert(text.subrange(at, at + decimal(max_bytes as nat).len())
                =~= decimal(max_bytes as nat));
            assert(stands_at(text, at, decimal(max_bytes as nat)));
        },
        ReadError::TooManyRows { rows, max_rows } => {
            let at: int = ("read-view result has "@.len()) as int;
            assert(text.subrange(at, at + decimal(rows as nat).len()) =~= decimal(rows as nat));
            assert(stands_at(text, at, decimal(rows as nat)));
            let at: int = ("read-view result has "@.len() + decimal(rows as nat).len()
                + " rows, exceeding max_rows "@.len()) as int;
            assert(text.subrange(at, at + decimal(max_rows as nat).len())
                =~= decimal(max_rows as nat));
            assert(stands_at(text, at, decimal(max_rows as nat)));
        },
        ReadError::TooManyBytes { bytes, max_bytes } => {
            let at: int = ("read-view result has "@.len()) as int;
            assert(text.subrange(at, at + decimal(bytes as nat).len()) =~= decimal(bytes as nat));
            assert(stands_at(text, at, decimal(bytes as nat)));
            let at: int = ("read-view result has "@.len() + decimal(bytes as nat).len()
                + " bytes, exceeding max_bytes "@.len()) as int;
            assert(text.subrange(at, at + decimal(max_bytes as nat).len())
                =~= decimal(max_bytes as nat));
            assert(stands_at(text, at, decimal(max_bytes as nat)));
        },
        ReadError::InvalidEntityId { id, reason } => {
            let at: int = ("current_entities invalid entity id "@.len()) as int;
            assert(text.subrange(at, at + id@.len()) =~= id@);
            assert(stands_at(text, at, id@));
            let at: int = ("current_entities invalid entity id "@.len() + id@.len()
                + ": "@.len()) as int;
            assert(text.subrange(at, at + reason@.len()) =~= reason@);
            assert(stands_at(text, at, reason@));
        },
        ReadError::InvalidTargetId { value, reason } => {
            let at: int = ("current_refs invalid target id "@.len()) as int;
            assert(text.subrange(at, at + value@.len()) =~= value@);
            assert(stands_at(text, at, value@));
            let at: int = ("current_refs invalid target id "@.len() + value@.len() + ": "@.len()) as int;
            assert(text.subrange(at, at + reason@.len()) =~= reason@);
            assert(stands_at(text, at, reason@));
        },
        ReadError::UnqualifiedAttribute { attribute } => {
            let at: int = ("current_refs attribute must be namespace-qualified: "@.len()) as int;
            assert(text.subrange(at, at + attribute@.len()) =~= attribute@);
            assert(stands_at(text, at, attribute@));
        },
        ReadError::RefsLimitOutOfRange { limit, max_rows } => {
            let at: int = ("current_refs limit must be in 1..="@.len()) as int;
            assert(text.subrange(at, at + decimal(max_rows as nat).len())
                =~= decimal(max_rows as nat));
            assert(stands_at(text, at, decimal(max_rows as nat)));
            let at: int = ("current_refs limit must be in 1..="@.len()
                + decimal(max_rows as nat).len() + "; got "@.len()) as int;
            assert(text.subrange(at, at + decimal(limit as nat).len()) =~= decimal(limit as nat));
            assert(stands_at(text, at, decimal(limit as nat)));
        },
        ReadError::EntitiesTooLarge => {
            let at: int = ("current_entities result exceeds "@.len()) as int;
            assert(text.subrange(at, at + decimal(8388608).len()) =~= decimal(8388608));
            assert(stands_at(text, at, decimal(8388608)));
        },
        ReadError::RefsTooLarge => {
            let at: int = ("current_refs result exceeds "@.len()) as int;
            assert(text.subrange(at, at + decimal(8388608).len()) =~= decimal(8388608));
            assert(stands_at(text, at, decimal(8388608)));
        },
    }
}

/// A rebuild that is over its budget is reported with both figures.
pub proof fn law_rebuild_report_names_its_budget(error: RebuildError)
    ensures
        error matches RebuildError::OverBudget { bytes, budget } ==>
            shows_before(error.text(), decimal(bytes as nat), decimal(budget as nat)),
{
    let text = error.text();
    match error {
        RebuildError::OverBudget { bytes, budget } => {
            let at: int = ("current projection images require "@.len()) as int;
            assert(text.subrange(at, at + decimal(bytes as nat).len()) =~= decimal(bytes as nat));
            assert(stands_at(text, at, decimal(bytes as nat)));
            let at: int = ("current projection images require "@.len()
                + decimal(bytes as nat).len() + " bytes, exceeding the "@.len()) as int;
            assert(text.subrange(at, at + decimal(budget as nat).len()) =~= decimal(budget as nat));
            assert(stands_at(text, at, decimal(budget as nat)));
        },
        _ => {},
    }
}

/// A batch with a fact that is too large is reported with the place of the fact,
/// its size and the limit.
pub proof fn law_batch_report_names_the_fact(error: AtomicWriteError)
    ensures
        error matches AtomicWriteError::FactTooLarge { index, size, limit } ==>
            shows_before(error.text(), decimal(index as nat), decimal(size as nat))
                && shows_before(error.text(), decimal(size as nat), decimal(limit as nat)),
{
    let text = error.text();
    match error {
        AtomicWriteError::FactTooLarge { index, size, limit } => {
            let at: int = ("executeAtomic fact "@.len()) as int;
            assert(text.subrange(at, at + decimal(index as nat).len()) =~= decimal(index as nat));
            assert(stands_at(text, at, decimal(index as nat)));
            let at: int = ("executeAtomic fact "@.len() + decimal(index as nat).len()
                + " serialised size "@.len()) as int;
            assert(text.subrange(at, at + decimal(size as nat).len()) =~= decimal(size as nat));
            assert(stands_at(text, at, decimal(size as nat)));
            let at: int = ("executeAtomic fact "@.len() + decimal(index as nat).len()
                + " serialised size "@.len() + decimal(size as nat).len()
                + " bytes exceeds maximum slot size "@.len()) as int;
            assert(text.subrange(at, at + decimal(limit as nat).len()) =~= decimal(limit as nat));
            assert(stands_at(text, at, decimal(limit as nat)));
        },
        _ => {},
    }
}

/// A view of a transaction that has not happened is reported with that
/// transaction and the current one.
pub proof fn law_view_report_names_both_transactions(error: ReadViewError)
    ensures
        error matches ReadViewError::NewerThanCurrent { as_of, current } ==>
            shows_before(error.text(), decimal(as_of as nat), decimal(current as nat)),
        error matches ReadViewError::Guard(inner) ==> shows(error.text(), inner.text()),
{
    let text = error.text();
    match error {
        ReadViewError::NewerThanCurrent { as_of, current } => {
            let at: int = ("read-view as_of "@.len()) as int;
            assert(text.subrange(at, at + decimal(as_of as nat).len()) =~= decimal(as_of as nat));
            assert(stands_at(text, at, decimal(as_of as nat)));
            let at: int = ("read-view as_of "@.len() + decimal(as_of as nat).len()
                + " is newer than current transaction "@.len()) as int;
            assert(text.subrange(at, at + decimal(current as nat).len())
                =~= decimal(current as nat));
            assert(stands_at(text, at, decimal(current as nat)));
        },
        ReadViewError::Guard(inner) => {
            let at: int = 0;
            assert(text.subrange(at, at + inner.text().len()) =~= inner.text());
            assert(stands_at(text, at, inner.text()));
        },
    }
}

/// A window without its page is reported with that page, and a rejected one with
/// the reason for it.
pub proof fn law_window_report_names_the_page(error: WindowError)
    ensures
        error matches WindowError::Rejected(reason) ==> shows(error.text(), reason@),
        error matches WindowError::RequiredPageMissing { page_id } ==>
            shows(error.text(), decimal(page_id as nat)),
{
    let text = error.text();
    match error {
        WindowError::Rejected(reason) => {
            let at: int = 0;
            assert(text.subrange(at, at + reason@.len()) =~= reason@);
            assert(stands_at(text, at, reason@));
        },
        WindowError::RequiredPageMissing { page_id } => {
            let at: int = ("required IndexedDB page "@.len()) as int;
            assert(text.subrange(at, at + decimal(page_id as nat).len())
                =~= decimal(page_id as nat));
            assert(stands_at(text, at, decimal(page_id as nat)));
        },
    }
}

/// A structured read that stopped is reported with its name and the limit that it
/// met.
pub proof fn law_structured_read_report_names_its_limit(error: CurrentReadError)
    ensures
        error matches CurrentReadError::HistoryExceeded { kind, max_entries } ==>
            shows_before(error.text(), read_name(kind), decimal(max_entries as nat)),
        error matches CurrentReadError::LimitExceeded { kind, limit } ==>
            shows_before(error.text(), read_name(kind), decimal(limit as nat)),
{
    let text = error.text();
    match error {
        CurrentReadError::HistoryExceeded { kind, max_entries } => {
            let at: int = 0;
            assert(text.subrange(at, at + read_name(kind).len()) =~= read_name(kind));
            assert(stands_at(text, at, read_name(kind)));
            let at: int = (read_name(kind).len() + " history work exceeds "@.len()) as int;
            assert(text.subrange(at, at + decimal(max_entries as nat).len())
                =~= decimal(max_entries as nat));
            assert(stands_at(text, at, decimal(max_entries as nat)));
        },
        CurrentReadError::LimitExceeded { kind, limit } => {
            let at: int = 0;
            assert(text.subrange(at, at + read_name(kind).len()) =~= read_name(kind));
            assert(stands_at(text, at, read_name(kind)));
            let at: int = (read_name(kind).len() + " result exceeds limit "@.len()) as int;
            assert(text.subrange(at, at + decimal(limit as nat).len()) =~= decimal(limit as nat));
            assert(stands_at(text, at, decimal(limit as nat)));
        },
        _ => {},
    }
}

/// A dirty page that cannot be read is reported with its number and the reason
/// for it.
pub proof fn law_dirty_page_report_names_the_page(error: DirtyPageError)
    ensures
        shows_before(error.text(), decimal(error.page_id as nat), error.error.text()),
{
    let text = error.text();
    let numeral = decimal(error.page_id as nat);
    let reason = error.error.text();
    let at: int = "failed to read dirty browser page "@.len() as int;
    assert(text.subrange(at, at + numeral.len()) =~= numeral);
    assert(stands_at(text, at, numeral));
    let behind: int = (at + numeral.len() + ": "@.len()) as int;
    assert(text.subrange(behind, behind + reason.len()) =~= reason);
    assert(stands_at(text, behind, reason));
}

/// A refused export is reported with what the page buffer found, and a rejected
/// one with the reason for it.
pub proof fn law_export_report_shows_its_reason(error: VerifiedExportError)
    ensures
        error matches VerifiedExportError::Image(ExportError::Buffer(inner)) ==> error.text()
            == inner.text(),
        error matches VerifiedExportError::Rejected(reason) ==> error.text() == reason@,
{
}

/// A flush that failed and could not be undone is reported with both reasons,
/// that of the flush first. An image that cannot be opened page by page is
/// reported with the reason for it.
pub proof fn law_failed_flush_report_shows_both_reasons(
    write_error: Seq<char>,
    reopen_error: Seq<char>,
)
    ensures
        shows_before(
            restore_failure_text(write_error, reopen_error),
            write_error,
            reopen_error,
        ),
        shows(refusal_text(write_error), write_error),
{
    let text = restore_failure_text(write_error, reopen_error);
    let at: int =
        "IndexedDB write failed and previous durable graph could not be reopened: write="@.len() as int;
    assert(text.subrange(at, at + write_error.len()) =~= write_error);
    assert(stands_at(text, at, write_error));
    let behind: int = (at + write_error.len() + "; reopen="@.len()) as int;
    assert(text.subrange(behind, behind + reopen_error.len()) =~= reopen_error);
    assert(stands_at(text, behind, reopen_error));
    let refusal = refusal_text(write_error);
    let front: int = "openPaged cannot silently fall back to eager residency: "@.len() as int;
    assert(refusal.subrange(front, front + write_error.len()) =~= write_error);
    assert(stands_at(refusal, front, write_error));
}

/// The two structured reads have names of their own.
pub proof fn law_structured_reads_have_their_names()
    ensures
        read_name(CurrentReadKind::Entities) != read_name(CurrentReadKind::Refs),
{
    reveal_strlit("current_entities");
    reveal_strlit("current_refs");
    assert("current_entities"@.len() != "current_refs"@.len());
}

} // verus!
