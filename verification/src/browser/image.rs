//! Portable graph images: splitting an imported blob into pages, deciding how
//! an import becomes resident, and joining pages into an exported blob.

use crate::browser::buffer::{
    batch_bytes, complete_prefix, copy_bytes, declared_count, evicted, export_fault, exportable,
    overlay, prefix_view, read_outcome, sparse_candidate, sparse_candidate_fault,
    BrowserBufferBackend, BufferView,
};
use crate::browser::buffer_error::BufferError;
use crate::browser::guard::BrowserOpenMode;
use crate::browser::paging::{
    authority_accepts, authority_fault, batch_at, configure_sparse_authority, first_rejection,
    BrowserPageRange, PageBatch, RangeWalk,
};
use crate::collections::{copy_set, page_bytes};
use crate::storage::{
    header_of, header_read_fault, FileHeader, INTEGRITY_FORMAT_VERSION,
    LEGACY_HEADER_EXTENSION_FILE_FORMAT_VERSION, MAX_READABLE_FORMAT_VERSION, PAGE_SIZE,
};
use crate::text::{decimal, push_decimal};
use std::collections::{HashMap, HashSet};
use vstd::prelude::*;
use vstd::string::*;

verus! {

broadcast use vstd::std_specs::hash::group_hash_axioms;

/// How much an import has to promise before it replaces the database.
#[derive(Clone, Copy, Debug, PartialEq, Eq, Structural)]
pub enum BrowserImportPolicy {
    /// Keep whatever state recovery can select.
    RecoveryCompatible,
    /// Publish only an image that a fresh paged open accepts.
    RequirePagedReady,
}

/// Why an import was refused.
#[derive(Clone, Copy, Debug, PartialEq, Eq, Structural)]
pub enum ImportError {
    /// The blob is shorter than its own header page.
    TooShort,
    /// The page buffer refused the image.
    Buffer(BufferError),
    /// The strict policy does not allow this format.
    StrictVersion { version: u32 },
    /// The strict policy requires an image that can be opened page by page.
    StrictNotReady(BufferError),
    /// A paged handle cannot represent this format.
    Unrepresentable { version: u32 },
}

impl ImportError {
    /// The text reported for this error.
    pub open spec fn text(self) -> Seq<char> {
        match self {
            ImportError::TooShort => "import data is shorter than one complete .graph header page"@,
            ImportError::Buffer(error) => error.text(),
            ImportError::StrictVersion { version } =>
                "strict paged import requires a paged-ready v"@ + decimal(
                INTEGRITY_FORMAT_VERSION as nat,
            ) + "..=v"@ + decimal(MAX_READABLE_FORMAT_VERSION as nat)
                + " format, but recovery selected v"@ + decimal(version as nat),
            ImportError::StrictNotReady(error) =>
                "strict paged import candidate is not openPaged-ready: "@ + error.text(),
            ImportError::Unrepresentable { version } =>
                "openPaged import cannot represent recovered format v"@ + decimal(version as nat)
                + " as bounded authority"@,
        }
    }

    /// Render this error for a caller.
    pub fn message(&self) -> (text: String)
        ensures
            text@ == self.text(),
    {
        let mut out = String::new();
        match self {
            ImportError::TooShort => out.append(
                "import data is shorter than one complete .graph header page",
            ),
            ImportError::Buffer(error) => return error.message(),
            ImportError::StrictVersion { version } => {
                out.append("strict paged import requires a paged-ready v");
                push_decimal(&mut out, INTEGRITY_FORMAT_VERSION as u64);
                out.append("..=v");
                push_decimal(&mut out, MAX_READABLE_FORMAT_VERSION as u64);
                out.append(" format, but recovery selected v");
                push_decimal(&mut out, *version as u64);
            },
            ImportError::StrictNotReady(error) => {
                out.append("strict paged import candidate is not openPaged-ready: ");
                out.append(error.message().as_str());
            },
            ImportError::Unrepresentable { version } => {
                out.append("openPaged import cannot represent recovered format v");
                push_decimal(&mut out, *version as u64);
                out.append(" as bounded authority");
            },
        }
        assert(out@ =~= self.text());
        out
    }
}

/// The number of complete pages in a blob.
pub open spec fn complete_pages(bytes: Seq<u8>) -> int {
    bytes.len() as int / PAGE_SIZE as int
}

/// One page of a blob.
pub open spec fn blob_page(bytes: Seq<u8>, id: int) -> Seq<u8> {
    bytes.subrange(id * PAGE_SIZE as int, (id + 1) * PAGE_SIZE as int)
}

/// The complete pages of a blob, by id.
pub open spec fn image_pages(bytes: Seq<u8>) -> Map<u64, Seq<u8>> {
    Map::new(|id: u64| id < complete_pages(bytes), |id: u64| blob_page(bytes, id as int))
}

/// Split a blob into its complete pages.
///
/// A partial page at the end is an interrupted, unpublished candidate and is
/// left out; a blob without a complete first page is refused.
pub fn split_import(bytes: &Vec<u8>) -> (result: Result<HashMap<u64, Vec<u8>>, ImportError>)
    ensures
        match result {
            Ok(pages) => bytes@.len() >= PAGE_SIZE && page_bytes(pages@) == image_pages(bytes@),
            Err(fault) => bytes@.len() < PAGE_SIZE && fault == ImportError::TooShort,
        },
{
    if bytes.len() < PAGE_SIZE {
        return Err(ImportError::TooShort);
    }
    let total: usize = bytes.len() / PAGE_SIZE;
    let mut pages: HashMap<u64, Vec<u8>> = HashMap::new();
    let mut i: usize = 0;
    let ghost all = image_pages(bytes@);
    assert(page_bytes(pages@) =~= all.restrict(Set::new(|id: u64| id < 0)));
    while i < total
        invariant
            i <= total,
            total == bytes@.len() / PAGE_SIZE as nat,
            total == complete_pages(bytes@),
            bytes@.len() <= usize::MAX,
            all == image_pages(bytes@),
            page_bytes(pages@) == all.restrict(Set::new(|id: u64| id < i)),
        decreases total - i,
    {
        assert((i + 1) * PAGE_SIZE <= bytes@.len()) by (nonlinear_arith)
            requires
                i + 1 <= total,
                total == bytes@.len() / PAGE_SIZE as nat,
                PAGE_SIZE == 4096,
        ;
        let start: usize = i * PAGE_SIZE;
        let end: usize = start + PAGE_SIZE;
        let page = copy_bytes(vstd::slice::slice_subrange(bytes.as_slice(), start, end));
        let ghost was = pages@;
        pages.insert(i as u64, page);
        proof {
            assert(page@ == blob_page(bytes@, i as int));
            assert(page_bytes(pages@) =~= page_bytes(was).insert(i as u64, page@));
            assert(page_bytes(pages@) =~= all.restrict(Set::new(|id: u64| id < i + 1)));
        }
        i += 1;
    }
    assert(all.restrict(Set::new(|id: u64| id < i)) =~= all);
    Ok(pages)
}

/// A buffer without its unpublished tail, all of whose pages count as flushed.
pub open spec fn sealed_view(view: BufferView) -> BufferView {
    BufferView {
        dirty: Set::empty(),
        ..prefix_view(view, declared_count(view.pages)->Ok_0)
    }
}

/// `pages` are exactly the resident pages of a buffer.
pub open spec fn lists_image(view: BufferView, pages: Seq<(u64, Vec<u8>)>) -> bool {
    &&& pages.len() == view.pages.dom().len()
    &&& overlay(Map::empty(), batch_bytes(pages)) == view.pages
}

/// Close a constructed import: drop the unpublished tail, list every page that
/// has to be stored, and count them as flushed.
pub fn seal_import(buffer: &mut BrowserBufferBackend) -> (result: Result<
    Vec<(u64, Vec<u8>)>,
    ImportError,
>)
    ensures
        match result {
            Ok(pages) => {
                &&& declared_count(old(buffer)@.pages) is Ok
                &&& final(buffer)@ == sealed_view(old(buffer)@)
                &&& lists_image(final(buffer)@, pages@)
            },
            Err(fault) => {
                &&& declared_count(old(buffer)@.pages) matches Err(error) && fault
                    == ImportError::Buffer(error)
                &&& final(buffer)@ == old(buffer)@
            },
        },
        old(buffer)@.wf() ==> final(buffer)@.wf(),
{
    if let Err(fault) = buffer.retain_declared_prefix() {
        return Err(ImportError::Buffer(fault));
    }
    let pages = buffer.all_pages();
    let _flushed = buffer.take_dirty();
    Ok(pages)
}

/// The format version that page 0 of a buffer records, or why there is none.
pub open spec fn recorded_version(view: BufferView) -> Result<u32, BufferError> {
    match read_outcome(view, 0) {
        Err(fault) => Err(fault),
        Ok(page) => match header_read_fault(page) {
            Some(fault) => Err(BufferError::Header(fault)),
            None => Ok(header_of(page).version),
        },
    }
}

/// The format version that page 0 of a buffer records.
pub fn page_zero_version(buffer: &BrowserBufferBackend) -> (result: Result<u32, BufferError>)
    ensures
        result == recorded_version(buffer@),
{
    match buffer.read_page_raw(0) {
        Ok(page) => match FileHeader::from_bytes(page.as_slice()) {
            Ok(header) => Ok(header.version),
            Err(fault) => Err(BufferError::Header(fault)),
        },
        Err(fault) => Err(fault),
    }
}

/// Whether an imported image of this format carries per-page integrity data.
pub open spec fn integrity_format(version: u32) -> bool {
    INTEGRITY_FORMAT_VERSION <= version <= MAX_READABLE_FORMAT_VERSION
}

/// What to do with an imported image, or why to refuse it: the strict policy
/// looks at the format before anything else, and a paged handle takes either an
/// image that it can page, or a legacy recovery state that it keeps eagerly.
pub open spec fn import_refusal(
    policy: BrowserImportPolicy,
    open_mode: BrowserOpenMode,
    version: u32,
) -> Option<ImportError> {
    if policy == BrowserImportPolicy::RequirePagedReady && !integrity_format(version) {
        Some(ImportError::StrictVersion { version })
    } else if open_mode == BrowserOpenMode::Paged && !integrity_format(version) && version
        != LEGACY_HEADER_EXTENSION_FILE_FORMAT_VERSION {
        Some(ImportError::Unrepresentable { version })
    } else {
        None
    }
}

/// Whether an imported image becomes sparse.
pub open spec fn import_becomes_sparse(open_mode: BrowserOpenMode, version: u32) -> bool {
    open_mode == BrowserOpenMode::Paged && integrity_format(version)
}

/// Whether an import consults the authority pins of its image.
pub open spec fn consults_pins(
    policy: BrowserImportPolicy,
    open_mode: BrowserOpenMode,
    version: u32,
) -> bool {
    integrity_format(version) && (policy == BrowserImportPolicy::RequirePagedReady || open_mode
        == BrowserOpenMode::Paged)
}

/// The report of an import whose authority pins are unknown.
pub open spec fn unknown_pins_text(policy: BrowserImportPolicy, reason: Seq<char>) -> Seq<char> {
    match policy {
        BrowserImportPolicy::RequirePagedReady =>
            "strict paged import candidate is not openPaged-ready: "@ + reason,
        BrowserImportPolicy::RecoveryCompatible => reason,
    }
}

/// Whether an import consults the authority pins of its image: only an image
/// that can be paged has any, and only the strict policy or a paged handle asks
/// for them.
pub fn import_needs_authority(
    policy: BrowserImportPolicy,
    open_mode: BrowserOpenMode,
    version: u32,
) -> (needed: bool)
    ensures
        needed == consults_pins(policy, open_mode, version),
{
    let integrity = INTEGRITY_FORMAT_VERSION <= version && version <= MAX_READABLE_FORMAT_VERSION;
    integrity && (policy == BrowserImportPolicy::RequirePagedReady || open_mode.is_paged())
}

/// The report of an import whose authority pins cannot be determined.
pub fn authority_refusal(policy: BrowserImportPolicy, reason: &str) -> (text: String)
    ensures
        text@ == unknown_pins_text(policy, reason@),
{
    let mut out = String::new();
    if policy == BrowserImportPolicy::RequirePagedReady {
        out.append("strict paged import candidate is not openPaged-ready: ");
    }
    out.append(reason);
    assert(out@ =~= unknown_pins_text(policy, reason@));
    out
}

/// Settle the residency of a sealed import. The result says whether the handle
/// continues page by page.
///
/// Nothing durable has changed when this refuses an image.
pub fn admit_import(
    buffer: &mut BrowserBufferBackend,
    policy: BrowserImportPolicy,
    open_mode: BrowserOpenMode,
    version: u32,
    pins: HashSet<u64>,
) -> (result: Result<bool, ImportError>)
    ensures
        match result {
            Ok(sparse) => {
                &&& import_refusal(policy, open_mode, version) is None
                &&& sparse == import_becomes_sparse(open_mode, version)
                &&& policy == BrowserImportPolicy::RequirePagedReady ==> sparse_candidate(
                    old(buffer)@,
                    pins@,
                )
                &&& if sparse {
                    let configured = BufferView { pinned: pins@, sparse: true, ..old(buffer)@ };
                    &&& authority_accepts(old(buffer)@, pins@)
                    &&& evicted(configured, 0, final(buffer)@)
                } else {
                    final(buffer)@ == old(buffer)@
                }
            },
            Err(fault) => {
                &&& final(buffer)@ == old(buffer)@
                &&& match import_refusal(policy, open_mode, version) {
                    Some(refusal) => fault == refusal,
                    None => if policy == BrowserImportPolicy::RequirePagedReady
                        && !sparse_candidate(old(buffer)@, pins@) {
                        fault matches ImportError::StrictNotReady(error)
                            && sparse_candidate_fault(old(buffer)@, pins@, error)
                    } else {
                        &&& import_becomes_sparse(open_mode, version)
                        &&& !authority_accepts(old(buffer)@, pins@)
                        &&& fault matches ImportError::Buffer(error) && authority_fault(
                            old(buffer)@,
                            pins@,
                            error,
                        )
                    },
                }
            },
        },
        old(buffer)@.wf() ==> final(buffer)@.wf(),
{
    let integrity = INTEGRITY_FORMAT_VERSION <= version && version <= MAX_READABLE_FORMAT_VERSION;
    if policy == BrowserImportPolicy::RequirePagedReady {
        if !integrity {
            return Err(ImportError::StrictVersion { version });
        }
        if let Err(fault) = buffer.validate_sparse_residency(copy_set(&pins)) {
            return Err(ImportError::StrictNotReady(fault));
        }
    }
    if !open_mode.is_paged() {
        return Ok(false);
    }
    if integrity {
        let ghost before = buffer@;
        if let Err(fault) = configure_sparse_authority(buffer, pins) {
            return Err(ImportError::Buffer(fault));
        }
        let ghost configured = buffer@;
        assert(configured == BufferView { pinned: pins@, sparse: true, ..before });
        let _removed = buffer.evict_all_clean_unpinned();
        return Ok(true);
    }
    if version == LEGACY_HEADER_EXTENSION_FILE_FORMAT_VERSION {
        return Ok(false);
    }
    Err(ImportError::Unrepresentable { version })
}

/// Why an export was refused.
#[derive(Clone, Copy, Debug, PartialEq, Eq, Structural)]
pub enum ExportError {
    /// The page buffer does not hold a complete image.
    Buffer(BufferError),
    /// The page count does not fit into memory.
    TooManyPages,
    /// The blob does not fit into memory.
    TooLarge,
}

impl ExportError {
    /// The text reported for this error.
    pub open spec fn text(self) -> Seq<char> {
        match self {
            ExportError::Buffer(error) => error.text(),
            ExportError::TooManyPages => "published page count exceeds addressable memory"@,
            ExportError::TooLarge => "published graph size exceeds addressable memory"@,
        }
    }

    /// Render this error for a caller.
    pub fn message(&self) -> (text: String)
        ensures
            text@ == self.text(),
    {
        match self {
            ExportError::Buffer(error) => error.message(),
            ExportError::TooManyPages => "published page count exceeds addressable memory".to_owned(),
            ExportError::TooLarge => "published graph size exceeds addressable memory".to_owned(),
        }
    }
}

/// The first `count` pages of an image, one after the other.
pub open spec fn image_blob(pages: Map<u64, Seq<u8>>, count: nat) -> Seq<u8>
    decreases count,
{
    if count == 0 {
        Seq::empty()
    } else {
        image_blob(pages, (count - 1) as nat) + pages[(count - 1) as u64]
    }
}

/// The bytes that an image of `page_count` pages takes, or why it does not fit.
pub open spec fn blob_size(page_count: u64) -> Result<usize, ExportError> {
    if page_count > usize::MAX {
        Err(ExportError::TooManyPages)
    } else if page_count * PAGE_SIZE > usize::MAX {
        Err(ExportError::TooLarge)
    } else {
        Ok((page_count * PAGE_SIZE) as usize)
    }
}

/// Compute the size of an exported blob.
pub fn export_capacity(page_count: u64) -> (result: Result<usize, ExportError>)
    ensures
        result == blob_size(page_count),
{
    if page_count > usize::MAX as u64 {
        return Err(ExportError::TooManyPages);
    }
    match (page_count as usize).checked_mul(PAGE_SIZE) {
        Some(size) => Ok(size),
        None => Err(ExportError::TooLarge),
    }
}

/// Append one page to a blob under construction.
pub fn append_page(blob: &mut Vec<u8>, page: &Vec<u8>)
    ensures
        final(blob)@ == old(blob)@ + page@,
{
    let mut i: usize = 0;
    assert(blob@ =~= blob@ + page@.take(0));
    while i < page.len()
        invariant
            i <= page.len(),
            blob@ == old(blob)@ + page@.take(i as int),
        decreases page.len() - i,
    {
        blob.push(page[i]);
        assert(page@.take(i + 1) =~= page@.take(i as int).push(page@[i as int]));
        assert(blob@ =~= old(blob)@ + page@.take(i + 1));
        i += 1;
    }
    assert(page@.take(page@.len() as int) =~= page@);
}

/// Compute the size of a blob that is exported batch by batch. Whatever does
/// not fit is reported as too large.
pub fn paged_export_capacity(page_count: u64) -> (result: Result<usize, ExportError>)
    ensures
        result == if page_count * PAGE_SIZE > usize::MAX {
            Err::<usize, ExportError>(ExportError::TooLarge)
        } else {
            Ok((page_count * PAGE_SIZE) as usize)
        },
{
    match export_capacity(page_count) {
        Ok(size) => Ok(size),
        Err(_) => Err(ExportError::TooLarge),
    }
}

/// The pages of one batch, one after the other.
pub open spec fn batch_blob(pages: Seq<(u64, Vec<u8>)>) -> Seq<u8>
    decreases pages.len(),
{
    if pages.len() == 0 {
        Seq::empty()
    } else {
        batch_blob(pages.drop_last()) + pages.last().1@
    }
}

/// Append one batch of pages to a blob under construction.
pub fn append_batch(blob: &mut Vec<u8>, pages: &Vec<(u64, Vec<u8>)>)
    ensures
        final(blob)@ == old(blob)@ + batch_blob(pages@),
{
    let mut i: usize = 0;
    assert(blob@ =~= blob@ + batch_blob(pages@.take(0)));
    while i < pages.len()
        invariant
            i <= pages.len(),
            blob@ == old(blob)@ + batch_blob(pages@.take(i as int)),
        decreases pages.len() - i,
    {
        append_page(blob, &pages[i].1);
        assert(pages@.take(i + 1).drop_last() =~= pages@.take(i as int));
        assert(blob@ =~= old(blob)@ + batch_blob(pages@.take(i + 1)));
        i += 1;
    }
    assert(pages@.take(pages@.len() as int) =~= pages@);
}

/// A blob that holds an image up to a page, followed by the batch of pages that
/// starts there, holds the image up to the end of the batch.
pub proof fn law_batches_export_image(
    pages: Map<u64, Seq<u8>>,
    start: u64,
    batch: Seq<(u64, Vec<u8>)>,
)
    requires
        start + batch.len() <= u64::MAX,
        forall|i: int|
            0 <= i < batch.len() ==> (#[trigger] batch[i]).0 == start + i && pages[batch[i].0]
                == batch[i].1@,
    ensures
        image_blob(pages, (start + batch.len()) as nat) == image_blob(pages, start as nat)
            + batch_blob(batch),
    decreases batch.len(),
{
    if batch.len() == 0 {
        assert(image_blob(pages, start as nat) + batch_blob(batch) =~= image_blob(
            pages,
            start as nat,
        ));
    } else {
        law_batches_export_image(pages, start, batch.drop_last());
        assert(batch.last() == batch[batch.len() - 1]);
        assert(image_blob(pages, (start + batch.len()) as nat) =~= image_blob(pages, start as nat)
            + batch_blob(batch));
    }
}

/// Join the published pages of a complete buffer, in ascending page order.
fn join_pages(buffer: &BrowserBufferBackend) -> (result: Result<Vec<u8>, ExportError>)
    ensures
        match result {
            Ok(blob) => {
                &&& exportable(buffer@.pages)
                &&& blob_size(declared_count(buffer@.pages)->Ok_0) is Ok
                &&& blob@ == image_blob(
                    buffer@.pages,
                    declared_count(buffer@.pages)->Ok_0 as nat,
                )
            },
            Err(fault) => if exportable(buffer@.pages) {
                blob_size(declared_count(buffer@.pages)->Ok_0) == Err::<usize, ExportError>(fault)
            } else {
                fault matches ExportError::Buffer(error) && export_fault(buffer@.pages, error)
            },
        },
{
    let page_count: u64 = match buffer.exportable_page_count() {
        Ok(count) => count,
        Err(fault) => return Err(ExportError::Buffer(fault)),
    };
    if let Err(fault) = export_capacity(page_count) {
        return Err(fault);
    }
    proof {
        crate::browser::buffer_laws::lemma_exportable_prefix(buffer@.pages);
    }
    let mut blob: Vec<u8> = Vec::new();
    let mut id: u64 = 0;
    while id < page_count
        invariant
            id <= page_count,
            complete_prefix(buffer@.pages, page_count),
            blob@ == image_blob(buffer@.pages, id as nat),
        decreases page_count - id,
    {
        assert(buffer@.pages.contains_key(id));
        match buffer.read_page_raw(id) {
            Ok(page) => append_page(&mut blob, &page),
            Err(_) => {},
        }
        id = id + 1;
    }
    Ok(blob)
}

/// Why a verified export was refused.
#[derive(Debug, PartialEq, Eq)]
pub enum VerifiedExportError {
    /// The buffer cannot be exported at all.
    Image(ExportError),
    /// A published page did not pass verification, for this reason.
    Rejected(String),
}

impl VerifiedExportError {
    /// The text reported for this error.
    pub open spec fn text(self) -> Seq<char> {
        match self {
            VerifiedExportError::Image(error) => error.text(),
            VerifiedExportError::Rejected(reason) => reason@,
        }
    }

    /// Render this error for a caller.
    pub fn message(&self) -> (text: String)
        ensures
            text@ == self.text(),
    {
        match self {
            VerifiedExportError::Image(error) => error.message(),
            VerifiedExportError::Rejected(reason) => reason.clone(),
        }
    }
}

/// Join the published pages of a complete buffer into a portable blob, in
/// ascending page order. `verdicts` holds what the verified read of each
/// published page came to; one rejected page fails the export.
pub fn export_verified(
    buffer: &BrowserBufferBackend,
    verdicts: &Vec<Result<(), String>>,
) -> (result: Result<Vec<u8>, VerifiedExportError>)
    requires
        exportable(buffer@.pages) ==> verdicts@.len() == declared_count(buffer@.pages)->Ok_0,
    ensures
        match result {
            Ok(blob) => {
                &&& exportable(buffer@.pages)
                &&& blob_size(declared_count(buffer@.pages)->Ok_0) is Ok
                &&& forall|i: int| 0 <= i < verdicts@.len() ==> (#[trigger] verdicts@[i]) is Ok
                &&& blob@ == image_blob(
                    buffer@.pages,
                    declared_count(buffer@.pages)->Ok_0 as nat,
                )
            },
            Err(VerifiedExportError::Rejected(reason)) => {
                &&& exportable(buffer@.pages)
                &&& blob_size(declared_count(buffer@.pages)->Ok_0) is Ok
                &&& exists|i: int|
                    0 <= i < verdicts@.len() && #[trigger] verdicts@[i] == Err::<(), String>(reason)
                        && forall|j: int| 0 <= j < i ==> (#[trigger] verdicts@[j]) is Ok
            },
            Err(VerifiedExportError::Image(fault)) => if exportable(buffer@.pages) {
                blob_size(declared_count(buffer@.pages)->Ok_0) == Err::<usize, ExportError>(fault)
            } else {
                fault matches ExportError::Buffer(error) && export_fault(buffer@.pages, error)
            },
        },
{
    match join_pages(buffer) {
        Err(fault) => Err(VerifiedExportError::Image(fault)),
        Ok(blob) => match first_rejection(verdicts) {
            Some(reason) => Err(VerifiedExportError::Rejected(reason)),
            None => Ok(blob),
        },
    }
}

/// What an export that reads the page store batch by batch has joined so far.
#[verifier::ext_equal]
pub struct PagedExportView {
    /// First page that has not been joined.
    pub next: u64,
    /// Published pages of the image.
    pub end: u64,
    /// The joined pages.
    pub blob: Seq<u8>,
}

/// An export that reads the page store batch by batch.
pub struct PagedExport {
    walk: RangeWalk,
    blob: Vec<u8>,
}

impl View for PagedExport {
    type V = PagedExportView;

    closed spec fn view(&self) -> PagedExportView {
        PagedExportView { next: self.walk.next, end: self.walk.end, blob: self.blob@ }
    }
}

/// The state of an export after its next batch was verified.
pub open spec fn joined(view: PagedExportView, pages: Seq<(u64, Vec<u8>)>) -> PagedExportView {
    match batch_at(view.next, view.end) {
        None => view,
        Some(batch) => PagedExportView {
            next: (view.next + batch.count) as u64,
            blob: view.blob + batch_blob(pages),
            ..view
        },
    }
}

impl PagedExport {
    /// Start the export of an image of `page_count` pages. Whatever does not
    /// fit is reported as too large.
    pub fn new(page_count: u64) -> (result: Result<Self, ExportError>)
        ensures
            match result {
                Ok(export) => {
                    &&& page_count * PAGE_SIZE <= usize::MAX
                    &&& export@ == (PagedExportView {
                        next: 0,
                        end: page_count,
                        blob: Seq::empty(),
                    })
                },
                Err(fault) => page_count * PAGE_SIZE > usize::MAX && fault == ExportError::TooLarge,
            },
    {
        match paged_export_capacity(page_count) {
            Err(fault) => Err(fault),
            Ok(_) => Ok(
                PagedExport {
                    walk: RangeWalk::new(BrowserPageRange { start: 0, end: page_count }),
                    blob: Vec::new(),
                },
            ),
        }
    }

    /// The batch to fetch next, until the image is complete.
    pub fn next_batch(&self) -> (batch: Option<PageBatch>)
        ensures
            batch == batch_at(self@.next, self@.end),
    {
        let mut ahead = self.walk;
        ahead.next_batch()
    }

    /// Take in the batch that was asked for, if it passed verification.
    pub fn accept(&mut self, pages: &Vec<(u64, Vec<u8>)>, verdict: Result<(), String>) -> (result:
        Result<(), String>)
        ensures
            result == verdict,
            final(self)@ == if verdict is Ok {
                joined(old(self)@, pages@)
            } else {
                old(self)@
            },
    {
        if verdict.is_ok() && self.walk.next_batch().is_some() {
            append_batch(&mut self.blob, pages);
        }
        verdict
    }

    /// End an export whose pages have all been joined. `verdict` is what the
    /// verification of the image as a whole came to.
    pub fn finish(self, verdict: Result<(), String>) -> (result: Result<Vec<u8>, String>)
        requires
            batch_at(self@.next, self@.end) is None,
        ensures
            match verdict {
                Ok(_) => result matches Ok(blob) && blob@ == self@.blob,
                Err(reason) => result == Err::<Vec<u8>, String>(reason),
            },
    {
        match verdict {
            Ok(_) => Ok(self.blob),
            Err(reason) => Err(reason),
        }
    }
}

/// An export that takes in the batches it asked for holds the image up to the
/// page where it stands, and the whole image once it asks for nothing more.
pub proof fn law_paged_export_joins_the_image(
    view: PagedExportView,
    image: Map<u64, Seq<u8>>,
    pages: Seq<(u64, Vec<u8>)>,
)
    requires
        view.next <= view.end,
        view.blob == image_blob(image, view.next as nat),
        batch_at(view.next, view.end) matches Some(batch) ==> pages.len() == batch.count,
        forall|i: int|
            0 <= i < pages.len() ==> (#[trigger] pages[i]).0 == view.next + i && image[pages[i].0]
                == pages[i].1@,
    ensures
        joined(view, pages).next <= view.end,
        joined(view, pages).blob == image_blob(image, joined(view, pages).next as nat),
        batch_at(joined(view, pages).next, view.end) is None ==> joined(view, pages).blob
            == image_blob(image, view.end as nat),
{
    if batch_at(view.next, view.end) is Some {
        law_batches_export_image(image, view.next, pages);
    }
}

/// Exporting a complete image and splitting the blob again gives back its
/// pages, the blob is page aligned, and joining the pages again gives the same
/// bytes.
pub proof fn law_export_then_import(pages: Map<u64, Seq<u8>>, count: u64)
    requires
        complete_prefix(pages, count),
        count > 0,
    ensures
        image_blob(pages, count as nat).len() == count * PAGE_SIZE,
        complete_pages(image_blob(pages, count as nat)) == count,
        image_pages(image_blob(pages, count as nat)) == pages.restrict(
            Set::new(|id: u64| id < count),
        ),
        image_blob(image_pages(image_blob(pages, count as nat)), count as nat) == image_blob(
            pages,
            count as nat,
        ),
{
    lemma_blob_len(pages, count as nat, count);
    let blob = image_blob(pages, count as nat);
    assert(complete_pages(blob) == count) by (nonlinear_arith)
        requires
            complete_pages(blob) == blob.len() as int / PAGE_SIZE as int,
            blob.len() == count * PAGE_SIZE,
            PAGE_SIZE == 4096,
    ;
    assert forall|id: u64| id < count implies blob_page(blob, id as int) == #[trigger] pages[id] by {
        lemma_blob_page(pages, count as nat, count, id);
    }
    assert(image_pages(blob) =~= pages.restrict(Set::new(|id: u64| id < count)));
    lemma_blob_of_prefix(pages, image_pages(blob), count as nat, count);
}

/// A blob depends on the pages that it joins alone.
pub(crate) proof fn lemma_blob_of_prefix(
    pages: Map<u64, Seq<u8>>,
    other: Map<u64, Seq<u8>>,
    n: nat,
    count: u64,
)
    requires
        n <= count,
        forall|id: u64| id < count ==> #[trigger] pages[id] == other[id],
    ensures
        image_blob(pages, n) == image_blob(other, n),
    decreases n,
{
    if n > 0 {
        lemma_blob_of_prefix(pages, other, (n - 1) as nat, count);
        assert(pages[(n - 1) as u64] == other[(n - 1) as u64]);
    }
}

proof fn lemma_blob_len(pages: Map<u64, Seq<u8>>, n: nat, count: u64)
    requires
        complete_prefix(pages, count),
        n <= count,
    ensures
        image_blob(pages, n).len() == n * PAGE_SIZE,
    decreases n,
{
    if n > 0 {
        lemma_blob_len(pages, (n - 1) as nat, count);
        assert(pages.contains_key((n - 1) as u64));
        assert((n - 1) * PAGE_SIZE + PAGE_SIZE == n * PAGE_SIZE) by (nonlinear_arith);
    }
}

proof fn lemma_blob_page(pages: Map<u64, Seq<u8>>, n: nat, count: u64, id: u64)
    requires
        complete_prefix(pages, count),
        n <= count,
        id < n,
    ensures
        blob_page(image_blob(pages, n), id as int) == pages[id],
    decreases n,
{
    let shorter = image_blob(pages, (n - 1) as nat);
    lemma_blob_len(pages, (n - 1) as nat, count);
    lemma_blob_len(pages, n, count);
    assert(pages.contains_key((n - 1) as u64));
    let start = id * PAGE_SIZE;
    let end = (id + 1) * PAGE_SIZE;
    if id == n - 1 {
        assert(start == shorter.len());
        assert(blob_page(image_blob(pages, n), id as int) =~= pages[id]);
    } else {
        lemma_blob_page(pages, (n - 1) as nat, count, id);
        assert(end <= (n - 1) * PAGE_SIZE) by (nonlinear_arith)
            requires
                id + 1 <= n - 1,
                end == (id + 1) * PAGE_SIZE,
        ;
        assert(0 <= start <= end) by (nonlinear_arith)
            requires
                start == id * PAGE_SIZE,
                end == (id + 1) * PAGE_SIZE,
        ;
        assert(blob_page(image_blob(pages, n), id as int) =~= blob_page(shorter, id as int));
    }
}

} // verus!
