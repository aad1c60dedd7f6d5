//! Replacing the live image by another one: recompaction and import.
//!
//! A replacement is built beside the live image and made durable first. Only
//! then does the handle go on with it, so a refused replacement changes neither
//! the live image nor the stored one. Every stage is a value that the next
//! stage consumes.

use crate::browser::buffer::{
    batch_bytes, complete_prefix, declared_count, evicted, exportable, overlay, resident_prefix,
    sparse_candidate, sparse_candidate_fault, BrowserBufferBackend, BufferView,
};
use crate::browser::buffer_error::BufferError;
use crate::browser::db::{installed, BrowserDb};
use crate::browser::guard::BrowserOpenMode;
use crate::browser::image::{
    admit_import, authority_refusal, consults_pins, image_blob, image_pages, import_becomes_sparse,
    import_needs_authority, import_refusal, law_export_then_import, lemma_blob_of_prefix,
    lists_image, page_zero_version, recorded_version, seal_import, sealed_view, unknown_pins_text,
    BrowserImportPolicy, ImportError,
};
use crate::browser::maintenance::{
    maintenance_due, ready_paged_candidate, run_fields, run_report,
};
use crate::browser::mutation::found_pins;
use crate::browser::paging::{authority_accepts, authority_fault};
use crate::browser::write::DeltaMaintenanceDecision;
use crate::json::json_text;
use crate::storage::{header_of, PAGE_SIZE};
use std::collections::HashSet;
use vstd::prelude::*;
use vstd::string::*;

verus! {

/// An image that becomes live once it is durable.
pub struct PendingReplacement {
    buffer: BrowserBufferBackend,
    paged: bool,
    report: String,
}

/// An image that waits to become live.
#[verifier::ext_equal]
pub struct PendingReplacementView {
    /// The image.
    pub buffer: BufferView,
    /// Whether the handle then pages.
    pub paged: bool,
    /// What to report of it.
    pub report: Seq<char>,
}

impl View for PendingReplacement {
    type V = PendingReplacementView;

    closed spec fn view(&self) -> PendingReplacementView {
        PendingReplacementView { buffer: self.buffer@, paged: self.paged, report: self.report@ }
    }
}

impl PendingReplacement {
    /// Replace the live image by one that was read back from the page store.
    pub fn reopened(buffer: BrowserBufferBackend, paged: bool, report: String) -> (replacement:
        Self)
        ensures
            replacement@ == (PendingReplacementView { buffer: buffer@, paged, report: report@ }),
    {
        PendingReplacement { buffer, paged, report }
    }

    /// Go on with the image, if it was made durable, and hand out its report. A
    /// replacement that was not leaves the handle as it is.
    pub fn settle(self, db: &mut BrowserDb, durable: Result<(), String>) -> (result: Result<
        String,
        String,
    >)
        ensures
            match durable {
                Ok(_) => {
                    &&& result is Ok
                    &&& result->Ok_0@ == self@.report
                    &&& final(db)@ == installed(old(db)@, self@.buffer, self@.paged)
                },
                Err(error) => {
                    &&& result is Err
                    &&& result->Err_0@ == error@
                    &&& final(db)@ == old(db)@
                },
            },
    {
        match db.install(durable, self.buffer, self.paged) {
            Ok(_) => Ok(self.report),
            Err(error) => Err(error),
        }
    }
}

/// How maintenance starts.
pub enum MaintenanceStart {
    /// There is nothing to do. This is the report.
    Noop(String),
    /// Build a compact copy of the whole history.
    Recompact(PendingCompaction),
}

/// A recompaction whose copy has to be built.
pub struct PendingCompaction {
    decision: DeltaMaintenanceDecision,
    before_pages: u64,
}

/// A recompaction whose copy has to be built.
pub struct PendingCompactionView {
    /// What the delta lineage asked for.
    pub decision: DeltaMaintenanceDecision,
    /// Pages of the image that is compacted.
    pub before_pages: u64,
}

impl View for PendingCompaction {
    type V = PendingCompactionView;

    closed spec fn view(&self) -> PendingCompactionView {
        PendingCompactionView { decision: self.decision, before_pages: self.before_pages }
    }
}

impl BrowserDb {
    /// Start maintenance: a persistent database whose delta lineage has grown,
    /// or that is forced, is recompacted.
    pub fn start_maintenance(&self, decision: DeltaMaintenanceDecision, force: bool) -> (start:
        MaintenanceStart)
        ensures
            ({
                let due = self@.persistent && (force || decision
                    != DeltaMaintenanceDecision::ContinueDeltaAppend);
                let before_pages = self@.buffer.logical_page_count;
                match start {
                    MaintenanceStart::Noop(report) => !due && report@ == json_text(
                        run_fields(decision, before_pages, None),
                    ),
                    MaintenanceStart::Recompact(pending) => due && pending@
                        == (PendingCompactionView { decision, before_pages }),
                }
            }),
    {
        let before_pages: u64 = match self.buffer().page_count_raw() {
            Ok(count) => count,
            Err(_) => 0,
        };
        if maintenance_due(self.is_persistent(), force, decision) {
            MaintenanceStart::Recompact(PendingCompaction { decision, before_pages })
        } else {
            MaintenanceStart::Noop(run_report(decision, before_pages, None))
        }
    }
}

/// A compact copy whose pages count as flushed.
pub open spec fn flushed(view: BufferView) -> BufferView {
    BufferView { dirty: Set::empty(), ..view }
}

/// A handle that was asked to page gets a copy that pages: its authority is
/// pinned, and the rest is given up. Any other handle keeps the whole copy.
pub open spec fn residency_settled(
    candidate: BufferView,
    paged: bool,
    pins: Set<u64>,
    after: BufferView,
) -> bool {
    if paged {
        evicted(BufferView { pinned: pins, sparse: true, ..flushed(candidate) }, 0, after)
    } else {
        after == flushed(candidate)
    }
}

impl PendingCompaction {
    /// Take in the compact copy: list its pages for the page store, and settle
    /// which of them stay resident. `pins` are the copy's authority pins, or
    /// why they could not be determined.
    pub fn built(
        self,
        open_mode: BrowserOpenMode,
        candidate: BrowserBufferBackend,
        pins: Result<HashSet<u64>, String>,
    ) -> (result: Result<(Vec<(u64, Vec<u8>)>, PendingReplacement), String>)
        ensures
            ({
                let paged = open_mode == BrowserOpenMode::Paged;
                let accepted = paged ==> pins is Ok && authority_accepts(
                    flushed(candidate@),
                    found_pins(pins),
                );
                match result {
                    Ok((pages, replacement)) => {
                        &&& accepted
                        &&& lists_image(candidate@, pages@)
                        &&& replacement@.paged == paged
                        &&& replacement@.report == json_text(
                            run_fields(
                                self@.decision,
                                self@.before_pages,
                                Some(pages@.len() as u64),
                            ),
                        )
                        &&& residency_settled(
                            candidate@,
                            paged,
                            found_pins(pins),
                            replacement@.buffer,
                        )
                    },
                    Err(text) => {
                        &&& !accepted
                        &&& match pins {
                            Err(reason) => text@ == reason@,
                            Ok(pins) => exists|fault: BufferError|
                                authority_fault(flushed(candidate@), pins@, fault) && text@
                                    == #[trigger] fault.text(),
                        }
                    },
                }
            }),
    {
        let mut candidate = candidate;
        let pages = candidate.all_pages();
        let paged = open_mode.is_paged();
        if paged {
            let pins = match pins {
                Ok(pins) => pins,
                Err(reason) => return Err(reason),
            };
            if let Err(fault) = ready_paged_candidate(&mut candidate, pins) {
                let text = fault.message();
                assert(text@ == fault.text());
                return Err(text);
            }
        } else {
            let _flushed = candidate.take_dirty();
        }
        let after_pages: u64 = pages.len() as u64;
        let report = run_report(self.decision, self.before_pages, Some(after_pages));
        Ok((pages, PendingReplacement { buffer: candidate, paged, report }))
    }
}

/// An imported image whose residency is not settled yet.
pub struct SealedImport {
    buffer: BrowserBufferBackend,
    pages: Vec<(u64, Vec<u8>)>,
    version: u32,
}

/// An imported image.
#[verifier::ext_equal]
pub struct SealedImportView {
    /// The image.
    pub buffer: BufferView,
    /// Its pages, for the page store.
    pub pages: Seq<(u64, Vec<u8>)>,
    /// Its format.
    pub version: u32,
}

impl View for SealedImport {
    type V = SealedImportView;

    closed spec fn view(&self) -> SealedImportView {
        SealedImportView { buffer: self.buffer@, pages: self.pages@, version: self.version }
    }
}

/// Why an import cannot be sealed: its page 0 declares no page count, or
/// records no format.
pub open spec fn seal_fault(view: BufferView) -> Option<ImportError> {
    match declared_count(view.pages) {
        Err(error) => Some(ImportError::Buffer(error)),
        Ok(_) => match recorded_version(sealed_view(view)) {
            Err(error) => Some(ImportError::Buffer(error)),
            Ok(_) => None,
        },
    }
}

impl SealedImport {
    /// Close an image that the engine has read: drop its unpublished tail and
    /// list every page that has to be stored.
    pub fn new(buffer: BrowserBufferBackend) -> (result: Result<Self, ImportError>)
        ensures
            match result {
                Ok(sealed) => {
                    &&& seal_fault(buffer@) is None
                    &&& sealed@.buffer == sealed_view(buffer@)
                    &&& lists_image(sealed@.buffer, sealed@.pages)
                    &&& recorded_version(sealed@.buffer) == Ok::<u32, BufferError>(sealed@.version)
                },
                Err(fault) => seal_fault(buffer@) == Some(fault),
            },
    {
        let mut buffer = buffer;
        let pages = match seal_import(&mut buffer) {
            Ok(pages) => pages,
            Err(fault) => return Err(fault),
        };
        match page_zero_version(&buffer) {
            Ok(version) => Ok(SealedImport { buffer, pages, version }),
            Err(fault) => Err(ImportError::Buffer(fault)),
        }
    }

    /// The image.
    pub fn buffer(&self) -> (buffer: &BrowserBufferBackend)
        ensures
            buffer@ == self@.buffer,
    {
        &self.buffer
    }

    /// Whether the import consults the authority pins of the image.
    pub fn needs_authority(&self, policy: BrowserImportPolicy, open_mode: BrowserOpenMode) -> (needed:
        bool)
        ensures
            needed == consults_pins(policy, open_mode, self@.version),
    {
        import_needs_authority(policy, open_mode, self.version)
    }

    /// Settle which pages of the image stay resident. `pins` are its authority
    /// pins, or why they could not be determined.
    pub fn accept(
        self,
        policy: BrowserImportPolicy,
        open_mode: BrowserOpenMode,
        pins: Result<HashSet<u64>, String>,
    ) -> (result: Result<(Vec<(u64, Vec<u8>)>, PendingReplacement), String>)
        ensures
            ({
                let image = self@.buffer;
                let found = found_pins(pins);
                let sparse = import_becomes_sparse(open_mode, self@.version);
                let strict = policy == BrowserImportPolicy::RequirePagedReady;
                let pins_known = consults_pins(policy, open_mode, self@.version) ==> pins is Ok;
                let refusal = import_refusal(policy, open_mode, self@.version);
                match result {
                    Ok((pages, replacement)) => {
                        &&& refusal is None
                        &&& pins_known
                        &&& strict ==> sparse_candidate(image, found)
                        &&& sparse ==> authority_accepts(image, found)
                        &&& pages@ == self@.pages
                        &&& replacement@.paged == sparse
                        &&& replacement@.report == Seq::<char>::empty()
                        &&& if sparse {
                            evicted(
                                BufferView { pinned: found, sparse: true, ..image },
                                0,
                                replacement@.buffer,
                            )
                        } else {
                            replacement@.buffer == image
                        }
                    },
                    Err(text) => if refusal is Some {
                        text@ == refusal->0.text()
                    } else if !pins_known {
                        text@ == unknown_pins_text(policy, pins->Err_0@)
                    } else if strict && !sparse_candidate(image, found) {
                        exists|fault: BufferError|
                            sparse_candidate_fault(image, found, fault) && text@
                                == #[trigger] ImportError::StrictNotReady(fault).text()
                    } else {
                        &&& sparse && !authority_accepts(image, found)
                        &&& exists|fault: BufferError|
                            authority_fault(image, found, fault) && text@ == #[trigger] fault.text()
                    },
                }
            }),
    {
        let needed = import_needs_authority(policy, open_mode, self.version);
        let ghost given = pins;
        let pins = match pins {
            Ok(pins) => pins,
            Err(reason) => {
                if needed {
                    let text = authority_refusal(policy, reason.as_str());
                    assert(text@ =~= unknown_pins_text(policy, reason@));
                    return Err(text);
                }
                let none: HashSet<u64> = HashSet::new();
                none
            },
        };
        assert(pins@ =~= found_pins(given));
        let mut buffer = self.buffer;
        match admit_import(&mut buffer, policy, open_mode, self.version, pins) {
            Ok(paged) => {
                let report = String::new();
                assert(report@ =~= Seq::<char>::empty());
                Ok((self.pages, PendingReplacement { buffer, paged, report }))
            },
            Err(fault) => {
                let text = fault.message();
                assert(text@ == fault.text());
                proof {
                    if let ImportError::StrictNotReady(error) = fault {
                        assert(text@ == ImportError::StrictNotReady(error).text());
                    }
                    if let ImportError::Buffer(error) = fault {
                        assert(text@ == error.text());
                    }
                }
                Err(text)
            },
        }
    }
}

/// Importing an exported image and exporting it again gives the same bytes.
///
/// `pages` is the image that was exported, and `imported` is a buffer that
/// holds the pages of the blob. The blob is page aligned and splits into pages,
/// the image can be sealed, a handle that keeps it whole takes it whatever its
/// format, and the sealed image is exportable, declares the same page count and
/// joins to the same blob. So does a page store that holds the listed pages.
pub proof fn law_imported_export_is_byte_exact(pages: Map<u64, Seq<u8>>, imported: BufferView)
    requires
        exportable(pages),
        pages.contains_key(0),
        imported.pages == image_pages(
            image_blob(pages, declared_count(pages)->Ok_0 as nat),
        ),
    ensures
        ({
            let count = declared_count(pages)->Ok_0;
            let blob = image_blob(pages, count as nat);
            let sealed = sealed_view(imported);
            let policy = BrowserImportPolicy::RecoveryCompatible;
            let mode = BrowserOpenMode::EagerCompatibility;
            let version = header_of(pages[0]).version;
            &&& blob.len() >= PAGE_SIZE
            &&& blob.len() % PAGE_SIZE as nat == 0
            &&& seal_fault(imported) is None
            &&& recorded_version(sealed) == Ok::<u32, BufferError>(version)
            &&& import_refusal(policy, mode, version) is None
            &&& !consults_pins(policy, mode, version)
            &&& !import_becomes_sparse(mode, version)
            &&& exportable(sealed.pages)
            &&& declared_count(sealed.pages) == declared_count(pages)
            &&& image_blob(sealed.pages, count as nat) == blob
            &&& forall|stored: Seq<(u64, Vec<u8>)>| #[trigger]
                lists_image(sealed, stored) ==> image_blob(
                    overlay(Map::empty(), batch_bytes(stored)),
                    count as nat,
                ) == blob
        }),
{
    let count = declared_count(pages)->Ok_0;
    let blob = image_blob(pages, count as nat);
    let sealed = sealed_view(imported);
    crate::browser::buffer_laws::lemma_exportable_prefix(pages);
    assert(!pages.is_empty());
    law_export_then_import(pages, count);
    assert(blob.len() % PAGE_SIZE as nat == 0 && blob.len() >= PAGE_SIZE) by (nonlinear_arith)
        requires
            blob.len() == count * PAGE_SIZE,
            count > 0,
            PAGE_SIZE == 4096,
    ;
    assert(pages.contains_key(0u64));
    assert(imported.pages.contains_key(0u64) && imported.pages[0u64] == pages[0u64]);
    assert(!imported.pages.is_empty());
    assert(declared_count(imported.pages) == declared_count(pages));
    assert forall|id: u64| id < count implies #[trigger] sealed.pages.contains_key(id)
        && sealed.pages[id].len() == PAGE_SIZE && sealed.pages[id] == pages[id] by {
        assert(pages.contains_key(id));
        assert(resident_prefix(imported.pages, count).contains(id));
    }
    assert(sealed.pages.contains_key(0u64) && sealed.pages[0u64] == pages[0u64]);
    assert(!sealed.pages.is_empty());
    assert(complete_prefix(sealed.pages, count));
    crate::browser::buffer_laws::lemma_exportable_prefix(sealed.pages);
    assert forall|id: u64| id < count implies #[trigger] sealed.pages[id] == pages[id] by {
        assert(sealed.pages.contains_key(id));
    }
    lemma_blob_of_prefix(sealed.pages, pages, count as nat, count);
}

} // verus!
