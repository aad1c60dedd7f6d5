//! Opening a persistent database.

use crate::browser::buffer::{
    batch_bytes, declared_count, evicted, overlay, pin_fault, prefix_view, read_outcome,
    sparse_image_fault, sparse_image_ok, BrowserBufferBackend, BufferView,
};
use crate::browser::buffer_error::BufferError;
use crate::browser::db::{header_image, take_dirty_pages, DirtyPageError};
use crate::browser::guard::BrowserOpenMode;
use crate::browser::image::lists_image;
use crate::browser::mutation::{dirty_readable, found_pins, publishes_dirty};
use crate::browser::paging::{
    authority_accepts, authority_fault, authority_pin_ids, configure_sparse_authority,
    insert_bootstrap_pages, is_authority_pin, BrowserPageRange, ManifestCandidate,
};
use crate::collections::page_bytes;
use crate::storage::{
    header_of, header_read_fault, is_paged_format, paged_format, FileHeader, StorageError,
};
use std::collections::{HashMap, HashSet};
use vstd::prelude::*;
use vstd::string::*;

verus! {

broadcast use vstd::std_specs::hash::group_hash_axioms;

/// How to go about opening a store.
#[derive(Clone, Copy, Debug, PartialEq, Eq, Structural)]
pub enum OpenPlan {
    /// There is no page 0: the store must be empty, and gets a fresh image.
    CreateImage,
    /// Load the metadata and leave the rest on demand.
    LoadSparsely,
    /// Load every page and migrate the image.
    LoadAndMigrate,
}

/// The plan for a stored page 0, or why it cannot be opened.
pub open spec fn open_plan(page_zero: Option<Seq<u8>>) -> Result<OpenPlan, StorageError> {
    match page_zero {
        None => Ok(OpenPlan::CreateImage),
        Some(page) => match header_read_fault(page) {
            Some(fault) => Err(fault),
            None => if paged_format(header_of(page).version) {
                Ok(OpenPlan::LoadSparsely)
            } else {
                Ok(OpenPlan::LoadAndMigrate)
            },
        },
    }
}

/// Plan the opening of a store.
pub fn plan_open(page_zero: &Option<Vec<u8>>) -> (result: Result<OpenPlan, StorageError>)
    ensures
        result == open_plan(
            match *page_zero {
                Some(page) => Some(page@),
                None => None,
            },
        ),
{
    match page_zero {
        None => Ok(OpenPlan::CreateImage),
        Some(page) => match FileHeader::from_bytes(page.as_slice()) {
            Err(fault) => Err(fault),
            Ok(header) => {
                if is_paged_format(header.version) {
                    Ok(OpenPlan::LoadSparsely)
                } else {
                    Ok(OpenPlan::LoadAndMigrate)
                }
            },
        },
    }
}

/// A store holds pages but no page 0.
#[derive(Clone, Copy, Debug, PartialEq, Eq, Structural)]
pub struct OrphanPages;

impl OrphanPages {
    /// Render this error for a caller.
    pub fn message(&self) -> (text: &'static str)
        ensures
            text@ == "IndexedDB contains page records but published page 0 is missing"@,
    {
        "IndexedDB contains page records but published page 0 is missing"
    }
}

/// Accept a store without page 0 as a fresh one.
pub fn admit_fresh_store(numeric_pages: u64) -> (result: Result<(), OrphanPages>)
    ensures
        result == if numeric_pages == 0 {
            Ok::<(), OrphanPages>(())
        } else {
            Err(OrphanPages)
        },
{
    if numeric_pages != 0 {
        return Err(OrphanPages);
    }
    Ok(())
}

/// Make the buffer of an image that holds only its header page.
pub fn fresh_buffer(page_zero: Vec<u8>, mode: BrowserOpenMode) -> (result: Result<
    BrowserBufferBackend,
    BufferError,
>)
    ensures
        ({
            let pages = header_image(page_zero@);
            let pinned = Set::<u64>::empty().insert(0);
            match result {
                Ok(buffer) => if mode == BrowserOpenMode::Paged {
                    &&& sparse_image_ok(pages, 1, pinned)
                    &&& buffer@ == (BufferView {
                        pages,
                        dirty: Set::empty(),
                        pinned,
                        logical_page_count: 1,
                        sparse: true,
                    })
                } else {
                    buffer@ == (BufferView {
                        pages,
                        dirty: Set::empty(),
                        pinned: Set::empty(),
                        logical_page_count: 1,
                        sparse: false,
                    })
                },
                Err(fault) => {
                    &&& mode == BrowserOpenMode::Paged
                    &&& !sparse_image_ok(pages, 1, pinned)
                    &&& sparse_image_fault(pages, 1, pinned, fault)
                },
            }
        }),
{
    let mut pages: HashMap<u64, Vec<u8>> = HashMap::new();
    pages.insert(0, page_zero);
    assert(page_bytes(pages@) =~= header_image(page_zero@));
    if mode.is_paged() {
        let mut pinned: HashSet<u64> = HashSet::new();
        pinned.insert(0);
        return BrowserBufferBackend::load_sparse_pages(pages, 1, pinned);
    }
    Ok(BrowserBufferBackend::load_pages(pages))
}

/// What follows an attempt to open sparsely.
#[derive(Clone, Copy, Debug, PartialEq, Eq, Structural)]
pub enum SparseOutcome {
    /// Use the sparse image.
    Use,
    /// Make the rest of the image resident, then use it.
    Prefetch,
    /// Load every page instead.
    LoadAndMigrate,
    /// Report the error: a paged open never falls back silently.
    Report,
}

/// Decide what follows an attempt to open sparsely.
pub fn after_sparse_open(mode: BrowserOpenMode, succeeded: bool) -> (outcome: SparseOutcome)
    ensures
        outcome == match (mode, succeeded) {
            (BrowserOpenMode::Paged, true) => SparseOutcome::Use,
            (BrowserOpenMode::EagerCompatibility, true) => SparseOutcome::Prefetch,
            (BrowserOpenMode::EagerCompatibility, false) => SparseOutcome::LoadAndMigrate,
            (BrowserOpenMode::Paged, false) => SparseOutcome::Report,
        },
{
    match mode {
        BrowserOpenMode::Paged => {
            if succeeded {
                SparseOutcome::Use
            } else {
                SparseOutcome::Report
            }
        },
        BrowserOpenMode::EagerCompatibility => {
            if succeeded {
                SparseOutcome::Prefetch
            } else {
                SparseOutcome::LoadAndMigrate
            }
        },
    }
}

/// Metadata pages gathered for a sparse open, each of them pinned.
pub struct SparseBootstrap {
    pages: HashMap<u64, Vec<u8>>,
    pinned: HashSet<u64>,
}

/// What a bootstrap has gathered.
#[verifier::ext_equal]
pub struct BootstrapView {
    /// The pages.
    pub pages: Map<u64, Seq<u8>>,
    /// The pinned page ids.
    pub pinned: Set<u64>,
}

impl View for SparseBootstrap {
    type V = BootstrapView;

    closed spec fn view(&self) -> BootstrapView {
        BootstrapView { pages: page_bytes(self.pages@), pinned: self.pinned@ }
    }
}

impl SparseBootstrap {
    /// Start with page 0.
    pub fn new(page_zero: Vec<u8>) -> (bootstrap: Self)
        ensures
            bootstrap@ == (BootstrapView {
                pages: header_image(page_zero@),
                pinned: Set::<u64>::empty().insert(0),
            }),
    {
        let mut pages: HashMap<u64, Vec<u8>> = HashMap::new();
        let mut pinned: HashSet<u64> = HashSet::new();
        pages.insert(0, page_zero);
        pinned.insert(0);
        assert(page_bytes(pages@) =~= header_image(page_zero@));
        SparseBootstrap { pages, pinned }
    }

    /// Add the pages of one loaded range. A candidate range that could not be
    /// loaded is passed over.
    pub fn add_range(&mut self, loaded: Option<Vec<(u64, Vec<u8>)>>)
        ensures
            match loaded {
                None => final(self)@ == old(self)@,
                Some(loaded) => {
                    &&& final(self)@.pages == overlay(old(self)@.pages, batch_bytes(loaded@))
                    &&& forall|id: u64|
                        final(self)@.pinned.contains(id) <==> old(self)@.pinned.contains(id)
                            || exists|i: int|
                            0 <= i < loaded@.len() && (#[trigger] loaded@[i]).0 == id
                },
            },
    {
        if let Some(loaded) = loaded {
            insert_bootstrap_pages(&mut self.pages, &mut self.pinned, loaded);
        }
    }

    /// Make the sparse buffer of an image that publishes `page_count` pages.
    pub fn into_backend(self, page_count: u64) -> (result: Result<
        BrowserBufferBackend,
        BufferError,
    >)
        ensures
            match result {
                Ok(buffer) => {
                    &&& sparse_image_ok(self@.pages, page_count, self@.pinned)
                    &&& buffer@ == (BufferView {
                        pages: self@.pages,
                        dirty: Set::empty(),
                        pinned: self@.pinned,
                        logical_page_count: page_count,
                        sparse: true,
                    })
                    &&& buffer@.wf()
                },
                Err(fault) => {
                    &&& !sparse_image_ok(self@.pages, page_count, self@.pinned)
                    &&& sparse_image_fault(self@.pages, page_count, self@.pinned, fault)
                },
            },
    {
        BrowserBufferBackend::load_sparse_pages(self.pages, page_count, self.pinned)
    }
}

/// Reduce the pins of a bootstrapped buffer to the metadata that the selected
/// plan needs.
pub fn pin_selected_authority(
    backend: &mut BrowserBufferBackend,
    required: &Vec<BrowserPageRange>,
    candidates: &Vec<ManifestCandidate>,
) -> (result: Result<(), BufferError>)
    ensures
        ({
            let pins = Set::new(
                |id: u64| is_authority_pin(required@, candidates@, old(backend)@, id),
            );
            match result {
                Ok(_) => {
                    &&& forall|id: u64| #[trigger]
                        pins.contains(id) ==> pin_fault(old(backend)@, id) is None
                    &&& final(backend)@ == (BufferView { pinned: pins, ..old(backend)@ })
                },
                Err(fault) => {
                    &&& exists|id: u64| #[trigger]
                        pins.contains(id) && pin_fault(old(backend)@, id) == Some(fault)
                    &&& final(backend)@ == old(backend)@
                },
            }
        }),
        old(backend)@.wf() ==> final(backend)@.wf(),
{
    let pins = authority_pin_ids(required, candidates, backend);
    backend.replace_pinned_pages(pins)
}

/// The authority pins of a sparse buffer that holds page 0, and whose resident
/// pages all lie inside its image, are always accepted.
pub proof fn law_authority_pins_are_resident(
    view: BufferView,
    required: Seq<BrowserPageRange>,
    candidates: Seq<ManifestCandidate>,
    id: u64,
)
    requires
        view.pages.contains_key(0),
        forall|id: u64| #[trigger] view.pages.contains_key(id) ==> id < view.logical_page_count,
        is_authority_pin(required, candidates, view, id),
    ensures
        pin_fault(view, id) is None,
{
}

/// The report of an image that cannot be opened page by page.
pub open spec fn refusal_text(reason: Seq<char>) -> Seq<char> {
    "openPaged cannot silently fall back to eager residency: "@ + reason
}

fn paged_open_refusal(reason: &str) -> (text: String)
    ensures
        text@ == refusal_text(reason@),
{
    let mut out = String::new();
    out.append("openPaged cannot silently fall back to eager residency: ");
    out.append(reason);
    assert(out@ =~= refusal_text(reason@));
    out
}

/// How the pages of a migrated image are made durable.
#[derive(Debug)]
pub enum MigrationAction {
    /// Nothing changed.
    Keep,
    /// Write the changed pages.
    WriteChanged(Vec<(u64, Vec<u8>)>),
    /// Replace the store by these pages: the image has shrunk, and stale pages
    /// must go.
    ReplaceStore(Vec<(u64, Vec<u8>)>),
}

/// An image that was loaded whole, whose changes have to be made durable.
pub struct MigratedImage {
    buffer: BrowserBufferBackend,
}

impl View for MigratedImage {
    type V = BufferView;

    closed spec fn view(&self) -> BufferView {
        self.buffer@
    }
}

/// A migrated image without its unpublished tail.
pub open spec fn published_part(view: BufferView) -> BufferView {
    prefix_view(view, declared_count(view.pages)->Ok_0)
}

/// Why a migrated image cannot be closed: its page 0 declares no page count, or
/// a changed page cannot be read.
pub open spec fn migration_fault(view: BufferView, text: Seq<char>) -> bool {
    match declared_count(view.pages) {
        Err(error) => text == error.text(),
        Ok(_) => exists|fault: DirtyPageError|
            published_part(view).dirty.contains(fault.page_id) && read_outcome(
                published_part(view),
                fault.page_id,
            ) == Err::<Seq<u8>, BufferError>(fault.error) && text == #[trigger] fault.text(),
    }
}

impl MigratedImage {
    /// Close an image that the engine has read and may have migrated: drop its
    /// unpublished tail, and decide how its changes are made durable.
    pub fn new(buffer: BrowserBufferBackend, existing_page_count: u64) -> (result: Result<
        (Self, MigrationAction),
        String,
    >)
        ensures
            match result {
                Ok((image, action)) => {
                    let published = published_part(buffer@);
                    &&& declared_count(buffer@.pages) is Ok
                    &&& image@ == (BufferView { dirty: Set::empty(), ..published })
                    &&& match action {
                        MigrationAction::Keep => published.dirty.len() == 0,
                        MigrationAction::WriteChanged(pages) => {
                            &&& published.dirty.len() > 0
                            &&& published.logical_page_count >= existing_page_count
                            &&& publishes_dirty(published, pages@)
                        },
                        MigrationAction::ReplaceStore(pages) => {
                            &&& published.dirty.len() > 0
                            &&& published.logical_page_count < existing_page_count
                            &&& lists_image(published, pages@)
                        },
                    }
                },
                Err(text) => migration_fault(buffer@, text@),
            },
            result is Ok <==> declared_count(buffer@.pages) is Ok && dirty_readable(
                published_part(buffer@),
            ),
    {
        let mut buffer = buffer;
        let declared: u64 = match buffer.retain_declared_prefix() {
            Ok(count) => count,
            Err(fault) => {
                let text = fault.message();
                assert(text@ == fault.text());
                return Err(text);
            },
        };
        let ghost published = buffer@;
        let changed = match take_dirty_pages(&mut buffer) {
            Ok(changed) => changed,
            Err(fault) => {
                let text = fault.message();
                assert(text@ == fault.text());
                return Err(text);
            },
        };
        assert(publishes_dirty(published, changed@));
        let action = if changed.len() == 0 {
            MigrationAction::Keep
        } else if declared < existing_page_count {
            MigrationAction::ReplaceStore(buffer.all_pages())
        } else {
            MigrationAction::WriteChanged(changed)
        };
        Ok((MigratedImage { buffer }, action))
    }

    /// The image.
    pub fn buffer(&self) -> (buffer: &BrowserBufferBackend)
        ensures
            buffer@ == self@,
    {
        &self.buffer
    }

    /// Settle the residency of an image whose changes are durable. A paged open
    /// gives up everything but the authority of the image, and fails where it
    /// cannot: it never stays eager silently. `pins` are the image's authority
    /// pins, or why they could not be determined.
    pub fn settle(self, mode: BrowserOpenMode, pins: Result<HashSet<u64>, String>) -> (result:
        Result<(BrowserBufferBackend, bool), String>)
        ensures
            ({
                let paged = mode == BrowserOpenMode::Paged;
                let accepted = paged ==> pins is Ok && authority_accepts(self@, found_pins(pins));
                match result {
                    Ok((buffer, sparse)) => {
                        &&& accepted
                        &&& sparse == paged
                        &&& if paged {
                            evicted(
                                BufferView { pinned: found_pins(pins), sparse: true, ..self@ },
                                0,
                                buffer@,
                            )
                        } else {
                            buffer@ == self@
                        }
                    },
                    Err(text) => {
                        &&& !accepted
                        &&& match pins {
                            Err(reason) => text@ == refusal_text(reason@),
                            Ok(pins) => exists|fault: BufferError|
                                authority_fault(self@, pins@, fault) && text@ == refusal_text(
                                    #[trigger] fault.text(),
                                ),
                        }
                    },
                }
            }),
    {
        let mut buffer = self.buffer;
        if !mode.is_paged() {
            return Ok((buffer, false));
        }
        let pins = match pins {
            Ok(pins) => pins,
            Err(reason) => return Err(paged_open_refusal(reason.as_str())),
        };
        if let Err(fault) = configure_sparse_authority(&mut buffer, pins) {
            let reason = fault.message();
            assert(reason@ == fault.text());
            return Err(paged_open_refusal(reason.as_str()));
        }
        let _removed = buffer.evict_all_clean_unpinned();
        Ok((buffer, true))
    }
}

/// A store is opened by what its page 0 says: without one it gets a fresh image,
/// a page 0 that is too short is refused, one of a format that can be paged is
/// loaded sparsely, and any other is loaded whole and migrated.
pub proof fn law_page_zero_decides_how_to_open(page: Seq<u8>)
    ensures
        open_plan(None) == Ok::<OpenPlan, StorageError>(OpenPlan::CreateImage),
        page.len() < 84 <==> open_plan(Some(page)) is Err,
        page.len() >= 84 && (header_of(page).version == 12 || header_of(page).version == 13)
            <==> open_plan(Some(page)) == Ok::<OpenPlan, StorageError>(OpenPlan::LoadSparsely),
        page.len() >= 84 && header_of(page).version != 12 && header_of(page).version != 13
            <==> open_plan(Some(page)) == Ok::<OpenPlan, StorageError>(OpenPlan::LoadAndMigrate),
{
}

/// The published part of a migrated image holds exactly the resident pages below
/// the page count that page 0 declares, with their bytes, and counts that many
/// pages; of the changed pages it keeps those that it holds.
pub proof fn law_published_part_ends_at_the_declared_count(view: BufferView, id: u64)
    requires
        declared_count(view.pages) is Ok,
    ensures
        ({
            let count = declared_count(view.pages)->Ok_0;
            let part = published_part(view);
            &&& part.pages.contains_key(id) <==> view.pages.contains_key(id) && id < count
            &&& part.pages.contains_key(id) ==> part.pages[id] == view.pages[id]
            &&& part.dirty.contains(id) <==> view.dirty.contains(id) && id < count
            &&& part.pinned.contains(id) <==> view.pinned.contains(id) && id < count
            &&& part.logical_page_count == count
            &&& part.sparse == view.sparse
        }),
{
}

} // verus!
