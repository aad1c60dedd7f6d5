//! Synchronous in-memory page buffer with dirty-page tracking.
//!
//! A buffer holds resident pages of one graph image. An eager buffer holds the
//! whole image; a sparse buffer holds a part of it, reports which page it needs
//! next, and gives clean pages up again.

use crate::browser::buffer_error::{BufferError, PageNotResident};
use crate::collections::{ascending, member_ids, page_bytes, resident_ids, strictly_ascending};
use crate::storage::{
    header_fault, header_of, header_read_fault, is_paged_format, paged_format, FileHeader,
    PAGE_SIZE,
};
use std::collections::{HashMap, HashSet};
use vstd::prelude::*;

verus! {

broadcast use vstd::std_specs::hash::group_hash_axioms;

/// What a buffer holds.
#[verifier::ext_equal]
pub struct BufferView {
    /// Resident pages.
    pub pages: Map<u64, Seq<u8>>,
    /// Pages written since the last drain.
    pub dirty: Set<u64>,
    /// Pages that stay resident while clean.
    pub pinned: Set<u64>,
    /// Size of the backing image.
    pub logical_page_count: u64,
    /// Whether part of the image may be absent.
    pub sparse: bool,
}

impl BufferView {
    /// Every dirty and every pinned page is resident.
    pub open spec fn wf(self) -> bool {
        &&& self.pages.dom().finite()
        &&& self.dirty.subset_of(self.pages.dom())
        &&& self.pinned.subset_of(self.pages.dom())
    }

    /// Pages that eviction may remove.
    pub open spec fn evictable(self) -> Set<u64> {
        self.pages.dom().difference(self.dirty).difference(self.pinned)
    }
}

/// The error, if any, of a page that is not exactly one page long.
pub open spec fn page_fault(page_id: u64, page: Seq<u8>) -> Option<BufferError> {
    if page.len() != PAGE_SIZE {
        Some(BufferError::InvalidPageLength { page_id, len: page.len() as usize })
    } else {
        None
    }
}

/// The error, if any, of one resident page of a sparse image.
pub open spec fn resident_fault(page_id: u64, page: Seq<u8>, declared: u64) -> Option<BufferError> {
    if page.len() != PAGE_SIZE {
        page_fault(page_id, page)
    } else if page_id >= declared {
        Some(BufferError::ResidentOutsideDeclared { page_id, declared })
    } else {
        None
    }
}

/// The error, if any, of the header page of a sparse image.
pub open spec fn sparse_header_fault(page: Seq<u8>, declared: u64) -> Option<BufferError> {
    let header = header_of(page);
    if let Some(fault) = header_read_fault(page) {
        Some(BufferError::Header(fault))
    } else if let Some(fault) = header_fault(header) {
        Some(BufferError::Header(fault))
    } else if !paged_format(header.version) {
        Some(BufferError::UnsupportedSparseVersion { version: header.version })
    } else if header.page_count != declared {
        Some(BufferError::PageCountMismatch { published: header.page_count, declared })
    } else {
        None
    }
}

/// Some resident page of a sparse image is faulty.
pub open spec fn has_resident_fault(pages: Map<u64, Seq<u8>>, declared: u64) -> bool {
    exists|id: u64| #[trigger]
        pages.contains_key(id) && resident_fault(id, pages[id], declared) is Some
}

/// Some pin has no resident page.
pub open spec fn has_absent_pin(pages: Map<u64, Seq<u8>>, pinned: Set<u64>) -> bool {
    exists|id: u64| #[trigger] pinned.contains(id) && !pages.contains_key(id)
}

/// A sparse buffer can be made of these pages and pins.
pub open spec fn sparse_image_ok(
    pages: Map<u64, Seq<u8>>,
    declared: u64,
    pinned: Set<u64>,
) -> bool {
    &&& declared > 0
    &&& !has_resident_fault(pages, declared)
    &&& !has_absent_pin(pages, pinned)
    &&& pages.contains_key(0)
    &&& sparse_header_fault(pages[0], declared) is None
}

/// `fault` is a reason to refuse these pages and pins.
pub open spec fn sparse_image_fault(
    pages: Map<u64, Seq<u8>>,
    declared: u64,
    pinned: Set<u64>,
    fault: BufferError,
) -> bool {
    if declared == 0 {
        fault == BufferError::EmptySparseImage
    } else if has_resident_fault(pages, declared) {
        exists|id: u64| #[trigger]
            pages.contains_key(id) && resident_fault(id, pages[id], declared) == Some(fault)
    } else if has_absent_pin(pages, pinned) {
        exists|id: u64| #[trigger]
            pinned.contains(id) && !pages.contains_key(id)
                && fault == (BufferError::PinnedNotResident { page_id: id })
    } else if !pages.contains_key(0) {
        fault == BufferError::MissingPageZero
    } else {
        sparse_header_fault(pages[0], declared) == Some(fault)
    }
}

/// A batch of pages as byte sequences.
pub open spec fn batch_bytes(batch: Seq<(u64, Vec<u8>)>) -> Seq<(u64, Seq<u8>)> {
    Seq::new(batch.len(), |i: int| (batch[i].0, batch[i].1@))
}

/// `pages` with every page of `batch` put in, in order.
pub open spec fn overlay(pages: Map<u64, Seq<u8>>, batch: Seq<(u64, Seq<u8>)>) -> Map<
    u64,
    Seq<u8>,
>
    decreases batch.len(),
{
    if batch.len() == 0 {
        pages
    } else {
        overlay(pages, batch.drop_last()).insert(batch.last().0, batch.last().1)
    }
}

/// The error, if any, that the `i`th page of a staged batch gives.
pub open spec fn stage_fault(view: BufferView, batch: Seq<(u64, Seq<u8>)>, i: int) -> Option<
    BufferError,
> {
    let page_id = batch[i].0;
    if batch[i].1.len() != PAGE_SIZE {
        page_fault(page_id, batch[i].1)
    } else if page_id >= view.logical_page_count {
        Some(BufferError::StagedOutsideLogical { page_id, logical: view.logical_page_count })
    } else if view.dirty.contains(page_id) {
        Some(BufferError::OverDirtyPage { page_id })
    } else if exists|j: int| 0 <= j < i && #[trigger] batch[j].0 == page_id {
        Some(BufferError::DuplicateStagedPage { page_id })
    } else {
        None
    }
}

/// No page of a staged batch is faulty.
pub open spec fn stage_ok(view: BufferView, batch: Seq<(u64, Seq<u8>)>) -> bool {
    forall|i: int| 0 <= i < batch.len() ==> #[trigger] stage_fault(view, batch, i) is None
}

/// `fault` is the error of the first faulty page of a staged batch.
pub open spec fn first_stage_fault(
    view: BufferView,
    batch: Seq<(u64, Seq<u8>)>,
    fault: BufferError,
) -> bool {
    exists|i: int|
        0 <= i < batch.len() && #[trigger] stage_fault(view, batch, i) == Some(fault) && (forall|
            j: int,
        |
            0 <= j < i ==> #[trigger] stage_fault(view, batch, j) is None)
}

/// The error, if any, of pinning one page of a buffer.
pub open spec fn pin_fault(view: BufferView, page_id: u64) -> Option<BufferError> {
    if page_id >= view.logical_page_count {
        Some(BufferError::PinOutsideLogical { page_id, logical: view.logical_page_count })
    } else if !view.pages.contains_key(page_id) {
        Some(BufferError::PinNotResident { page_id })
    } else {
        None
    }
}

/// The page count that page 0 publishes, or why it publishes none.
pub open spec fn declared_count(pages: Map<u64, Seq<u8>>) -> Result<u64, BufferError> {
    let header = header_of(pages[0]);
    if pages.is_empty() {
        Ok(0)
    } else if !pages.contains_key(0) {
        Err(BufferError::PageZeroNotFound)
    } else if let Some(fault) = header_read_fault(pages[0]) {
        Err(BufferError::Header(fault))
    } else if let Some(fault) = header_fault(header) {
        Err(BufferError::Header(fault))
    } else if header.page_count == 0 {
        Err(BufferError::ZeroPageCount)
    } else {
        Ok(header.page_count)
    }
}

/// The ids of the published prefix that are resident.
pub open spec fn resident_prefix(pages: Map<u64, Seq<u8>>, count: u64) -> Set<u64> {
    pages.dom().filter(|id: u64| id < count)
}

/// Some page of the published prefix is not exactly one page long.
pub open spec fn has_prefix_fault(pages: Map<u64, Seq<u8>>, count: u64) -> bool {
    exists|id: u64| #[trigger] pages.contains_key(id) && id < count && page_fault(id, pages[id]) is Some
}

/// Every page below `count` is resident and exactly one page long.
pub open spec fn complete_prefix(pages: Map<u64, Seq<u8>>, count: u64) -> bool {
    forall|id: u64|
        id < count ==> #[trigger] pages.contains_key(id) && pages[id].len() == PAGE_SIZE
}

/// Every page of the published prefix is resident and complete.
pub open spec fn exportable(pages: Map<u64, Seq<u8>>) -> bool {
    &&& declared_count(pages) is Ok
    &&& !has_prefix_fault(pages, declared_count(pages)->Ok_0)
    &&& resident_prefix(pages, declared_count(pages)->Ok_0).len() == declared_count(pages)->Ok_0
}

/// `fault` is a reason not to export these pages.
pub open spec fn export_fault(pages: Map<u64, Seq<u8>>, fault: BufferError) -> bool {
    match declared_count(pages) {
        Err(error) => fault == error,
        Ok(count) => if has_prefix_fault(pages, count) {
            exists|id: u64| #[trigger]
                pages.contains_key(id) && id < count && page_fault(id, pages[id]) == Some(fault)
        } else {
            let found = resident_prefix(pages, count).len();
            found != count && fault == (BufferError::Truncated {
                expected: count,
                found: found as u64,
            })
        },
    }
}

/// The error, if any, of pinning one page of a published image.
pub open spec fn declared_pin_fault(
    pages: Map<u64, Seq<u8>>,
    declared: u64,
    page_id: u64,
) -> Option<BufferError> {
    if page_id >= declared {
        Some(BufferError::PinOutsideDeclared { page_id, declared })
    } else if !pages.contains_key(page_id) {
        Some(BufferError::PinNotResident { page_id })
    } else {
        None
    }
}

/// Some pin of a sparse candidate is faulty.
pub open spec fn has_declared_pin_fault(
    pages: Map<u64, Seq<u8>>,
    declared: u64,
    pinned: Set<u64>,
) -> bool {
    exists|id: u64| #[trigger]
        pinned.contains(id) && declared_pin_fault(pages, declared, id) is Some
}

/// A complete, clean buffer that may become sparse with these pins.
pub open spec fn sparse_candidate(view: BufferView, pinned: Set<u64>) -> bool {
    let declared = declared_count(view.pages)->Ok_0;
    &&& view.dirty =~= Set::empty()
    &&& exportable(view.pages)
    &&& view.logical_page_count == declared
    &&& view.pages.contains_key(0)
    &&& paged_format(header_of(view.pages[0]).version)
    &&& !has_declared_pin_fault(view.pages, declared, pinned)
}

/// `fault` is a reason to refuse sparse residency with these pins.
pub open spec fn sparse_candidate_fault(
    view: BufferView,
    pinned: Set<u64>,
    fault: BufferError,
) -> bool {
    let declared = declared_count(view.pages)->Ok_0;
    if !(view.dirty =~= Set::empty()) {
        fault == BufferError::DirtyCandidate
    } else if !exportable(view.pages) {
        export_fault(view.pages, fault)
    } else if view.logical_page_count != declared {
        fault == (BufferError::CandidateCountMismatch {
            logical: view.logical_page_count,
            published: declared,
        })
    } else if !view.pages.contains_key(0) {
        fault == BufferError::MissingPageZero
    } else if !paged_format(header_of(view.pages[0]).version) {
        fault == (BufferError::UnsupportedSparseVersion {
            version: header_of(view.pages[0]).version,
        })
    } else {
        exists|id: u64| #[trigger]
            pinned.contains(id) && declared_pin_fault(view.pages, declared, id) == Some(fault)
    }
}

/// `removed` are the lowest evictable pages, as many as it takes to come down
/// to `limit` resident pages, or all of them where that is not enough.
pub open spec fn eviction(view: BufferView, limit: nat, removed: Set<u64>) -> bool {
    &&& removed.subset_of(view.evictable())
    &&& forall|low: u64, high: u64| #[trigger]
        view.evictable().contains(low) && #[trigger] removed.contains(high) && low < high
            ==> removed.contains(low)
    &&& if !view.sparse || view.pages.dom().len() <= limit {
        removed.len() == 0
    } else if view.evictable().len() <= view.pages.dom().len() - limit {
        removed.len() == view.evictable().len()
    } else {
        removed.len() == view.pages.dom().len() - limit
    }
}

/// The view after the pages `removed` have left.
pub open spec fn without_pages(view: BufferView, removed: Set<u64>) -> BufferView {
    BufferView { pages: view.pages.remove_keys(removed), ..view }
}

/// An eviction down to `limit` leads from one view to the other.
pub open spec fn evicted(before: BufferView, limit: nat, after: BufferView) -> bool {
    exists|removed: Set<u64>| #[trigger]
        eviction(before, limit, removed) && after == without_pages(before, removed)
}

/// The view after everything outside the first `count` pages is dropped.
pub open spec fn prefix_view(view: BufferView, count: u64) -> BufferView {
    BufferView {
        pages: view.pages.restrict(resident_prefix(view.pages, count)),
        dirty: view.dirty.filter(|id: u64| id < count),
        pinned: view.pinned.filter(|id: u64| id < count),
        logical_page_count: count,
        sparse: view.sparse,
    }
}

/// The view after a page is written.
pub open spec fn written_view(view: BufferView, page_id: u64, data: Seq<u8>) -> BufferView {
    BufferView {
        pages: view.pages.insert(page_id, data),
        dirty: view.dirty.insert(page_id),
        logical_page_count: if view.logical_page_count > page_id {
            view.logical_page_count
        } else {
            (page_id + 1) as u64
        },
        ..view
    }
}

/// What reading a page gives.
pub open spec fn read_outcome(view: BufferView, page_id: u64) -> Result<Seq<u8>, BufferError> {
    if view.pages.contains_key(page_id) {
        Ok(view.pages[page_id])
    } else if view.sparse && page_id < view.logical_page_count {
        Err(BufferError::NotResident(PageNotResident(page_id)))
    } else {
        Err(BufferError::PageNotFound { page_id })
    }
}

proof fn lemma_page_bytes_insert(pages: Map<u64, Vec<u8>>, id: u64, page: Vec<u8>)
    ensures
        page_bytes(pages.insert(id, page)) == page_bytes(pages).insert(id, page@),
{
    assert(page_bytes(pages.insert(id, page)) =~= page_bytes(pages).insert(id, page@));
}

proof fn lemma_page_bytes_remove(pages: Map<u64, Vec<u8>>, id: u64)
    ensures
        page_bytes(pages.remove(id)) == page_bytes(pages).remove(id),
{
    assert(page_bytes(pages.remove(id)) =~= page_bytes(pages).remove(id));
}

proof fn lemma_listed(ids: Seq<u64>, set: Set<u64>, id: u64)
    requires
        ids.to_set() == set,
    ensures
        set.contains(id) <==> exists|i: int| 0 <= i < ids.len() && ids[i] == id,
{
    assert(ids.to_set().contains(id) <==> ids.contains(id));
}

/// Copy one page.
pub fn copy_bytes(data: &[u8]) -> (copy: Vec<u8>)
    ensures
        copy@ == data@,
{
    vstd::slice::slice_to_vec(data)
}

/// Accept a page that is exactly one page long.
pub fn validate_complete_page(page_id: u64, page: &[u8]) -> (result: Result<(), BufferError>)
    ensures
        result == match page_fault(page_id, page@) {
            Some(fault) => Err::<(), BufferError>(fault),
            None => Ok(()),
        },
{
    if page.len() != PAGE_SIZE {
        return Err(BufferError::InvalidPageLength { page_id, len: page.len() });
    }
    Ok(())
}

/// Synchronous in-memory page buffer with dirty-page tracking.
pub struct BrowserBufferBackend {
    pages: HashMap<u64, Vec<u8>>,
    dirty: HashSet<u64>,
    pinned: HashSet<u64>,
    logical_page_count: u64,
    sparse: bool,
}

impl View for BrowserBufferBackend {
    type V = BufferView;

    closed spec fn view(&self) -> BufferView {
        BufferView {
            pages: page_bytes(self.pages@),
            dirty: self.dirty@,
            pinned: self.pinned@,
            logical_page_count: self.logical_page_count,
            sparse: self.sparse,
        }
    }
}

impl BrowserBufferBackend {
    /// Create an empty buffer (new database).
    pub fn new() -> (buffer: Self)
        ensures
            buffer@ == (BufferView {
                pages: Map::empty(),
                dirty: Set::empty(),
                pinned: Set::empty(),
                logical_page_count: 0,
                sparse: false,
            }),
            buffer@.wf(),
    {
        let buffer = Self {
            pages: HashMap::new(),
            dirty: HashSet::new(),
            pinned: HashSet::new(),
            logical_page_count: 0,
            sparse: false,
        };
        assert(buffer@.pages =~= Map::empty());
        assert(buffer@.pages.dom() =~= Set::empty());
        buffer
    }

    /// Load pages from an existing snapshot. The dirty set starts empty.
    pub fn load_pages(pages: HashMap<u64, Vec<u8>>) -> (buffer: Self)
        ensures
            buffer@ == (BufferView {
                pages: page_bytes(pages@),
                dirty: Set::empty(),
                pinned: Set::empty(),
                logical_page_count: pages@.len() as u64,
                sparse: false,
            }),
            buffer@.pages.dom().len() == buffer@.logical_page_count,
            buffer@.wf(),
    {
        let ids = resident_ids(&pages);
        proof {
            ids@.unique_seq_to_set();
            vstd::seq_lib::seq_to_set_is_finite(ids@);
            assert(page_bytes(pages@).dom() =~= pages@.dom());
        }
        let logical_page_count: u64 = pages.len() as u64;
        Self {
            pages,
            dirty: HashSet::new(),
            pinned: HashSet::new(),
            logical_page_count,
            sparse: false,
        }
    }

    /// Load pages and mark every page dirty.
    pub fn load_pages_all_dirty(pages: HashMap<u64, Vec<u8>>) -> (buffer: Self)
        ensures
            buffer@ == (BufferView {
                pages: page_bytes(pages@),
                dirty: pages@.dom(),
                pinned: Set::empty(),
                logical_page_count: pages@.len() as u64,
                sparse: false,
            }),
            buffer@.pages.dom().len() == buffer@.logical_page_count,
            buffer@.wf(),
    {
        let ids = resident_ids(&pages);
        let mut dirty: HashSet<u64> = HashSet::new();
        let mut i: usize = 0;
        while i < ids.len()
            invariant
                i <= ids.len(),
                forall|id: u64|
                    dirty@.contains(id) <==> exists|j: int| 0 <= j < i && #[trigger] ids@[j] == id,
            decreases ids.len() - i,
        {
            dirty.insert(ids[i]);
            i += 1;
        }
        proof {
            assert forall|id: u64| dirty@.contains(id) == pages@.dom().contains(id) by {
                lemma_listed(ids@, pages@.dom(), id);
            }
            assert(dirty@ =~= pages@.dom());
            ids@.unique_seq_to_set();
            vstd::seq_lib::seq_to_set_is_finite(ids@);
            assert(page_bytes(pages@).dom() =~= pages@.dom());
        }
        let logical_page_count: u64 = pages.len() as u64;
        Self { pages, dirty, pinned: HashSet::new(), logical_page_count, sparse: false }
    }

    /// Create a sparse buffer from validated resident pages.
    ///
    /// Page 0 must be present and publish `declared_page_count`. All resident
    /// and pinned ids must lie inside that published prefix, and pinned pages
    /// must already be resident. The supplied pages start clean.
    pub fn load_sparse_pages(
        pages: HashMap<u64, Vec<u8>>,
        declared_page_count: u64,
        pinned_page_ids: HashSet<u64>,
    ) -> (result: Result<Self, BufferError>)
        ensures
            match result {
                Ok(buffer) => {
                    &&& sparse_image_ok(page_bytes(pages@), declared_page_count, pinned_page_ids@)
                    &&& buffer@ == (BufferView {
                        pages: page_bytes(pages@),
                        dirty: Set::empty(),
                        pinned: pinned_page_ids@,
                        logical_page_count: declared_page_count,
                        sparse: true,
                    })
                    &&& buffer@.wf()
                },
                Err(fault) => {
                    &&& !sparse_image_ok(page_bytes(pages@), declared_page_count, pinned_page_ids@)
                    &&& sparse_image_fault(
                        page_bytes(pages@),
                        declared_page_count,
                        pinned_page_ids@,
                        fault,
                    )
                },
            },
    {
        let ghost bytes = page_bytes(pages@);
        if declared_page_count == 0 {
            return Err(BufferError::EmptySparseImage);
        }
        let ids = resident_ids(&pages);
        let mut i: usize = 0;
        while i < ids.len()
            invariant
                i <= ids.len(),
                declared_page_count > 0,
                bytes == page_bytes(pages@),
                ids@.to_set() == pages@.dom(),
                forall|j: int|
                    0 <= j < i ==> resident_fault(
                        #[trigger] ids@[j],
                        bytes[ids@[j]],
                        declared_page_count,
                    ) is None,
            decreases ids.len() - i,
        {
            let id: u64 = ids[i];
            proof {
                lemma_listed(ids@, pages@.dom(), id);
            }
            if let Some(page) = pages.get(&id) {
                assert(page@ == bytes[id] && bytes.contains_key(id));
                if let Err(fault) = validate_complete_page(id, page.as_slice()) {
                    assert(resident_fault(id, bytes[id], declared_page_count) == Some(fault));
                    return Err(fault);
                }
                if id >= declared_page_count {
                    let fault = BufferError::ResidentOutsideDeclared {
                        page_id: id,
                        declared: declared_page_count,
                    };
                    assert(resident_fault(id, bytes[id], declared_page_count) == Some(fault));
                    return Err(fault);
                }
            }
            i += 1;
        }
        assert(!has_resident_fault(bytes, declared_page_count)) by {
            assert forall|id: u64| #[trigger] bytes.contains_key(id) implies resident_fault(
                id,
                bytes[id],
                declared_page_count,
            ) is None by {
                lemma_listed(ids@, pages@.dom(), id);
            }
        }
        let pins = member_ids(&pinned_page_ids);
        let mut k: usize = 0;
        while k < pins.len()
            invariant
                k <= pins.len(),
                declared_page_count > 0,
                bytes == page_bytes(pages@),
                pins@.to_set() == pinned_page_ids@,
                !has_resident_fault(bytes, declared_page_count),
                forall|j: int| 0 <= j < k ==> bytes.contains_key(#[trigger] pins@[j]),
            decreases pins.len() - k,
        {
            let id: u64 = pins[k];
            proof {
                lemma_listed(pins@, pinned_page_ids@, id);
            }
            if !pages.contains_key(&id) {
                assert(pinned_page_ids@.contains(id) && !bytes.contains_key(id));
                return Err(BufferError::PinnedNotResident { page_id: id });
            }
            k += 1;
        }
        assert(!has_absent_pin(bytes, pinned_page_ids@)) by {
            assert forall|id: u64| #[trigger] pinned_page_ids@.contains(id) implies bytes.contains_key(id) by {
                lemma_listed(pins@, pinned_page_ids@, id);
            }
        }
        let header = match pages.get(&0) {
            Some(page_zero) => {
                assert(page_zero@ == bytes[0] && bytes.contains_key(0));
                match FileHeader::from_bytes(page_zero.as_slice()) {
                    Ok(header) => header,
                    Err(fault) => return Err(BufferError::Header(fault)),
                }
            },
            None => return Err(BufferError::MissingPageZero),
        };
        if let Err(fault) = header.validate() {
            return Err(BufferError::Header(fault));
        }
        if !is_paged_format(header.version) {
            return Err(BufferError::UnsupportedSparseVersion { version: header.version });
        }
        if header.page_count != declared_page_count {
            return Err(
                BufferError::PageCountMismatch {
                    published: header.page_count,
                    declared: declared_page_count,
                },
            );
        }
        proof {
            vstd::seq_lib::seq_to_set_is_finite(ids@);
            assert(bytes.dom() =~= pages@.dom());
            assert(pinned_page_ids@.subset_of(bytes.dom()));
        }
        Ok(
            Self {
                pages,
                dirty: HashSet::new(),
                pinned: pinned_page_ids,
                logical_page_count: declared_page_count,
                sparse: true,
            },
        )
    }

    /// Start a sparse buffer from page 0 alone, with page 0 pinned.
    pub fn load_sparse_page_zero(page_zero: Vec<u8>) -> (result: Result<Self, BufferError>)
        ensures
            ({
                let pages = Map::<u64, Seq<u8>>::empty().insert(0, page_zero@);
                let pinned = Set::<u64>::empty().insert(0);
                let declared = header_of(page_zero@).page_count;
                match result {
                    Ok(buffer) => {
                        &&& sparse_image_ok(pages, declared, pinned)
                        &&& buffer@ == (BufferView {
                            pages,
                            dirty: Set::empty(),
                            pinned,
                            logical_page_count: declared,
                            sparse: true,
                        })
                        &&& buffer@.wf()
                    },
                    Err(fault) => {
                        &&& !sparse_image_ok(pages, declared, pinned)
                        &&& if page_zero@.len() != PAGE_SIZE {
                            Some(fault) == page_fault(0, page_zero@)
                        } else {
                            sparse_image_fault(pages, declared, pinned, fault)
                        }
                    },
                }
            }),
    {
        let ghost expected = Map::<u64, Seq<u8>>::empty().insert(0, page_zero@);
        if let Err(fault) = validate_complete_page(0, page_zero.as_slice()) {
            proof {
                let declared = header_of(page_zero@).page_count;
                assert(expected.contains_key(0));
                assert(resident_fault(0, expected[0], declared) is Some);
            }
            return Err(fault);
        }
        let declared_page_count: u64 = match FileHeader::from_bytes(page_zero.as_slice()) {
            Ok(header) => header.page_count,
            Err(fault) => return Err(BufferError::Header(fault)),
        };
        let mut pages: HashMap<u64, Vec<u8>> = HashMap::new();
        let mut pinned: HashSet<u64> = HashSet::new();
        pages.insert(0, page_zero);
        pinned.insert(0);
        assert(page_bytes(pages@) =~= expected);
        Self::load_sparse_pages(pages, declared_page_count, pinned)
    }

    /// Stage one complete page fetched from the durable backing store.
    ///
    /// Staging never marks a page dirty and refuses to overwrite a local dirty
    /// page with older durable bytes.
    pub fn stage_clean_page(&mut self, page_id: u64, page: Vec<u8>) -> (result: Result<
        (),
        BufferError,
    >)
        ensures
            ({
                let batch = seq![(page_id, page@)];
                match result {
                    Ok(_) => {
                        &&& stage_ok(old(self)@, batch)
                        &&& final(self)@ == (BufferView {
                            pages: old(self)@.pages.insert(page_id, page@),
                            ..old(self)@
                        })
                    },
                    Err(fault) => {
                        &&& stage_fault(old(self)@, batch, 0) == Some(fault)
                        &&& final(self)@ == old(self)@
                    },
                }
            }),
            old(self)@.wf() ==> final(self)@.wf(),
    {
        let ghost batch = seq![(page_id, page@)];
        let mut pages: Vec<(u64, Vec<u8>)> = Vec::new();
        pages.push((page_id, page));
        assert(batch_bytes(pages@) =~= batch);
        proof {
            reveal_with_fuel(overlay, 2);
            assert(batch.drop_last() =~= Seq::empty());
        }
        self.stage_clean_pages(pages)
    }

    /// Atomically stage a batch of complete pages as clean residents.
    pub fn stage_clean_pages(&mut self, pages: Vec<(u64, Vec<u8>)>) -> (result: Result<
        (),
        BufferError,
    >)
        ensures
            match result {
                Ok(_) => {
                    &&& stage_ok(old(self)@, batch_bytes(pages@))
                    &&& final(self)@ == (BufferView {
                        pages: overlay(old(self)@.pages, batch_bytes(pages@)),
                        ..old(self)@
                    })
                },
                Err(fault) => {
                    &&& first_stage_fault(old(self)@, batch_bytes(pages@), fault)
                    &&& final(self)@ == old(self)@
                },
            },
            old(self)@.wf() ==> final(self)@.wf(),
    {
        let ghost batch = batch_bytes(pages@);
        let ghost before = self@;
        let mut page_ids: HashSet<u64> = HashSet::new();
        let mut i: usize = 0;
        while i < pages.len()
            invariant
                i <= pages.len(),
                batch == batch_bytes(pages@),
                before == self@,
                self@ == old(self)@,
                forall|id: u64|
                    page_ids@.contains(id) <==> exists|j: int|
                        0 <= j < i && #[trigger] batch[j].0 == id,
                forall|j: int| 0 <= j < i ==> #[trigger] stage_fault(before, batch, j) is None,
            decreases pages.len() - i,
        {
            let page_id: u64 = pages[i].0;
            assert(batch[i as int] == (page_id, pages@[i as int].1@));
            if let Err(fault) = validate_complete_page(page_id, pages[i].1.as_slice()) {
                assert(stage_fault(before, batch, i as int) == Some(fault));
                return Err(fault);
            }
            if page_id >= self.logical_page_count {
                let fault = BufferError::StagedOutsideLogical {
                    page_id,
                    logical: self.logical_page_count,
                };
                assert(stage_fault(before, batch, i as int) == Some(fault));
                return Err(fault);
            }
            if self.dirty.contains(&page_id) {
                let fault = BufferError::OverDirtyPage { page_id };
                assert(stage_fault(before, batch, i as int) == Some(fault));
                return Err(fault);
            }
            if !page_ids.insert(page_id) {
                let fault = BufferError::DuplicateStagedPage { page_id };
                assert(stage_fault(before, batch, i as int) == Some(fault));
                return Err(fault);
            }
            assert(stage_fault(before, batch, i as int) is None);
            i += 1;
        }
        for pair in it: pages
            invariant
                it.seq() == pages@,
                batch == batch_bytes(pages@),
                before == old(self)@,
                stage_ok(before, batch),
                self@ == (BufferView {
                    pages: overlay(before.pages, batch.take(it.index())),
                    ..before
                }),
                before.wf() ==> self@.wf(),
                it.index() == it.seq().len() ==> batch.take(it.index()) == batch,
        {
            let (page_id, page) = pair;
            let ghost was = self@;
            let ghost k = it.index();
            proof {
                lemma_page_bytes_insert(self.pages@, page_id, page);
                assert(batch[k] == (page_id, page@));
                assert(batch.take(k + 1).drop_last() =~= batch.take(k));
            }
            self.pages.insert(page_id, page);
            assert(self@.pages == was.pages.insert(page_id, page@));
            assert(self@.pages.dom() =~= was.pages.dom().insert(page_id));
        }
        Ok(())
    }

    /// Replace the exact set of pages retained as clean browser authority.
    pub fn replace_pinned_pages(&mut self, page_ids: HashSet<u64>) -> (result: Result<
        (),
        BufferError,
    >)
        ensures
            match result {
                Ok(_) => {
                    &&& forall|id: u64| #[trigger]
                        page_ids@.contains(id) ==> pin_fault(old(self)@, id) is None
                    &&& final(self)@ == (BufferView { pinned: page_ids@, ..old(self)@ })
                },
                Err(fault) => {
                    &&& exists|id: u64| #[trigger]
                        page_ids@.contains(id) && pin_fault(old(self)@, id) == Some(fault)
                    &&& final(self)@ == old(self)@
                },
            },
            old(self)@.wf() ==> final(self)@.wf(),
    {
        let ids = member_ids(&page_ids);
        let mut i: usize = 0;
        while i < ids.len()
            invariant
                i <= ids.len(),
                self@ == old(self)@,
                ids@.to_set() == page_ids@,
                forall|j: int| 0 <= j < i ==> pin_fault(self@, #[trigger] ids@[j]) is None,
            decreases ids.len() - i,
        {
            let page_id: u64 = ids[i];
            proof {
                lemma_listed(ids@, page_ids@, page_id);
            }
            if page_id >= self.logical_page_count {
                let fault = BufferError::PinOutsideLogical {
                    page_id,
                    logical: self.logical_page_count,
                };
                assert(pin_fault(self@, page_id) == Some(fault));
                return Err(fault);
            }
            if !self.pages.contains_key(&page_id) {
                let fault = BufferError::PinNotResident { page_id };
                assert(pin_fault(self@, page_id) == Some(fault));
                return Err(fault);
            }
            i += 1;
        }
        assert forall|id: u64| #[trigger] page_ids@.contains(id) implies pin_fault(
            self@,
            id,
        ) is None by {
            lemma_listed(ids@, page_ids@, id);
        }
        self.pinned = page_ids;
        Ok(())
    }

    /// Convert a complete, durable candidate to sparse mode.
    ///
    /// Refuses incomplete candidates and unflushed dirty pages, then replaces
    /// the authority pin set without changing any page bytes.
    pub fn configure_sparse_residency(&mut self, pinned_page_ids: HashSet<u64>) -> (result: Result<
        u64,
        BufferError,
    >)
        ensures
            match result {
                Ok(count) => {
                    &&& sparse_candidate(old(self)@, pinned_page_ids@)
                    &&& Ok::<u64, BufferError>(count) == declared_count(old(self)@.pages)
                    &&& final(self)@ == (BufferView {
                        pinned: pinned_page_ids@,
                        logical_page_count: count,
                        sparse: true,
                        ..old(self)@
                    })
                },
                Err(fault) => {
                    &&& !sparse_candidate(old(self)@, pinned_page_ids@)
                    &&& sparse_candidate_fault(old(self)@, pinned_page_ids@, fault)
                    &&& final(self)@ == old(self)@
                },
            },
            old(self)@.wf() ==> final(self)@.wf(),
    {
        match self.validate_sparse_residency_candidate(&pinned_page_ids) {
            Ok(declared_page_count) => {
                assert forall|id: u64| #[trigger] pinned_page_ids@.contains(id) implies self@.pages.contains_key(
                    id,
                ) by {
                    assert(declared_pin_fault(self@.pages, declared_page_count, id) is None);
                }
                self.pinned = pinned_page_ids;
                self.logical_page_count = declared_page_count;
                self.sparse = true;
                Ok(declared_page_count)
            },
            Err(fault) => Err(fault),
        }
    }

    /// Validate that a complete resident image can become a bounded sparse
    /// authority, without changing its current residency mode.
    pub fn validate_sparse_residency(&self, pinned_page_ids: HashSet<u64>) -> (result: Result<
        u64,
        BufferError,
    >)
        ensures
            match result {
                Ok(count) => {
                    &&& sparse_candidate(self@, pinned_page_ids@)
                    &&& Ok::<u64, BufferError>(count) == declared_count(self@.pages)
                },
                Err(fault) => {
                    &&& !sparse_candidate(self@, pinned_page_ids@)
                    &&& sparse_candidate_fault(self@, pinned_page_ids@, fault)
                },
            },
    {
        self.validate_sparse_residency_candidate(&pinned_page_ids)
    }

    fn validate_sparse_residency_candidate(&self, pinned_page_ids: &HashSet<u64>) -> (result:
        Result<u64, BufferError>)
        ensures
            match result {
                Ok(count) => {
                    &&& sparse_candidate(self@, pinned_page_ids@)
                    &&& Ok::<u64, BufferError>(count) == declared_count(self@.pages)
                },
                Err(fault) => {
                    &&& !sparse_candidate(self@, pinned_page_ids@)
                    &&& sparse_candidate_fault(self@, pinned_page_ids@, fault)
                },
            },
    {
        if !self.dirty.is_empty() {
            assert(!(self@.dirty =~= Set::empty()));
            return Err(BufferError::DirtyCandidate);
        }
        assert(self@.dirty =~= Set::empty());
        let declared: u64 = match self.exportable_page_count() {
            Ok(count) => count,
            Err(fault) => return Err(fault),
        };
        if self.logical_page_count != declared {
            return Err(
                BufferError::CandidateCountMismatch {
                    logical: self.logical_page_count,
                    published: declared,
                },
            );
        }
        let version: u32 = match self.pages.get(&0) {
            Some(page_zero) => {
                assert(page_zero@ == self@.pages[0] && self@.pages.contains_key(0));
                match FileHeader::from_bytes(page_zero.as_slice()) {
                    Ok(header) => header.version,
                    Err(fault) => return Err(BufferError::Header(fault)),
                }
            },
            None => return Err(BufferError::MissingPageZero),
        };
        if !is_paged_format(version) {
            return Err(BufferError::UnsupportedSparseVersion { version });
        }
        let ids = member_ids(pinned_page_ids);
        let mut i: usize = 0;
        while i < ids.len()
            invariant
                i <= ids.len(),
                ids@.to_set() == pinned_page_ids@,
                self@.dirty =~= Set::empty(),
                exportable(self@.pages),
                Ok::<u64, BufferError>(declared) == declared_count(self@.pages),
                self@.logical_page_count == declared,
                self@.pages.contains_key(0),
                paged_format(header_of(self@.pages[0]).version),
                forall|j: int|
                    0 <= j < i ==> declared_pin_fault(
                        self@.pages,
                        declared,
                        #[trigger] ids@[j],
                    ) is None,
            decreases ids.len() - i,
        {
            let page_id: u64 = ids[i];
            proof {
                lemma_listed(ids@, pinned_page_ids@, page_id);
            }
            if page_id >= declared {
                let fault = BufferError::PinOutsideDeclared { page_id, declared };
                assert(declared_pin_fault(self@.pages, declared, page_id) == Some(fault));
                return Err(fault);
            }
            if !self.pages.contains_key(&page_id) {
                let fault = BufferError::PinNotResident { page_id };
                assert(declared_pin_fault(self@.pages, declared, page_id) == Some(fault));
                return Err(fault);
            }
            i += 1;
        }
        assert forall|id: u64| #[trigger] pinned_page_ids@.contains(id) implies declared_pin_fault(
            self@.pages,
            declared,
            id,
        ) is None by {
            lemma_listed(ids@, pinned_page_ids@, id);
        }
        Ok(declared)
    }

    /// Evict clean, unpinned pages until the resident set reaches `limit`.
    ///
    /// If dirty and pinned pages alone exceed the limit, all eligible pages
    /// are removed and the unavoidable residents remain. The lowest eligible
    /// page ids are removed first.
    pub fn evict_clean_unpinned_to(&mut self, limit: usize) -> (removed: usize)
        ensures
            evicted(old(self)@, limit as nat, final(self)@),
            removed == old(self)@.pages.dom().len() - final(self)@.pages.dom().len(),
            old(self)@.wf() ==> final(self)@.wf(),
    {
        let ids = resident_ids(&self.pages);
        let ghost before = self@;
        proof {
            ids@.unique_seq_to_set();
            vstd::seq_lib::seq_to_set_is_finite(ids@);
            assert(before.pages.dom() =~= self.pages@.dom());
        }
        if !self.sparse || self.pages.len() <= limit {
            proof {
                let gone = Set::<u64>::empty();
                assert(without_pages(before, gone) =~= before) by {
                    assert(before.pages.remove_keys(gone) =~= before.pages);
                }
                assert(eviction(before, limit as nat, gone));
            }
            return 0;
        }
        let mut candidates: Vec<u64> = Vec::new();
        let mut i: usize = 0;
        while i < ids.len()
            invariant
                i <= ids.len(),
                self@ == before,
                self@ == old(self)@,
                ids@.no_duplicates(),
                ids@.to_set() == before.pages.dom(),
                candidates@.no_duplicates(),
                forall|id: u64| #[trigger]
                    candidates@.contains(id) ==> exists|j: int| 0 <= j < i && ids@[j] == id,
                forall|id: u64| #[trigger]
                    candidates@.contains(id) ==> before.evictable().contains(id),
                forall|j: int|
                    0 <= j < i && before.evictable().contains(#[trigger] ids@[j])
                        ==> candidates@.contains(ids@[j]),
            decreases ids.len() - i,
        {
            let id: u64 = ids[i];
            let ghost was = candidates@;
            proof {
                lemma_listed(ids@, before.pages.dom(), id);
            }
            if !self.dirty.contains(&id) && !self.pinned.contains(&id) {
                assert(before.evictable().contains(id));
                assert(!was.contains(id));
                candidates.push(id);
                assert forall|x: u64| #[trigger] candidates@.contains(x) implies was.contains(x) || x
                    == id by {
                    let k = choose|k: int| 0 <= k < candidates@.len() && candidates@[k] == x;
                    if k < was.len() {
                        assert(was[k] == x);
                    }
                }
                assert forall|x: u64| #[trigger] was.contains(x) implies candidates@.contains(x) by {
                    let k = choose|k: int| 0 <= k < was.len() && was[k] == x;
                    assert(candidates@[k] == x);
                }
                assert(candidates@[was.len() as int] == id);
                assert(candidates@.contains(id));
            }
            i += 1;
        }
        let sorted = ascending(candidates);
        proof {
            assert forall|id: u64| sorted@.to_set().contains(id) == before.evictable().contains(
                id,
            ) by {
                assert(candidates@.to_set().contains(id) <==> candidates@.contains(id));
                if before.evictable().contains(id) {
                    lemma_listed(ids@, before.pages.dom(), id);
                }
            }
            assert(sorted@.to_set() =~= before.evictable());
            sorted@.unique_seq_to_set();
        }
        let mut removed: usize = 0;
        let ghost total = before.pages.dom().len();
        assert(sorted@.take(0).to_set() =~= Set::empty());
        assert(before.pages.remove_keys(Set::<u64>::empty()) =~= before.pages);
        while removed < sorted.len() && self.pages.len() > limit
            invariant
                removed <= sorted.len(),
                before == old(self)@,
                before.sparse,
                before.pages.dom().finite(),
                total == before.pages.dom().len(),
                total > limit,
                strictly_ascending(sorted@),
                sorted@.to_set() == before.evictable(),
                sorted@.len() == before.evictable().len(),
                self@ == without_pages(before, sorted@.take(removed as int).to_set()),
                self.pages@.dom().len() == total - removed,
                self.pages@.dom().finite(),
                removed == 0 || total - removed >= limit,
            decreases sorted.len() - removed,
        {
            let page_id: u64 = sorted[removed];
            let ghost was = self@;
            let ghost k = removed as int;
            proof {
                assert(sorted@.contains(page_id));
                assert(before.evictable().contains(page_id));
                lemma_take_set(sorted@, k);
                assert(was.pages.contains_key(page_id));
                assert(self.pages@.contains_key(page_id));
                lemma_page_bytes_remove(self.pages@, page_id);
            }
            self.pages.remove(&page_id);
            removed += 1;
            assert(self@.pages =~= before.pages.remove_keys(sorted@.take(k + 1).to_set()));
        }
        proof {
            let gone = sorted@.take(removed as int).to_set();
            let listed = sorted@.take(removed as int);
            assert(listed.no_duplicates());
            listed.unique_seq_to_set();
            assert forall|x: u64| #[trigger] gone.contains(x) implies before.evictable().contains(
                x,
            ) by {
                let j = choose|j: int| 0 <= j < removed && listed[j] == x;
                assert(sorted@[j] == x);
                assert(sorted@.contains(x));
            }
            assert forall|low: u64, high: u64| #[trigger]
                before.evictable().contains(low) && #[trigger] gone.contains(high) && low
                    < high implies gone.contains(low) by {
                let j = choose|j: int| 0 <= j < removed && listed[j] == high;
                assert(sorted@.to_set().contains(low));
                let i = choose|i: int| 0 <= i < sorted@.len() && sorted@[i] == low;
                if i >= removed {
                    assert(sorted@[j] < sorted@[i]);
                }
                assert(listed[i] == low);
            }
            assert(eviction(before, limit as nat, gone));
            assert(self@.pages.dom() =~= self.pages@.dom());
            if before.wf() {
                assert(self@.pages.dom() =~= before.pages.dom().difference(gone));
                assert(self@.wf());
            }
        }
        removed
    }

    /// Evict every clean page that is not pinned.
    pub fn evict_all_clean_unpinned(&mut self) -> (removed: usize)
        ensures
            evicted(old(self)@, 0, final(self)@),
            removed == old(self)@.pages.dom().len() - final(self)@.pages.dom().len(),
            old(self)@.wf() ==> final(self)@.wf(),
    {
        self.evict_clean_unpinned_to(0)
    }

    /// Return the number of currently resident pages.
    pub fn resident_page_count(&self) -> (count: usize)
        ensures
            count == self@.pages.dom().len(),
    {
        assert(self@.pages.dom() =~= self.pages@.dom());
        self.pages.len()
    }

    /// Return the number of dirty resident pages.
    pub fn dirty_page_count(&self) -> (count: usize)
        ensures
            count == self@.dirty.len(),
    {
        self.dirty.len()
    }

    /// Return the number of pinned resident pages.
    pub fn pinned_page_count(&self) -> (count: usize)
        ensures
            count == self@.pinned.len(),
    {
        self.pinned.len()
    }

    /// Return whether a page is currently resident.
    pub fn is_page_resident(&self, page_id: u64) -> (resident: bool)
        ensures
            resident == self@.pages.contains_key(page_id),
    {
        self.pages.contains_key(&page_id)
    }

    /// Return whether this buffer uses a sparse logical image.
    pub fn is_sparse(&self) -> (sparse: bool)
        ensures
            sparse == self@.sparse,
    {
        self.sparse
    }

    /// Drain and return the set of page ids written since the last call.
    pub fn take_dirty(&mut self) -> (dirty: HashSet<u64>)
        ensures
            dirty@ == old(self)@.dirty,
            final(self)@ == (BufferView { dirty: Set::empty(), ..old(self)@ }),
            old(self)@.wf() ==> final(self)@.wf(),
    {
        let mut drained: HashSet<u64> = HashSet::new();
        std::mem::swap(&mut drained, &mut self.dirty);
        drained
    }

    /// Clone every page as `(page_id, bytes)` pairs, sorted by page id.
    pub fn all_pages(&self) -> (pages: Vec<(u64, Vec<u8>)>)
        ensures
            pages@.len() == self@.pages.dom().len(),
            forall|i: int, j: int|
                0 <= i < j < pages@.len() ==> #[trigger] pages@[i].0 < #[trigger] pages@[j].0,
            forall|i: int|
                0 <= i < pages@.len() ==> self@.pages.contains_key((#[trigger] pages@[i]).0)
                    && pages@[i].1@ == self@.pages[pages@[i].0],
            overlay(Map::empty(), batch_bytes(pages@)) == self@.pages,
    {
        let ids = ascending(resident_ids(&self.pages));
        assert(self@.pages.dom() =~= self.pages@.dom());
        let mut pages: Vec<(u64, Vec<u8>)> = Vec::new();
        let mut i: usize = 0;
        assert(self@.pages.restrict(ids@.take(0).to_set()) =~= Map::empty());
        assert(batch_bytes(pages@) =~= Seq::empty());
        while i < ids.len()
            invariant
                i <= ids.len(),
                pages@.len() == i,
                strictly_ascending(ids@),
                ids@.to_set() == self@.pages.dom(),
                forall|j: int| 0 <= j < i ==> (#[trigger] pages@[j]).0 == ids@[j],
                forall|j: int|
                    0 <= j < i ==> self@.pages.contains_key((#[trigger] pages@[j]).0)
                        && pages@[j].1@ == self@.pages[pages@[j].0],
                overlay(Map::empty(), batch_bytes(pages@)) == self@.pages.restrict(
                    ids@.take(i as int).to_set(),
                ),
            decreases ids.len() - i,
        {
            let id: u64 = ids[i];
            let ghost was = pages@;
            let ghost k = i as int;
            proof {
                lemma_listed(ids@, self@.pages.dom(), id);
            }
            if let Some(page) = self.pages.get(&id) {
                let copy = copy_bytes(page.as_slice());
                pages.push((id, copy));
                proof {
                    let batch = batch_bytes(pages@);
                    assert(batch.drop_last() =~= batch_bytes(was));
                    assert(batch.last() == (id, copy@));
                    lemma_take_set(ids@, k);
                    assert(self@.pages.restrict(ids@.take(k + 1).to_set())
                        =~= self@.pages.restrict(ids@.take(k).to_set()).insert(id, copy@));
                }
            }
            i += 1;
        }
        proof {
            assert(ids@.take(ids@.len() as int) =~= ids@);
            assert(self@.pages.restrict(self@.pages.dom()) =~= self@.pages);
        }
        pages
    }

    /// Return the page count published by the validated page-0 header.
    ///
    /// Physical tail pages can remain after an interrupted copy-on-write
    /// candidate. They are not part of the portable graph image.
    pub fn declared_page_count(&self) -> (result: Result<u64, BufferError>)
        ensures
            result == declared_count(self@.pages),
    {
        assert(self@.pages.dom() =~= self.pages@.dom());
        if self.pages.is_empty() {
            assert(self@.pages.is_empty());
            return Ok(0);
        }
        assert(!self@.pages.is_empty()) by {
            let id = self.pages@.dom().choose();
            assert(self@.pages.dom().contains(id));
        }
        let header = match self.pages.get(&0) {
            Some(page) => {
                assert(page@ == self@.pages[0]);
                match FileHeader::from_bytes(page.as_slice()) {
                    Ok(header) => header,
                    Err(fault) => return Err(BufferError::Header(fault)),
                }
            },
            None => return Err(BufferError::PageZeroNotFound),
        };
        if let Err(fault) = header.validate() {
            return Err(BufferError::Header(fault));
        }
        if header.page_count == 0 {
            return Err(BufferError::ZeroPageCount);
        }
        Ok(header.page_count)
    }

    /// Return the page count when every page in the published prefix exists.
    pub fn exportable_page_count(&self) -> (result: Result<u64, BufferError>)
        ensures
            match result {
                Ok(count) => {
                    &&& exportable(self@.pages)
                    &&& Ok::<u64, BufferError>(count) == declared_count(self@.pages)
                },
                Err(fault) => {
                    &&& !exportable(self@.pages)
                    &&& export_fault(self@.pages, fault)
                },
            },
    {
        let page_count: u64 = match self.declared_page_count() {
            Ok(count) => count,
            Err(fault) => return Err(fault),
        };
        let ids = resident_ids(&self.pages);
        assert(self@.pages.dom() =~= self.pages@.dom());
        let mut found: u64 = 0;
        let mut i: usize = 0;
        let ghost prefix = |id: u64| id < page_count;
        assert(ids@.take(0).to_set().filter(prefix) =~= Set::empty());
        while i < ids.len()
            invariant
                i <= ids.len(),
                found <= i,
                ids@.no_duplicates(),
                ids@.to_set() == self@.pages.dom(),
                prefix == (|id: u64| id < page_count),
                Ok::<u64, BufferError>(page_count) == declared_count(self@.pages),
                ids@.take(i as int).to_set().filter(prefix).finite(),
                found == ids@.take(i as int).to_set().filter(prefix).len(),
                forall|j: int|
                    0 <= j < i && #[trigger] ids@[j] < page_count ==> page_fault(
                        ids@[j],
                        self@.pages[ids@[j]],
                    ) is None,
            decreases ids.len() - i,
        {
            let id: u64 = ids[i];
            let ghost k = i as int;
            proof {
                lemma_listed(ids@, self@.pages.dom(), id);
                lemma_take_set(ids@, k);
            }
            if id < page_count {
                if let Some(page) = self.pages.get(&id) {
                    if let Err(fault) = validate_complete_page(id, page.as_slice()) {
                        proof {
                            assert(self@.pages.contains_key(id) && page_fault(id, self@.pages[id])
                                == Some(fault));
                            assert(has_prefix_fault(self@.pages, page_count));
                        }
                        return Err(fault);
                    }
                }
                proof {
                    assert(ids@.take(k + 1).to_set().filter(prefix) =~= ids@.take(
                        k,
                    ).to_set().filter(prefix).insert(id));
                    assert(!ids@.take(k).to_set().filter(prefix).contains(id));
                }
                found = found + 1;
            } else {
                assert(ids@.take(k + 1).to_set().filter(prefix) =~= ids@.take(k).to_set().filter(
                    prefix,
                ));
            }
            i += 1;
        }
        proof {
            assert(ids@.take(ids@.len() as int) =~= ids@);
            assert(resident_prefix(self@.pages, page_count) =~= ids@.to_set().filter(prefix));
            assert forall|id: u64| #[trigger]
                self@.pages.contains_key(id) && id < page_count implies page_fault(
                id,
                self@.pages[id],
            ) is None by {
                lemma_listed(ids@, self@.pages.dom(), id);
            }
            assert(!has_prefix_fault(self@.pages, page_count));
        }
        if found != page_count {
            return Err(BufferError::Truncated { expected: page_count, found });
        }
        Ok(page_count)
    }

    /// Discard physical pages beyond page 0's published prefix.
    ///
    /// Missing pages inside the prefix are not rejected here. Export performs
    /// the stronger contiguity check.
    pub fn retain_declared_prefix(&mut self) -> (result: Result<u64, BufferError>)
        ensures
            result == declared_count(old(self)@.pages),
            final(self)@ == match declared_count(old(self)@.pages) {
                Ok(count) => prefix_view(old(self)@, count),
                Err(_) => old(self)@,
            },
            old(self)@.wf() ==> final(self)@.wf(),
    {
        let ghost before = self@;
        let page_count: u64 = match self.declared_page_count() {
            Ok(count) => count,
            Err(fault) => return Err(fault),
        };
        let ids = resident_ids(&self.pages);
        assert(self@.pages.dom() =~= self.pages@.dom());
        let mut i: usize = 0;
        while i < ids.len()
            invariant
                i <= ids.len(),
                ids@.to_set() == before.pages.dom(),
                self.dirty@ == before.dirty,
                self.pinned@ == before.pinned,
                self.sparse == before.sparse,
                forall|id: u64| #[trigger]
                    self@.pages.contains_key(id) ==> before.pages.contains_key(id)
                        && self@.pages[id] == before.pages[id],
                forall|id: u64| #[trigger]
                    before.pages.contains_key(id) && id < page_count ==> self@.pages.contains_key(
                        id,
                    ),
                forall|j: int|
                    0 <= j < i && #[trigger] ids@[j] >= page_count ==> !self@.pages.contains_key(
                        ids@[j],
                    ),
            decreases ids.len() - i,
        {
            let id: u64 = ids[i];
            if id >= page_count {
                let ghost was = self@.pages;
                proof {
                    lemma_page_bytes_remove(self.pages@, id);
                }
                self.pages.remove(&id);
                assert(self@.pages == was.remove(id));
            }
            i += 1;
        }
        let dirty = retain_below(&self.dirty, page_count);
        let pinned = retain_below(&self.pinned, page_count);
        self.dirty = dirty;
        self.pinned = pinned;
        self.logical_page_count = page_count;
        proof {
            assert forall|id: u64| self@.pages.contains_key(id) == (before.pages.contains_key(id)
                && id < page_count) by {
                if before.pages.contains_key(id) {
                    lemma_listed(ids@, before.pages.dom(), id);
                }
            }
            assert(self@.pages =~= prefix_view(before, page_count).pages);
            assert(self@ =~= prefix_view(before, page_count));
            if before.wf() {
                assert(self@.pages.dom() =~= resident_prefix(before.pages, page_count));
                assert(self@.wf());
            }
        }
        Ok(page_count)
    }

    /// Read a page by id.
    pub fn read_page_raw(&self, page_id: u64) -> (result: Result<Vec<u8>, BufferError>)
        ensures
            match result {
                Ok(page) => read_outcome(self@, page_id) == Ok::<Seq<u8>, BufferError>(page@),
                Err(fault) => read_outcome(self@, page_id) == Err::<Seq<u8>, BufferError>(fault),
            },
    {
        self.read_page(page_id)
    }

    /// Return the number of pages of the backing image.
    pub fn page_count_raw(&self) -> (result: Result<u64, BufferError>)
        ensures
            result == Ok::<u64, BufferError>(self@.logical_page_count),
    {
        self.page_count()
    }

    /// Write one page and mark it dirty.
    pub fn write_page(&mut self, page_id: u64, data: &[u8]) -> (result: Result<(), BufferError>)
        ensures
            result == if data@.len() != PAGE_SIZE {
                Err::<(), BufferError>(BufferError::InvalidPageSize { len: data@.len() as usize })
            } else if page_id == u64::MAX {
                Err::<(), BufferError>(BufferError::PageIdOverflow)
            } else {
                Ok::<(), BufferError>(())
            },
            final(self)@ == if result is Ok {
                written_view(old(self)@, page_id, data@)
            } else {
                old(self)@
            },
            old(self)@.wf() ==> final(self)@.wf(),
    {
        if data.len() != PAGE_SIZE {
            return Err(BufferError::InvalidPageSize { len: data.len() });
        }
        let next_page_count: u64 = match page_id.checked_add(1) {
            Some(next) => next,
            None => return Err(BufferError::PageIdOverflow),
        };
        let page = copy_bytes(data);
        let ghost before = self@;
        proof {
            lemma_page_bytes_insert(self.pages@, page_id, page);
        }
        self.pages.insert(page_id, page);
        self.dirty.insert(page_id);
        if self.logical_page_count < next_page_count {
            self.logical_page_count = next_page_count;
        }
        assert(self@ =~= written_view(before, page_id, data@));
        assert(self@.pages.dom() =~= before.pages.dom().insert(page_id));
        Ok(())
    }

    /// Read one page.
    ///
    /// A page that a sparse buffer lacks is reported apart from a page that
    /// does not exist, so that a caller can stage it and retry.
    pub fn read_page(&self, page_id: u64) -> (result: Result<Vec<u8>, BufferError>)
        ensures
            match result {
                Ok(page) => read_outcome(self@, page_id) == Ok::<Seq<u8>, BufferError>(page@),
                Err(fault) => read_outcome(self@, page_id) == Err::<Seq<u8>, BufferError>(fault),
            },
    {
        if let Some(page) = self.pages.get(&page_id) {
            assert(page@ == self@.pages[page_id]);
            return Ok(copy_bytes(page.as_slice()));
        }
        if self.sparse && page_id < self.logical_page_count {
            return Err(BufferError::NotResident(PageNotResident(page_id)));
        }
        Err(BufferError::PageNotFound { page_id })
    }

    /// Durability is handled by the publication layer, so this does nothing.
    pub fn sync(&mut self) -> (result: Result<(), BufferError>)
        ensures
            result == Ok::<(), BufferError>(()),
            final(self)@ == old(self)@,
    {
        Ok(())
    }

    /// Return the number of pages of the backing image.
    pub fn page_count(&self) -> (result: Result<u64, BufferError>)
        ensures
            result == Ok::<u64, BufferError>(self@.logical_page_count),
    {
        Ok(self.logical_page_count)
    }

    /// Return whether every page below `published_page_count` is resident and
    /// complete.
    pub fn has_complete_page_prefix(&self, published_page_count: u64) -> (result: Result<
        bool,
        BufferError,
    >)
        ensures
            result == Ok::<bool, BufferError>(complete_prefix(self@.pages, published_page_count)),
    {
        let mut id: u64 = 0;
        while id < published_page_count
            invariant
                id <= published_page_count,
                complete_prefix(self@.pages, id),
            decreases published_page_count - id,
        {
            let complete = match self.pages.get(&id) {
                Some(page) => page.len() == PAGE_SIZE,
                None => false,
            };
            if !complete {
                assert(!(self@.pages.contains_key(id) && self@.pages[id].len() == PAGE_SIZE));
                return Ok(false);
            }
            id = id + 1;
        }
        Ok(true)
    }

    /// There is nothing to close.
    pub fn close(&mut self) -> (result: Result<(), BufferError>)
        ensures
            result == Ok::<(), BufferError>(()),
            final(self)@ == old(self)@,
    {
        Ok(())
    }

    /// The name under which this backend is reported.
    pub fn backend_name(&self) -> (name: &'static str)
        ensures
            name@ == "browser-buffer"@,
    {
        "browser-buffer"
    }

    /// Return whether the image has no pages yet.
    pub fn is_new(&self) -> (new: bool)
        ensures
            new == (self@.logical_page_count == 0),
    {
        self.logical_page_count == 0
    }
}

impl Default for BrowserBufferBackend {
    fn default() -> (buffer: Self)
        ensures
            buffer@ == (BufferView {
                pages: Map::empty(),
                dirty: Set::empty(),
                pinned: Set::empty(),
                logical_page_count: 0,
                sparse: false,
            }),
    {
        Self::new()
    }
}

proof fn lemma_take_set(ids: Seq<u64>, k: int)
    requires
        0 <= k < ids.len(),
        ids.no_duplicates(),
    ensures
        ids.take(k + 1).to_set() == ids.take(k).to_set().insert(ids[k]),
        !ids.take(k).to_set().contains(ids[k]),
{
    let short = ids.take(k);
    let long = ids.take(k + 1);
    assert forall|x: u64| long.to_set().contains(x) == short.to_set().insert(ids[k]).contains(x) by {
        lemma_listed(short, short.to_set(), x);
        lemma_listed(long, long.to_set(), x);
        if short.to_set().contains(x) {
            let j = choose|j: int| 0 <= j < short.len() && short[j] == x;
            assert(long[j] == x);
        }
        if x == ids[k] {
            assert(long[k] == x);
        }
        if long.to_set().contains(x) && x != ids[k] {
            let j = choose|j: int| 0 <= j < long.len() && long[j] == x;
            assert(short[j] == x);
        }
    }
    assert(long.to_set() =~= short.to_set().insert(ids[k]));
    if short.to_set().contains(ids[k]) {
        lemma_listed(short, short.to_set(), ids[k]);
        let j = choose|j: int| 0 <= j < short.len() && short[j] == ids[k];
        assert(ids[j] == ids[k]);
    }
}

fn retain_below(set: &HashSet<u64>, count: u64) -> (kept: HashSet<u64>)
    ensures
        kept@ == set@.filter(|id: u64| id < count),
{
    let ids = member_ids(set);
    let mut kept: HashSet<u64> = HashSet::new();
    let mut i: usize = 0;
    while i < ids.len()
        invariant
            i <= ids.len(),
            forall|id: u64|
                kept@.contains(id) <==> id < count && exists|j: int|
                    0 <= j < i && #[trigger] ids@[j] == id,
        decreases ids.len() - i,
    {
        let id: u64 = ids[i];
        if id < count {
            kept.insert(id);
        }
        i += 1;
    }
    proof {
        assert forall|id: u64| kept@.contains(id) == set@.filter(|id: u64| id < count).contains(
            id,
        ) by {
            lemma_listed(ids@, set@, id);
        }
        assert(kept@ =~= set@.filter(|id: u64| id < count));
    }
    kept
}

} // verus!
