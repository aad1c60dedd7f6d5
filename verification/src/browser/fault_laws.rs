//! What is reported of pages and pins that are refused: something is reported
//! exactly when they are refused, and what is reported is true.

use crate::browser::buffer::{
    declared_count, export_fault, exportable, first_stage_fault, pin_fault, resident_prefix,
    sparse_candidate, sparse_candidate_fault, sparse_image_fault, sparse_image_ok, stage_fault,
    stage_ok, BufferView,
};
use crate::browser::buffer_error::BufferError;
use crate::browser::buffer_laws::lemma_resident_prefix_len;
use crate::browser::db::DirtyPageError;
use crate::browser::open::{migration_fault, published_part};
use crate::browser::paging::{authority_accepts, authority_fault};
use crate::storage::header_of;
use vstd::prelude::*;

verus! {

/// What is told of pages and pins that make no sparse buffer is true of them.
pub open spec fn told_of_image(
    pages: Map<u64, Seq<u8>>,
    declared: u64,
    pinned: Set<u64>,
    fault: BufferError,
) -> bool {
    match fault {
        BufferError::EmptySparseImage => declared == 0,
        BufferError::InvalidPageLength { page_id, len } => pages.contains_key(page_id)
            && pages[page_id].len() != 4096 && len == pages[page_id].len() as usize,
        BufferError::ResidentOutsideDeclared { page_id, declared: told } => pages.contains_key(
            page_id,
        ) && page_id >= declared && told == declared,
        BufferError::PinnedNotResident { page_id } => pinned.contains(page_id)
            && !pages.contains_key(page_id),
        BufferError::MissingPageZero => !pages.contains_key(0),
        BufferError::Header(_) => pages.contains_key(0),
        BufferError::UnsupportedSparseVersion { version } => version == header_of(pages[0]).version
            && version != 12 && version != 13,
        BufferError::PageCountMismatch { published, declared: told } => published == header_of(
            pages[0],
        ).page_count && told == declared && published != declared,
        _ => false,
    }
}

/// Pages and pins that make no sparse buffer are refused with something that is
/// true of them, and others are not refused.
pub proof fn law_refused_image_has_its_reason(
    pages: Map<u64, Seq<u8>>,
    declared: u64,
    pinned: Set<u64>,
)
    ensures
        sparse_image_ok(pages, declared, pinned) <==> forall|fault: BufferError|
            !#[trigger] sparse_image_fault(pages, declared, pinned, fault),
        forall|fault: BufferError| #[trigger]
            sparse_image_fault(pages, declared, pinned, fault) ==> told_of_image(
                pages,
                declared,
                pinned,
                fault,
            ),
{
    lemma_image_fault(pages, declared, pinned);
}

proof fn lemma_image_fault(pages: Map<u64, Seq<u8>>, declared: u64, pinned: Set<u64>)
    ensures
        !sparse_image_ok(pages, declared, pinned) ==> exists|fault: BufferError| #[trigger]
            sparse_image_fault(pages, declared, pinned, fault),
{
    if declared == 0 {
        assert(sparse_image_fault(pages, declared, pinned, BufferError::EmptySparseImage));
    } else if crate::browser::buffer::has_resident_fault(pages, declared) {
        let id = choose|id: u64| #[trigger]
            pages.contains_key(id) && crate::browser::buffer::resident_fault(
                id,
                pages[id],
                declared,
            ) is Some;
        let fault = crate::browser::buffer::resident_fault(id, pages[id], declared)->0;
        assert(sparse_image_fault(pages, declared, pinned, fault));
    } else if crate::browser::buffer::has_absent_pin(pages, pinned) {
        let id = choose|id: u64| #[trigger] pinned.contains(id) && !pages.contains_key(id);
        assert(sparse_image_fault(
            pages,
            declared,
            pinned,
            BufferError::PinnedNotResident { page_id: id },
        ));
    } else if !pages.contains_key(0) {
        assert(sparse_image_fault(pages, declared, pinned, BufferError::MissingPageZero));
    } else if crate::browser::buffer::sparse_header_fault(pages[0], declared) is Some {
        let fault = crate::browser::buffer::sparse_header_fault(pages[0], declared)->0;
        assert(sparse_image_fault(pages, declared, pinned, fault));
    }
}

/// What is told of a batch that cannot be staged is true of it.
pub open spec fn told_of_batch(
    view: BufferView,
    batch: Seq<(u64, Seq<u8>)>,
    fault: BufferError,
) -> bool {
    match fault {
        BufferError::InvalidPageLength { page_id, len } => exists|i: int|
            0 <= i < batch.len() && (#[trigger] batch[i]).0 == page_id && batch[i].1.len() != 4096
                && len == batch[i].1.len() as usize,
        BufferError::StagedOutsideLogical { page_id, logical } => logical == view.logical_page_count
            && page_id >= logical && exists|i: int|
            0 <= i < batch.len() && (#[trigger] batch[i]).0 == page_id,
        BufferError::OverDirtyPage { page_id } => view.dirty.contains(page_id) && exists|i: int|
            0 <= i < batch.len() && (#[trigger] batch[i]).0 == page_id,
        BufferError::DuplicateStagedPage { page_id } => exists|i: int, j: int|
            0 <= i < j < batch.len() && (#[trigger] batch[i]).0 == page_id && (
            #[trigger] batch[j]).0 == page_id,
        _ => false,
    }
}

/// A batch that cannot be staged is refused with something that is true of it.
pub proof fn law_refused_batch_has_its_reason(
    view: BufferView,
    batch: Seq<(u64, Seq<u8>)>,
    fault: BufferError,
)
    requires
        first_stage_fault(view, batch, fault),
    ensures
        !stage_ok(view, batch),
        told_of_batch(view, batch, fault),
{
    let i = choose|i: int|
        0 <= i < batch.len() && #[trigger] stage_fault(view, batch, i) == Some(fault) && (forall|
            j: int,
        |
            0 <= j < i ==> #[trigger] stage_fault(view, batch, j) is None);
    assert(batch[i].0 == batch[i].0);
    if let BufferError::DuplicateStagedPage { page_id } = fault {
        let j = choose|j: int| 0 <= j < i && #[trigger] batch[j].0 == page_id;
        assert(batch[j].0 == page_id && batch[i].0 == page_id);
    }
}

/// What is told of pages that cannot be exported is true of them.
pub open spec fn told_of_export(pages: Map<u64, Seq<u8>>, fault: BufferError) -> bool {
    match declared_count(pages) {
        Err(error) => fault == error,
        Ok(count) => match fault {
            BufferError::InvalidPageLength { page_id, len } => pages.contains_key(page_id)
                && page_id < count && pages[page_id].len() != 4096 && len
                == pages[page_id].len() as usize,
            BufferError::Truncated { expected, found } => expected == count && found < expected
                && found == resident_prefix(pages, count).len(),
            _ => false,
        },
    }
}

/// Pages that cannot be exported are refused with something that is true of
/// them, and others are not refused. Pages that count towards an export are those
/// below the declared count.
pub proof fn law_refused_export_has_its_reason(pages: Map<u64, Seq<u8>>, fault: BufferError)
    ensures
        exportable(pages) ==> !export_fault(pages, fault),
        export_fault(pages, fault) ==> told_of_export(pages, fault),
        forall|id: u64, count: u64| #[trigger]
            resident_prefix(pages, count).contains(id) <==> pages.contains_key(id) && id < count,
{
    if declared_count(pages) is Ok {
        lemma_resident_prefix_len(pages, declared_count(pages)->Ok_0);
    }
}

/// What is told of a buffer that cannot become sparse is true of it.
pub open spec fn told_of_candidate(
    view: BufferView,
    pinned: Set<u64>,
    fault: BufferError,
) -> bool {
    let declared = declared_count(view.pages)->Ok_0;
    match fault {
        BufferError::DirtyCandidate => view.dirty != Set::<u64>::empty(),
        BufferError::CandidateCountMismatch { logical, published } => logical
            == view.logical_page_count && published == declared && logical != published,
        BufferError::MissingPageZero => !view.pages.contains_key(0),
        BufferError::UnsupportedSparseVersion { version } => version == header_of(
            view.pages[0],
        ).version && version != 12 && version != 13,
        BufferError::PinOutsideDeclared { page_id, declared: told } => pinned.contains(page_id)
            && told == declared && page_id >= declared,
        BufferError::PinNotResident { page_id } => pinned.contains(page_id)
            && !view.pages.contains_key(page_id),
        _ => export_fault(view.pages, fault),
    }
}

/// A buffer that cannot become sparse is refused with something that is true of
/// it, and others are not refused.
pub proof fn law_refused_candidate_has_its_reason(
    view: BufferView,
    pinned: Set<u64>,
    fault: BufferError,
)
    ensures
        sparse_candidate(view, pinned) ==> !sparse_candidate_fault(view, pinned, fault),
        sparse_candidate_fault(view, pinned, fault) && exportable(view.pages) ==> told_of_candidate(
            view,
            pinned,
            fault,
        ),
        sparse_candidate_fault(view, pinned, fault) && !exportable(view.pages) ==> fault
            == BufferError::DirtyCandidate || told_of_export(view.pages, fault),
{
    law_refused_export_has_its_reason(view.pages, fault);
}

/// Pins that a buffer cannot take as its authority are refused with something
/// that is true of them, and others are not refused.
pub proof fn law_refused_pins_have_their_reason(
    view: BufferView,
    pins: Set<u64>,
    fault: BufferError,
)
    ensures
        authority_accepts(view, pins) ==> !authority_fault(view, pins, fault),
        view.sparse && authority_fault(view, pins, fault) ==> match fault {
            BufferError::PinOutsideLogical { page_id, logical } => pins.contains(page_id)
                && page_id >= logical && logical == view.logical_page_count,
            BufferError::PinNotResident { page_id } => pins.contains(page_id)
                && !view.pages.contains_key(page_id),
            _ => false,
        },
        !view.sparse && authority_fault(view, pins, fault) ==> sparse_candidate_fault(
            view,
            pins,
            fault,
        ),
        forall|id: u64| (#[trigger] pin_fault(view, id)) is None <==> id < view.logical_page_count
            && view.pages.contains_key(id),
{
    law_refused_candidate_has_its_reason(view, pins, fault);
}

/// A migrated image is not closed only where page 0 declares no page count, and
/// the reason for that is told; the changed pages of a well-formed image can
/// always be read.
pub proof fn law_migrated_image_is_closed(view: BufferView, text: Seq<char>)
    requires
        view.wf(),
    ensures
        migration_fault(view, text) <==> declared_count(view.pages) is Err && text
            == declared_count(view.pages)->Err_0.text(),
{
    if declared_count(view.pages) is Ok {
        let part = published_part(view);
        assert forall|fault: DirtyPageError| part.dirty.contains(fault.page_id) implies (
        #[trigger] fault.text() != text || crate::browser::buffer::read_outcome(part, fault.page_id)
            is Ok) by {
            assert(view.dirty.contains(fault.page_id));
            assert(part.pages.contains_key(fault.page_id));
        }
    }
}

} // verus!
