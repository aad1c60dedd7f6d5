//! Laws of the page buffer that span several of its operations.

use crate::browser::buffer::{
    batch_bytes, complete_prefix, declared_count, eviction, exportable, has_prefix_fault, overlay,
    page_fault, prefix_view, read_outcome, resident_fault, resident_prefix, sparse_image_ok,
    stage_fault, stage_ok, without_pages, written_view, BufferView,
};
use crate::browser::buffer_error::{BufferError, PageNotResident};
use crate::collections::page_bytes;
use crate::storage::{header_of, PAGE_SIZE};
use vstd::prelude::*;

verus! {

/// A read after a write gives back the written bytes, and every other resident
/// page keeps its own.
pub proof fn law_read_after_write(view: BufferView, page_id: u64, data: Seq<u8>)
    ensures
        read_outcome(written_view(view, page_id, data), page_id) == Ok::<Seq<u8>, BufferError>(
            data,
        ),
        forall|other: u64|
            other != page_id && #[trigger] view.pages.contains_key(other) ==> read_outcome(
                written_view(view, page_id, data),
                other,
            ) == Ok::<Seq<u8>, BufferError>(view.pages[other]),
{
}

/// A write keeps the buffer well formed, marks exactly its own page dirty and
/// never shrinks the image.
pub proof fn law_write_extends(view: BufferView, page_id: u64, data: Seq<u8>)
    requires
        view.wf(),
        page_id < u64::MAX,
    ensures
        written_view(view, page_id, data).wf(),
        written_view(view, page_id, data).dirty == view.dirty.insert(page_id),
        written_view(view, page_id, data).logical_page_count >= view.logical_page_count,
        written_view(view, page_id, data).logical_page_count > page_id,
{
    assert(view.pages.insert(page_id, data).dom() =~= view.pages.dom().insert(page_id));
}

/// Writing the same page twice leaves only the second write.
pub proof fn law_last_write_wins(view: BufferView, page_id: u64, first: Seq<u8>, second: Seq<u8>)
    requires
        page_id < u64::MAX,
    ensures
        written_view(written_view(view, page_id, first), page_id, second) == written_view(
            view,
            page_id,
            second,
        ),
{
    let left = written_view(written_view(view, page_id, first), page_id, second);
    let right = written_view(view, page_id, second);
    assert(left.pages =~= right.pages);
    assert(left.dirty =~= right.dirty);
}

/// Eviction takes away neither dirty nor pinned pages, changes no page that
/// stays, and keeps the size of the image.
pub proof fn law_eviction_keeps_authority(view: BufferView, limit: nat, removed: Set<u64>)
    requires
        view.wf(),
        eviction(view, limit, removed),
    ensures
        without_pages(view, removed).wf(),
        without_pages(view, removed).logical_page_count == view.logical_page_count,
        without_pages(view, removed).dirty == view.dirty,
        without_pages(view, removed).pinned == view.pinned,
        forall|id: u64|
            (view.dirty.contains(id) || view.pinned.contains(id))
                ==> #[trigger] without_pages(view, removed).pages.contains_key(id),
        forall|id: u64| #[trigger]
            without_pages(view, removed).pages.contains_key(id) ==> without_pages(
                view,
                removed,
            ).pages[id] == view.pages[id],
{
    assert(without_pages(view, removed).pages.dom() =~= view.pages.dom().difference(removed));
}

/// An eager buffer never gives up a page.
pub proof fn law_eager_never_evicts(view: BufferView, limit: nat, removed: Set<u64>)
    requires
        view.wf(),
        !view.sparse,
        eviction(view, limit, removed),
    ensures
        without_pages(view, removed) == view,
{
    vstd::set_lib::lemma_len_subset(removed, view.pages.dom());
    assert(removed.subset_of(view.pages.dom()));
    assert(removed.finite());
    assert(removed =~= Set::empty());
    assert(view.pages.remove_keys(removed) =~= view.pages);
}

/// After an eviction a sparse buffer holds at most `limit` pages, or nothing
/// but pages that must stay.
pub proof fn law_eviction_reaches_limit(view: BufferView, limit: nat, removed: Set<u64>)
    requires
        view.wf(),
        view.sparse,
        eviction(view, limit, removed),
    ensures
        without_pages(view, removed).pages.dom().len() <= limit || without_pages(
            view,
            removed,
        ).evictable() == Set::<u64>::empty(),
{
    let after = without_pages(view, removed);
    assert(after.pages.dom() =~= view.pages.dom().difference(removed));
    assert(removed.subset_of(view.pages.dom()));
    vstd::set_lib::lemma_len_subset(removed, view.pages.dom());
    vstd::set_lib::lemma_len_subset(view.evictable(), view.pages.dom());
    lemma_difference_len(view.pages.dom(), removed);
    if view.pages.dom().len() > limit && view.evictable().len() <= view.pages.dom().len() - limit {
        lemma_subset_same_len(removed, view.evictable());
        assert(after.evictable() =~= Set::empty());
    }
}

/// What an eviction removes is determined by the buffer and the limit.
pub proof fn law_eviction_is_determined(
    view: BufferView,
    limit: nat,
    first: Set<u64>,
    second: Set<u64>,
)
    requires
        view.wf(),
        eviction(view, limit, first),
        eviction(view, limit, second),
    ensures
        first == second,
{
    vstd::set_lib::lemma_len_subset(view.evictable(), view.pages.dom());
    vstd::set_lib::lemma_len_subset(first, view.evictable());
    vstd::set_lib::lemma_len_subset(second, view.evictable());
    if exists|id: u64| #[trigger] first.contains(id) && !second.contains(id) {
        let id = choose|id: u64| #[trigger] first.contains(id) && !second.contains(id);
        assert forall|other: u64| #[trigger] second.contains(other) implies first.contains(other) by {
            assert(view.evictable().contains(other));
            assert(view.evictable().contains(id));
            if id < other {
                assert(second.contains(id));
            }
        }
        lemma_subset_same_len(second, first);
    } else {
        lemma_subset_same_len(first, second);
    }
}

/// Staging clean pages changes no dirty page and marks no page dirty.
pub proof fn law_staging_spares_dirty_pages(view: BufferView, batch: Seq<(u64, Seq<u8>)>, id: u64)
    requires
        stage_ok(view, batch),
        view.dirty.contains(id),
        view.pages.contains_key(id),
    ensures
        overlay(view.pages, batch).contains_key(id),
        overlay(view.pages, batch)[id] == view.pages[id],
{
    assert forall|i: int| 0 <= i < batch.len() implies #[trigger] batch[i].0 != id by {
        assert(stage_fault(view, batch, i) is None);
    }
    lemma_overlay_untouched(view.pages, batch, id);
}

/// Every page of a staged batch is then read back as it was staged.
pub proof fn law_staged_pages_are_readable(view: BufferView, batch: Seq<(u64, Seq<u8>)>, i: int)
    requires
        stage_ok(view, batch),
        0 <= i < batch.len(),
    ensures
        read_outcome(
            (BufferView { pages: overlay(view.pages, batch), ..view }),
            batch[i].0,
        ) == Ok::<Seq<u8>, BufferError>(batch[i].1),
{
    assert forall|j: int, k: int| 0 <= j < k < batch.len() implies #[trigger] batch[j].0
        != #[trigger] batch[k].0 by {
        assert(stage_fault(view, batch, k) is None);
    }
    lemma_overlay_holds(view.pages, batch, i);
}

/// Staging the page that a sparse read asked for answers that read.
pub proof fn law_demand_page_answers_read(view: BufferView, page_id: u64, page: Seq<u8>)
    requires
        view.wf(),
        read_outcome(view, page_id) == Err::<Seq<u8>, BufferError>(
            BufferError::NotResident(PageNotResident(page_id)),
        ),
        page.len() == PAGE_SIZE,
    ensures
        stage_ok(view, seq![(page_id, page)]),
        read_outcome(
            (BufferView { pages: view.pages.insert(page_id, page), ..view }),
            page_id,
        ) == Ok::<Seq<u8>, BufferError>(page),
{
    let batch = seq![(page_id, page)];
    assert forall|i: int| 0 <= i < batch.len() implies #[trigger] stage_fault(
        view,
        batch,
        i,
    ) is None by {
        assert(batch[i] == (page_id, page));
        assert(!view.pages.contains_key(page_id));
    }
}

/// Dropping the unpublished tail twice is the same as dropping it once, and
/// the published page count does not change by it.
pub proof fn law_retain_is_idempotent(view: BufferView)
    requires
        declared_count(view.pages) is Ok,
    ensures
        ({
            let count = declared_count(view.pages)->Ok_0;
            &&& declared_count(prefix_view(view, count).pages) == declared_count(view.pages)
            &&& prefix_view(prefix_view(view, count), count) == prefix_view(view, count)
        }),
{
    let count = declared_count(view.pages)->Ok_0;
    let once = prefix_view(view, count);
    let twice = prefix_view(once, count);
    assert(twice.pages =~= once.pages);
    assert(twice.dirty =~= once.dirty);
    assert(twice.pinned =~= once.pinned);
    if view.pages.is_empty() {
        assert(once.pages =~= Map::empty());
    } else {
        assert(once.pages.contains_key(0));
        assert(once.pages[0] == view.pages[0]);
        assert(once.pages.dom().contains(0));
    }
}

/// An image can be exported exactly when every page of its published prefix is
/// present and complete.
pub proof fn law_exportable_prefix_is_complete(view: BufferView)
    requires
        declared_count(view.pages) is Ok,
    ensures
        exportable(view.pages) <==> complete_prefix(
            view.pages,
            declared_count(view.pages)->Ok_0,
        ),
{
    lemma_exportable_prefix(view.pages);
}

pub(crate) proof fn lemma_resident_prefix_len(pages: Map<u64, Seq<u8>>, count: u64)
    ensures
        resident_prefix(pages, count).len() <= count,
{
    lemma_below_len(count);
    vstd::set_lib::lemma_len_subset(resident_prefix(pages, count), below(count));
}

pub(crate) proof fn lemma_exportable_prefix(pages: Map<u64, Seq<u8>>)
    requires
        declared_count(pages) is Ok,
    ensures
        exportable(pages) <==> complete_prefix(pages, declared_count(pages)->Ok_0),
{
    let count = declared_count(pages)->Ok_0;
    let found = resident_prefix(pages, count);
    let wanted = below(count);
    lemma_below_len(count);
    assert(found.subset_of(wanted));
    vstd::set_lib::lemma_len_subset(found, wanted);
    if exportable(pages) {
        lemma_subset_same_len(found, wanted);
        assert forall|id: u64| id < count implies #[trigger] pages.contains_key(id)
            && pages[id].len() == PAGE_SIZE by {
            assert(wanted.contains(id));
            assert(found.contains(id));
            assert(page_fault(id, pages[id]) is None);
        }
    }
    if complete_prefix(pages, count) {
        assert(found =~= wanted);
        assert(!has_prefix_fault(pages, count));
    }
}

/// A buffer made of an image's own pages, all of them clean, reads back that
/// image.
pub proof fn law_snapshot_reads_back(view: BufferView, batch: Seq<(u64, Seq<u8>)>, i: int)
    requires
        view.pages == overlay(Map::empty(), batch),
        forall|j: int, k: int|
            0 <= j < k < batch.len() ==> #[trigger] batch[j].0 != #[trigger] batch[k].0,
        0 <= i < batch.len(),
    ensures
        read_outcome(view, batch[i].0) == Ok::<Seq<u8>, BufferError>(batch[i].1),
{
    lemma_overlay_holds(Map::empty(), batch, i);
}

/// The ids below `count`.
pub open spec fn below(count: u64) -> Set<u64> {
    Set::new(|id: u64| id < count)
}

proof fn lemma_below_len(count: u64)
    ensures
        below(count).finite(),
        below(count).len() == count,
    decreases count,
{
    if count == 0 {
        assert(below(count) =~= Set::empty());
    } else {
        let less = (count - 1) as u64;
        lemma_below_len(less);
        assert(below(count) =~= below(less).insert(less));
    }
}

proof fn lemma_subset_same_len(small: Set<u64>, large: Set<u64>)
    requires
        large.finite(),
        small.subset_of(large),
        small.len() == large.len(),
    ensures
        small == large,
{
    vstd::set_lib::lemma_len_subset(small, large);
    vstd::set_lib::lemma_subset_equality(small, large);
}

proof fn lemma_difference_len(large: Set<u64>, small: Set<u64>)
    requires
        large.finite(),
        small.subset_of(large),
    ensures
        large.difference(small).len() == large.len() - small.len(),
{
    vstd::set_lib::lemma_len_subset(small, large);
    vstd::set_lib::lemma_len_subset(large.difference(small), large);
    assert(large =~= large.difference(small).union(small));
    vstd::set_lib::lemma_set_disjoint_lens(large.difference(small), small);
}

proof fn lemma_overlay_untouched(pages: Map<u64, Seq<u8>>, batch: Seq<(u64, Seq<u8>)>, id: u64)
    requires
        forall|i: int| 0 <= i < batch.len() ==> #[trigger] batch[i].0 != id,
    ensures
        overlay(pages, batch).contains_key(id) == pages.contains_key(id),
        pages.contains_key(id) ==> overlay(pages, batch)[id] == pages[id],
    decreases batch.len(),
{
    if batch.len() > 0 {
        assert forall|i: int| 0 <= i < batch.drop_last().len() implies #[trigger] batch.drop_last()[i].0
            != id by {
            assert(batch[i].0 != id);
        }
        lemma_overlay_untouched(pages, batch.drop_last(), id);
        assert(batch[batch.len() - 1].0 != id);
    }
}

proof fn lemma_overlay_holds(pages: Map<u64, Seq<u8>>, batch: Seq<(u64, Seq<u8>)>, i: int)
    requires
        forall|j: int, k: int|
            0 <= j < k < batch.len() ==> #[trigger] batch[j].0 != #[trigger] batch[k].0,
        0 <= i < batch.len(),
    ensures
        overlay(pages, batch).contains_key(batch[i].0),
        overlay(pages, batch)[batch[i].0] == batch[i].1,
    decreases batch.len(),
{
    let shorter = batch.drop_last();
    if i < batch.len() - 1 {
        assert(shorter[i] == batch[i]);
        assert forall|j: int, k: int| 0 <= j < k < shorter.len() implies #[trigger] shorter[j].0
            != #[trigger] shorter[k].0 by {
            assert(batch[j].0 != batch[k].0);
        }
        lemma_overlay_holds(pages, shorter, i);
        assert(batch[i].0 != batch[batch.len() - 1].0);
    }
}

/// A write grows the image to hold its page and no further, and changes neither
/// the pins nor what kind of buffer it is.
pub proof fn law_write_grows_the_image_to_its_page(view: BufferView, page_id: u64, data: Seq<u8>)
    requires
        page_id < u64::MAX,
    ensures
        ({
            let after = written_view(view, page_id, data);
            &&& after.logical_page_count == view.logical_page_count || after.logical_page_count
                == page_id + 1
            &&& after.logical_page_count >= view.logical_page_count
            &&& after.logical_page_count >= page_id + 1
            &&& after.pinned == view.pinned
            &&& after.sparse == view.sparse
            &&& forall|id: u64| #[trigger]
                after.dirty.contains(id) <==> id == page_id || view.dirty.contains(id)
            &&& forall|id: u64| #[trigger]
                after.pages.contains_key(id) <==> id == page_id || view.pages.contains_key(id)
        }),
{
}

/// A page that is not resident is reported by what is known of it: a sparse
/// buffer says of a page of its image that it is not resident, and any other
/// page does not exist.
pub proof fn law_absent_page_is_reported(view: BufferView, page_id: u64)
    ensures
        read_outcome(view, page_id) is Ok <==> view.pages.contains_key(page_id),
        view.pages.contains_key(page_id) ==> read_outcome(view, page_id) == Ok::<
            Seq<u8>,
            BufferError,
        >(view.pages[page_id]),
        !view.pages.contains_key(page_id) && view.sparse && page_id < view.logical_page_count
            ==> read_outcome(view, page_id) == Err::<Seq<u8>, BufferError>(
            BufferError::NotResident(PageNotResident(page_id)),
        ),
        !view.pages.contains_key(page_id) && (!view.sparse || page_id >= view.logical_page_count)
            ==> read_outcome(view, page_id) == Err::<Seq<u8>, BufferError>(
            BufferError::PageNotFound { page_id },
        ),
{
}

/// A batch can be staged exactly when each of its pages is a full page of the
/// image, is not dirty, and is named once.
pub proof fn law_stageable_batches(view: BufferView, batch: Seq<(u64, Seq<u8>)>)
    ensures
        stage_ok(view, batch) <==> {
            &&& forall|i: int|
                0 <= i < batch.len() ==> (#[trigger] batch[i]).1.len() == 4096 && batch[i].0
                    < view.logical_page_count && !view.dirty.contains(batch[i].0)
            &&& forall|i: int, j: int|
                0 <= i < j < batch.len() ==> (#[trigger] batch[i]).0 != (#[trigger] batch[j]).0
        },
{
    if stage_ok(view, batch) {
        assert forall|i: int| 0 <= i < batch.len() implies (#[trigger] batch[i]).1.len() == 4096
            && batch[i].0 < view.logical_page_count && !view.dirty.contains(batch[i].0) by {
            assert(stage_fault(view, batch, i) is None);
        }
        assert forall|i: int, j: int| 0 <= i < j < batch.len() implies (#[trigger] batch[i]).0 != (
        #[trigger] batch[j]).0 by {
            assert(stage_fault(view, batch, j) is None);
        }
    }
}

/// Staging puts every page of the batch into the buffer and leaves every other
/// page alone.
pub proof fn law_staging_adds_the_batch(
    pages: Map<u64, Seq<u8>>,
    batch: Seq<(u64, Seq<u8>)>,
    id: u64,
)
    requires
        forall|j: int, k: int|
            0 <= j < k < batch.len() ==> #[trigger] batch[j].0 != #[trigger] batch[k].0,
    ensures
        forall|i: int|
            0 <= i < batch.len() ==> overlay(pages, batch).contains_key((#[trigger] batch[i]).0)
                && overlay(pages, batch)[batch[i].0] == batch[i].1,
        (forall|i: int| 0 <= i < batch.len() ==> #[trigger] batch[i].0 != id) ==> overlay(
            pages,
            batch,
        ).contains_key(id) == pages.contains_key(id) && (pages.contains_key(id) ==> overlay(
            pages,
            batch,
        )[id] == pages[id]),
{
    assert forall|i: int| 0 <= i < batch.len() implies overlay(pages, batch).contains_key(
        (#[trigger] batch[i]).0,
    ) && overlay(pages, batch)[batch[i].0] == batch[i].1 by {
        lemma_overlay_holds(pages, batch, i);
    }
    if forall|i: int| 0 <= i < batch.len() ==> #[trigger] batch[i].0 != id {
        lemma_overlay_untouched(pages, batch, id);
    }
}

/// An image publishes the page count that its page 0 records. An image without
/// pages publishes none, and one whose page 0 is absent, unreadable or without
/// pages is refused.
pub proof fn law_page_zero_declares_the_image(pages: Map<u64, Seq<u8>>)
    ensures
        pages.is_empty() ==> declared_count(pages) == Ok::<u64, BufferError>(0),
        !pages.is_empty() ==> (declared_count(pages) is Ok <==> {
            &&& pages.contains_key(0)
            &&& pages[0].len() >= 84
            &&& header_of(pages[0]).magic == 0x4652_474D
            &&& 1 <= header_of(pages[0]).version <= 13
            &&& header_of(pages[0]).page_count > 0
        }),
        !pages.is_empty() && declared_count(pages) is Ok ==> declared_count(pages) == Ok::<
            u64,
            BufferError,
        >(header_of(pages[0]).page_count),
        !pages.is_empty() && !pages.contains_key(0) ==> declared_count(pages) == Err::<
            u64,
            BufferError,
        >(BufferError::PageZeroNotFound),
{
}

/// A sparse buffer can be made exactly of full pages inside an image that is not
/// empty, among them every pinned page and a page 0 that is usable, is of a
/// format that can be paged, and declares that very image.
pub proof fn law_sparse_images(pages: Map<u64, Seq<u8>>, declared: u64, pinned: Set<u64>)
    ensures
        sparse_image_ok(pages, declared, pinned) <==> {
            &&& declared > 0
            &&& forall|id: u64| #[trigger]
                pages.contains_key(id) ==> pages[id].len() == 4096 && id < declared
            &&& forall|id: u64| #[trigger] pinned.contains(id) ==> pages.contains_key(id)
            &&& pages.contains_key(0)
            &&& header_of(pages[0]).magic == 0x4652_474D
            &&& header_of(pages[0]).version == 12 || header_of(pages[0]).version == 13
            &&& header_of(pages[0]).page_count == declared
        },
{
    if sparse_image_ok(pages, declared, pinned) {
        assert forall|id: u64| #[trigger] pages.contains_key(id) implies pages[id].len() == 4096
            && id < declared by {
            assert(resident_fault(id, pages[id], declared) is None);
        }
    }
}

/// What a buffer is said to hold are the bytes of its pages, page by page, and
/// the same holds of a batch.
pub proof fn law_views_hold_the_bytes(
    pages: Map<u64, Vec<u8>>,
    id: u64,
    batch: Seq<(u64, Vec<u8>)>,
    i: int,
)
    ensures
        page_bytes(pages).contains_key(id) <==> pages.contains_key(id),
        pages.contains_key(id) ==> page_bytes(pages)[id] == pages[id]@,
        batch_bytes(batch).len() == batch.len(),
        0 <= i < batch.len() ==> batch_bytes(batch)[i] == (batch[i].0, batch[i].1@),
{
}

} // verus!
