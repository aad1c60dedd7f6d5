//! What an imported or exported image keeps of its bytes, and which images are
//! taken.

use crate::browser::buffer::{
    batch_bytes, declared_count, overlay, read_outcome, BufferView,
};
use crate::browser::buffer_error::BufferError;
use crate::browser::guard::BrowserOpenMode;
use crate::browser::image::{
    blob_size, consults_pins, image_blob, image_pages, import_becomes_sparse, import_refusal,
    lists_image, recorded_version, sealed_view, unknown_pins_text, BrowserImportPolicy,
    ExportError, ImportError,
};
use crate::browser::replacement::{flushed, residency_settled, seal_fault};
use crate::storage::{encodes, law_little_endian_undoes_encoding, paged_format};
use vstd::prelude::*;

verus! {

/// Splitting a blob keeps its bytes: byte `k` of the blob is byte `k % 4096` of
/// page `k / 4096`, wherever the blob holds that page whole, and a page that it
/// does not hold whole is left out.
pub proof fn law_split_blob_keeps_every_byte(bytes: Seq<u8>, k: int)
    requires
        0 <= k < bytes.len() <= usize::MAX,
    ensures
        ({
            let id = (k / 4096) as u64;
            let whole = 4096 * (k / 4096 + 1) <= bytes.len();
            &&& image_pages(bytes).contains_key(id) <==> whole
            &&& whole ==> image_pages(bytes)[id].len() == 4096 && image_pages(bytes)[id][k % 4096]
                == bytes[k]
        }),
        forall|id: u64| #[trigger]
            image_pages(bytes).contains_key(id) ==> 4096 * (id + 1) <= bytes.len(),
{
    let id = (k / 4096) as u64;
    assert(id as int == k / 4096);
}

/// Joining an image keeps its pages: they take their places in the blob one
/// after the other, each with all of its bytes, and nothing else is there.
pub proof fn law_exported_blob_holds_every_page(pages: Map<u64, Seq<u8>>, count: u64)
    requires
        forall|id: u64| id < count ==> (#[trigger] pages[id]).len() == 4096,
    ensures
        image_blob(pages, count as nat).len() == 4096 * count,
        forall|id: u64|
            id < count ==> image_blob(pages, count as nat).subrange(
                4096 * id,
                4096 * id + 4096,
            ) == #[trigger] pages[id],
    decreases count,
{
    if count > 0 {
        let last = (count - 1) as u64;
        law_exported_blob_holds_every_page(pages, last);
        let shorter = image_blob(pages, last as nat);
        let blob = image_blob(pages, count as nat);
        assert(blob == shorter + pages[last]);
        assert(pages[last].len() == 4096);
        assert forall|id: u64| id < count implies blob.subrange(4096 * id, 4096 * id + 4096)
            == #[trigger] pages[id] by {
            if id < last {
                assert(blob.subrange(4096 * id, 4096 * id + 4096) =~= shorter.subrange(
                    4096 * id,
                    4096 * id + 4096,
                ));
            } else {
                assert(blob.subrange(4096 * id, 4096 * id + 4096) =~= pages[last]);
            }
        }
    }
}

/// A blob takes 4096 bytes for every page, and is refused exactly when that is
/// more than memory can address.
pub proof fn law_blob_takes_a_page_for_every_page(count: u64)
    ensures
        blob_size(count) is Ok <==> 4096 * count <= usize::MAX,
        blob_size(count) matches Ok(size) ==> size == 4096 * count,
        blob_size(count) == Err::<usize, ExportError>(ExportError::TooManyPages) <==> count
            > usize::MAX,
{
}

/// Which formats are taken. The strict policy takes formats 11 to 13, whatever
/// the handle. Otherwise an eager handle takes everything, and a paged one takes
/// formats 10 to 13. A paged handle pages formats 11 to 13, and wherever it
/// pages, or the strict policy asks, the pins of such an image are consulted.
pub proof fn law_import_takes_what_it_can_represent(
    policy: BrowserImportPolicy,
    open_mode: BrowserOpenMode,
    version: u32,
)
    ensures
        ({
            let strict = policy == BrowserImportPolicy::RequirePagedReady;
            let paged = open_mode == BrowserOpenMode::Paged;
            let refusal = import_refusal(policy, open_mode, version);
            &&& strict && 11 <= version <= 13 ==> refusal is None
            &&& strict && !(11 <= version <= 13) ==> refusal == Some(
                ImportError::StrictVersion { version },
            )
            &&& !strict && !paged ==> refusal is None
            &&& !strict && paged && 10 <= version <= 13 ==> refusal is None
            &&& !strict && paged && !(10 <= version <= 13) ==> refusal == Some(
                ImportError::Unrepresentable { version },
            )
            &&& import_becomes_sparse(open_mode, version) <==> paged && 11 <= version <= 13
            &&& consults_pins(policy, open_mode, version) <==> (strict || paged) && 11 <= version
                <= 13
        }),
        paged_format(version) <==> version == 12 || version == 13,
{
}

/// The format of an image is the number that bytes 4 to 7 of its page 0 encode.
/// Where page 0 cannot be read, that is what is reported.
pub proof fn law_recorded_version_is_read_off_page_zero(view: BufferView, version: u32)
    ensures
        view.pages.contains_key(0) && view.pages[0].len() >= 84 && encodes(
            view.pages[0],
            4,
            4,
            version as int,
        ) ==> recorded_version(view) == Ok::<u32, BufferError>(version),
        !view.pages.contains_key(0) ==> recorded_version(view) is Err && read_outcome(view, 0)
            is Err && recorded_version(view)->Err_0 == read_outcome(view, 0)->Err_0,
        view.pages.contains_key(0) && view.pages[0].len() < 84 ==> recorded_version(view) is Err,
{
    if encodes(view.pages[0], 4, 4, version as int) {
        law_little_endian_undoes_encoding(view.pages[0], 4, 4, version as int);
    }
}

/// Sealing an import keeps exactly the pages below the declared count, with
/// their bytes, makes that count the size of the image, and leaves nothing to
/// flush. It fails only where page 0 declares no count or records no format.
pub proof fn law_sealed_import_is_the_declared_part(view: BufferView, count: u64)
    requires
        declared_count(view.pages) == Ok::<u64, BufferError>(count),
    ensures
        forall|id: u64| #[trigger]
            sealed_view(view).pages.contains_key(id) <==> view.pages.contains_key(id) && id < count,
        forall|id: u64| #[trigger]
            sealed_view(view).pages.contains_key(id) ==> sealed_view(view).pages[id]
                == view.pages[id],
        forall|id: u64| #[trigger]
            sealed_view(view).pinned.contains(id) <==> view.pinned.contains(id) && id < count,
        sealed_view(view).dirty == Set::<u64>::empty(),
        sealed_view(view).logical_page_count == count,
        sealed_view(view).sparse == view.sparse,
        seal_fault(view) is None ==> view.pages.contains_key(0) && view.pages[0].len() >= 84,
        view.pages.contains_key(0) && view.pages[0].len() >= 84 && count > 0 ==> seal_fault(view)
            is None,
{
    if count > 0 {
        assert(sealed_view(view).pages.contains_key(0) <==> view.pages.contains_key(0));
    }
}

/// An import whose page 0 declares no count is reported with the reason for it.
pub proof fn law_undeclared_import_is_not_sealed(view: BufferView)
    requires
        declared_count(view.pages) is Err,
    ensures
        seal_fault(view) == Some(ImportError::Buffer(declared_count(view.pages)->Err_0)),
{
}

proof fn lemma_overlay_dom(batch: Seq<(u64, Seq<u8>)>, id: u64)
    ensures
        overlay(Map::empty(), batch).contains_key(id) <==> exists|i: int|
            0 <= i < batch.len() && (#[trigger] batch[i]).0 == id,
        overlay(Map::empty(), batch).contains_key(id) ==> exists|i: int|
            0 <= i < batch.len() && (#[trigger] batch[i]).0 == id && batch[i].1 == overlay(
                Map::empty(),
                batch,
            )[id],
        overlay(Map::empty(), batch).dom().finite(),
        overlay(Map::empty(), batch).dom().len() <= batch.len(),
    decreases batch.len(),
{
    if batch.len() > 0 {
        let shorter = batch.drop_last();
        lemma_overlay_dom(shorter, id);
        let before = overlay(Map::empty(), shorter);
        assert(overlay(Map::empty(), batch).dom() =~= before.dom().insert(batch.last().0));
        assert(batch[batch.len() - 1] == batch.last());
        if overlay(Map::empty(), batch).contains_key(id) && batch.last().0 != id {
            let i = choose|i: int|
                0 <= i < shorter.len() && (#[trigger] shorter[i]).0 == id && shorter[i].1
                    == before[id];
            assert(batch[i] == shorter[i]);
        }
        if exists|i: int| 0 <= i < batch.len() && (#[trigger] batch[i]).0 == id {
            let i = choose|i: int| 0 <= i < batch.len() && (#[trigger] batch[i]).0 == id;
            if i < shorter.len() {
                assert(shorter[i].0 == id);
            }
        }
    }
}

/// The listed pages of an image are all of its pages and nothing else, each once.
pub proof fn law_listed_image_is_complete(view: BufferView, pages: Seq<(u64, Vec<u8>)>)
    requires
        lists_image(view, pages),
    ensures
        forall|i: int|
            0 <= i < pages.len() ==> view.pages.contains_key((#[trigger] pages[i]).0),
        forall|id: u64| #[trigger]
            view.pages.contains_key(id) ==> exists|i: int|
                0 <= i < pages.len() && (#[trigger] pages[i]).0 == id && pages[i].1@
                    == view.pages[id],
        forall|i: int, j: int|
            0 <= i < j < pages.len() ==> (#[trigger] pages[i]).0 != (#[trigger] pages[j]).0,
{
    let batch = batch_bytes(pages);
    assert forall|i: int| 0 <= i < pages.len() implies view.pages.contains_key(
        (#[trigger] pages[i]).0,
    ) by {
        lemma_overlay_dom(batch, pages[i].0);
        assert(batch[i].0 == pages[i].0);
    }
    assert forall|id: u64| #[trigger] view.pages.contains_key(id) implies exists|i: int|
        0 <= i < pages.len() && (#[trigger] pages[i]).0 == id && pages[i].1@ == view.pages[id] by {
        lemma_overlay_dom(batch, id);
        let i = choose|i: int|
            0 <= i < batch.len() && (#[trigger] batch[i]).0 == id && batch[i].1 == overlay(
                Map::empty(),
                batch,
            )[id];
        assert(pages[i].0 == id);
    }
    assert forall|i: int, j: int| 0 <= i < j < pages.len() implies (#[trigger] pages[i]).0 != (
    #[trigger] pages[j]).0 by {
        if pages[i].0 == pages[j].0 {
            lemma_repeated_id(batch, i, j);
        }
    }
}

proof fn lemma_repeated_id(batch: Seq<(u64, Seq<u8>)>, i: int, j: int)
    requires
        0 <= i < j < batch.len(),
        batch[i].0 == batch[j].0,
    ensures
        overlay(Map::empty(), batch).dom().len() < batch.len(),
    decreases batch.len(),
{
    let shorter = batch.drop_last();
    let before = overlay(Map::empty(), shorter);
    lemma_overlay_dom(shorter, batch.last().0);
    assert(overlay(Map::empty(), batch).dom() =~= before.dom().insert(batch.last().0));
    if j == batch.len() - 1 {
        assert(shorter[i].0 == batch.last().0);
        assert(before.contains_key(batch.last().0));
    } else {
        lemma_repeated_id(shorter, i, j);
    }
}

/// An import whose pins are unknown is reported with the reason for it: on its
/// own, or under the strict policy at the end of a longer report.
pub proof fn law_unknown_pins_are_reported(reason: Seq<char>)
    ensures
        unknown_pins_text(BrowserImportPolicy::RecoveryCompatible, reason) == reason,
        ({
            let text = unknown_pins_text(BrowserImportPolicy::RequirePagedReady, reason);
            &&& text.len() > reason.len()
            &&& text.skip(text.len() - reason.len()) == reason
            &&& text.take(text.len() - reason.len())
                == "strict paged import candidate is not openPaged-ready: "@
        }),
{
    let text = unknown_pins_text(BrowserImportPolicy::RequirePagedReady, reason);
    let head = "strict paged import candidate is not openPaged-ready: "@;
    reveal_strlit("strict paged import candidate is not openPaged-ready: ");
    assert(text.skip(text.len() - reason.len()) =~= reason);
    assert(text.take(text.len() - reason.len()) =~= head);
}

/// A compact copy that becomes live has nothing to flush and the size of the
/// copy. A handle that does not page keeps every page of it; one that pages keeps
/// its pins and no other page, and no page changes.
pub proof fn law_compact_copy_becomes_live(
    candidate: BufferView,
    paged: bool,
    pins: Set<u64>,
    after: BufferView,
)
    requires
        residency_settled(candidate, paged, pins, after),
        candidate.pages.dom().finite(),
        pins.subset_of(candidate.pages.dom()),
    ensures
        after.dirty == Set::<u64>::empty(),
        after.logical_page_count == candidate.logical_page_count,
        !paged ==> after.pages == candidate.pages && after.pinned == candidate.pinned
            && after.sparse == candidate.sparse,
        paged ==> after.sparse && after.pinned == pins && after.pages.dom() == pins,
        forall|id: u64| #[trigger]
            after.pages.contains_key(id) ==> candidate.pages.contains_key(id) && after.pages[id]
                == candidate.pages[id],
{
    if paged {
        let before = BufferView { pinned: pins, sparse: true, ..flushed(candidate) };
        let removed = choose|removed: Set<u64>| #[trigger]
            crate::browser::buffer::eviction(before, 0, removed) && after
                == crate::browser::buffer::without_pages(before, removed);
        assert(before.evictable() =~= candidate.pages.dom().difference(pins));
        vstd::set_lib::lemma_len_subset(removed, candidate.pages.dom());
        vstd::set_lib::lemma_len_subset(before.evictable(), candidate.pages.dom());
        if candidate.pages.dom().len() == 0 {
            assert(candidate.pages.dom() =~= Set::empty());
            assert(after.pages.dom() =~= pins);
        } else {
            vstd::set_lib::lemma_subset_equality(removed, before.evictable());
            assert(after.pages.dom() =~= pins);
        }
    }
}

} // verus!
