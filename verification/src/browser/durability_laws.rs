//! Laws that relate a handle's pages to the records of its page store.

use crate::browser::buffer::{batch_bytes, evicted, eviction, overlay, without_pages, BufferView};
use crate::browser::image::lists_image;
use crate::browser::mutation::publishes_dirty;
use crate::browser::publication::{published, PublicationView};
use vstd::prelude::*;

verus! {

/// Every clean resident page is stored as it is.
pub open spec fn mirrors(store: Map<u64, Seq<u8>>, buffer: BufferView) -> bool {
    forall|id: u64| #[trigger]
        buffer.pages.contains_key(id) && !buffer.dirty.contains(id) ==> store.contains_key(id)
            && store[id] == buffer.pages[id]
}

/// The page that a handle shows: the resident one, or else the stored one.
pub open spec fn shown(store: Map<u64, Seq<u8>>, buffer: BufferView, id: u64) -> Option<Seq<u8>> {
    if buffer.pages.contains_key(id) {
        Some(buffer.pages[id])
    } else if store.contains_key(id) {
        Some(store[id])
    } else {
        None
    }
}

/// The publication of an incremental write.
pub open spec fn write_of(pages: Seq<(u64, Vec<u8>)>, next_authority: Seq<u8>) -> PublicationView {
    PublicationView { pages: batch_bytes(pages), next_authority, replaces_store: false }
}

/// The publication of a replacement.
pub open spec fn replacement_of(
    pages: Seq<(u64, Vec<u8>)>,
    next_authority: Seq<u8>,
) -> PublicationView {
    PublicationView { pages: batch_bytes(pages), next_authority, replaces_store: true }
}

proof fn lemma_overlay_agrees(
    store: Map<u64, Seq<u8>>,
    batch: Seq<(u64, Seq<u8>)>,
    id: u64,
    page: Seq<u8>,
)
    requires
        forall|i: int| 0 <= i < batch.len() && #[trigger] batch[i].0 == id ==> batch[i].1 == page,
    ensures
        (exists|i: int| 0 <= i < batch.len() && #[trigger] batch[i].0 == id) ==> overlay(
            store,
            batch,
        ).contains_key(id) && overlay(store, batch)[id] == page,
        !(exists|i: int| 0 <= i < batch.len() && #[trigger] batch[i].0 == id) ==> overlay(
            store,
            batch,
        ).contains_key(id) == store.contains_key(id) && (store.contains_key(id) ==> overlay(
            store,
            batch,
        )[id] == store[id]),
    decreases batch.len(),
{
    if batch.len() > 0 {
        let shorter = batch.drop_last();
        assert forall|i: int| 0 <= i < shorter.len() && #[trigger] shorter[i].0
            == id implies shorter[i].1 == page by {
            assert(batch[i].0 == id);
        }
        lemma_overlay_agrees(store, shorter, id, page);
        let last = batch.len() - 1;
        assert(batch[last] == batch.last());
        if exists|i: int| 0 <= i < shorter.len() && #[trigger] shorter[i].0 == id {
            let i = choose|i: int| 0 <= i < shorter.len() && #[trigger] shorter[i].0 == id;
            assert(batch[i].0 == id);
        } else if batch.last().0 != id {
            assert forall|i: int| 0 <= i < batch.len() implies #[trigger] batch[i].0 != id by {
                if i < last {
                    assert(shorter[i].0 != id);
                }
            }
        }
    }
}

/// Publishing a write stores every page that it changed, and leaves every other
/// record alone: the store then mirrors all resident pages.
pub proof fn law_publication_stores_every_change(
    store: Map<u64, Seq<u8>>,
    buffer: BufferView,
    pages: Seq<(u64, Vec<u8>)>,
    next_authority: Seq<u8>,
)
    requires
        buffer.wf(),
        mirrors(store, buffer),
        publishes_dirty(buffer, pages),
    ensures
        ({
            let after = published(store, write_of(pages, next_authority));
            &&& mirrors(after, BufferView { dirty: Set::empty(), ..buffer })
            &&& forall|id: u64|
                !buffer.dirty.contains(id) ==> #[trigger] after.contains_key(id)
                    == store.contains_key(id) && (store.contains_key(id) ==> after[id] == store[id])
        }),
{
    let batch = batch_bytes(pages);
    let after = published(store, write_of(pages, next_authority));
    assert forall|id: u64| buffer.dirty.contains(id) implies #[trigger] after.contains_key(id)
        && after[id] == buffer.pages[id] by {
        assert forall|i: int| 0 <= i < batch.len() && #[trigger] batch[i].0 == id implies batch[i].1
            == buffer.pages[id] by {
            assert(pages[i].0 == id);
        }
        let i = choose|i: int| 0 <= i < pages.len() && (#[trigger] pages[i]).0 == id;
        assert(batch[i].0 == id);
        lemma_overlay_agrees(store, batch, id, buffer.pages[id]);
    }
    assert forall|id: u64| !buffer.dirty.contains(id) implies #[trigger] after.contains_key(id)
        == store.contains_key(id) && (store.contains_key(id) ==> after[id] == store[id]) by {
        assert forall|i: int| 0 <= i < batch.len() implies #[trigger] batch[i].0 != id by {
            assert(buffer.dirty.contains(pages[i].0));
        }
        lemma_overlay_agrees(store, batch, id, Seq::empty());
    }
    assert forall|id: u64| #[trigger] buffer.pages.contains_key(id) implies after.contains_key(id)
        && after[id] == buffer.pages[id] by {
        if !buffer.dirty.contains(id) {
            assert(after.contains_key(id) == store.contains_key(id));
        }
    }
}

/// Publishing a write and giving up the staged pages afterwards changes no page
/// that the handle shows.
pub proof fn law_publication_keeps_the_image(
    store: Map<u64, Seq<u8>>,
    buffer: BufferView,
    pages: Seq<(u64, Vec<u8>)>,
    next_authority: Seq<u8>,
    rest: BufferView,
    id: u64,
)
    requires
        buffer.wf(),
        mirrors(store, buffer),
        publishes_dirty(buffer, pages),
        evicted(BufferView { dirty: Set::empty(), ..buffer }, 0, rest),
    ensures
        ({
            let after = published(store, write_of(pages, next_authority));
            &&& shown(after, rest, id) == shown(store, buffer, id)
            &&& mirrors(after, rest)
        }),
{
    let clean = BufferView { dirty: Set::empty(), ..buffer };
    let after = published(store, write_of(pages, next_authority));
    law_publication_stores_every_change(store, buffer, pages, next_authority);
    let removed = choose|removed: Set<u64>| #[trigger]
        eviction(clean, 0, removed) && rest == without_pages(clean, removed);
    assert(clean.pages.contains_key(id) ==> after.contains_key(id));
    assert forall|id: u64| #[trigger] rest.pages.contains_key(id) implies after.contains_key(id)
        && after[id] == rest.pages[id] by {
        assert(clean.pages.contains_key(id));
    }
}

/// Replacing the store by all pages of an image makes the store that image:
/// loading it again gives back every page.
pub proof fn law_replaced_store_is_the_image(
    store: Map<u64, Seq<u8>>,
    buffer: BufferView,
    pages: Seq<(u64, Vec<u8>)>,
    next_authority: Seq<u8>,
)
    requires
        lists_image(buffer, pages),
    ensures
        published(store, replacement_of(pages, next_authority)) == buffer.pages,
{
}

/// After a write of a handle that holds its whole image, the store is that
/// image: loading it again gives back every page.
pub proof fn law_written_store_is_the_eager_image(
    store: Map<u64, Seq<u8>>,
    buffer: BufferView,
    pages: Seq<(u64, Vec<u8>)>,
    next_authority: Seq<u8>,
)
    requires
        buffer.wf(),
        mirrors(store, buffer),
        store.dom().subset_of(buffer.pages.dom()),
        publishes_dirty(buffer, pages),
    ensures
        published(store, write_of(pages, next_authority)) == buffer.pages,
{
    let after = published(store, write_of(pages, next_authority));
    law_publication_stores_every_change(store, buffer, pages, next_authority);
    let clean = BufferView { dirty: Set::empty(), ..buffer };
    assert forall|id: u64| #[trigger] after.contains_key(id) implies buffer.pages.contains_key(
        id,
    ) by {
        if !buffer.dirty.contains(id) {
            assert(store.dom().contains(id));
        }
        assert(buffer.pages.dom().contains(id));
    }
    assert forall|id: u64| #[trigger] buffer.pages.contains_key(id) implies after.contains_key(id)
        && after[id] == buffer.pages[id] by {
        assert(clean.pages.contains_key(id));
    }
    assert(after =~= buffer.pages);
}

} // verus!
