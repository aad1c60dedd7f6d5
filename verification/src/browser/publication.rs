//! Guarded publication of pages.
//!
//! A publication is admitted only while the stored page 0 byte-matches the one
//! that the handle has pinned, and it carries the next page 0. That makes
//! concurrent handles take turns without any record besides the pages.

use crate::browser::buffer::{batch_bytes, copy_bytes, overlay};
use crate::browser::indexeddb::{
    authority_bytes, authority_value, decode_optional_page_zero, ensure_expected_authority,
    next_page_zero, required_next_page_zero, required_page_zero, validate_page_id, IdbError,
    StoredValue, MAX_SAFE_PAGE_ID,
};
use vstd::prelude::*;

verus! {

/// Read accounting of one handle and its clones.
#[derive(Clone, Copy, Debug, PartialEq, Eq, Structural)]
pub struct IndexedDbReadCounters {
    /// Read-only transactions opened by this handle or its clones.
    pub transactions: u64,
    /// Pages explicitly requested through single and range reads.
    pub pages_requested: u64,
    /// Page values returned, including full-store reads.
    pub pages_returned: u64,
    /// Full-store reads.
    pub full_store_reads: u64,
}

impl IndexedDbReadCounters {
    /// Counters that have seen nothing.
    pub fn new() -> (counters: Self)
        ensures
            counters == (IndexedDbReadCounters {
                transactions: 0,
                pages_requested: 0,
                pages_returned: 0,
                full_store_reads: 0,
            }),
    {
        IndexedDbReadCounters {
            transactions: 0,
            pages_requested: 0,
            pages_returned: 0,
            full_store_reads: 0,
        }
    }

    /// Count one read transaction.
    pub fn record_read(&mut self, pages_requested: u64, full_store_read: bool)
        ensures
            final(self).transactions == old(self).transactions.saturating_add(1),
            final(self).pages_requested == old(self).pages_requested.saturating_add(
                pages_requested,
            ),
            final(self).pages_returned == old(self).pages_returned,
            final(self).full_store_reads == if full_store_read {
                old(self).full_store_reads.saturating_add(1)
            } else {
                old(self).full_store_reads
            },
    {
        self.transactions = self.transactions.saturating_add(1);
        self.pages_requested = self.pages_requested.saturating_add(pages_requested);
        if full_store_read {
            self.full_store_reads = self.full_store_reads.saturating_add(1);
        }
    }

    /// Count returned pages.
    pub fn record_returned_pages(&mut self, pages_returned: u64)
        ensures
            *final(self) == (IndexedDbReadCounters {
                pages_returned: old(self).pages_returned.saturating_add(pages_returned),
                ..*old(self)
            }),
    {
        self.pages_returned = self.pages_returned.saturating_add(pages_returned);
    }
}

/// Pages that are ready to be put to the store in one transaction.
pub struct Publication {
    pages: Vec<(u64, Vec<u8>)>,
    next_authority: Vec<u8>,
    replaces_store: bool,
}

/// What a publication holds.
#[verifier::ext_equal]
pub struct PublicationView {
    /// The pages, in the order in which they are put.
    pub pages: Seq<(u64, Seq<u8>)>,
    /// The page 0 among them.
    pub next_authority: Seq<u8>,
    /// Whether every earlier record is removed first.
    pub replaces_store: bool,
}

impl View for Publication {
    type V = PublicationView;

    closed spec fn view(&self) -> PublicationView {
        PublicationView {
            pages: batch_bytes(self.pages@),
            next_authority: self.next_authority@,
            replaces_store: self.replaces_store,
        }
    }
}

/// The first page id of a batch, if any, without an exact JavaScript number.
pub open spec fn first_unsafe_id(batch: Seq<(u64, Seq<u8>)>) -> Option<u64>
    decreases batch.len(),
{
    if batch.len() == 0 {
        None
    } else {
        match first_unsafe_id(batch.drop_last()) {
            Some(id) => Some(id),
            None => if batch.last().0 > MAX_SAFE_PAGE_ID {
                Some(batch.last().0)
            } else {
                None
            },
        }
    }
}

/// The next authority of a batch of pages, or why it cannot be published.
pub open spec fn publication_outcome(batch: Seq<(u64, Seq<u8>)>) -> Result<Seq<u8>, IdbError> {
    match first_unsafe_id(batch) {
        Some(page_id) => Err(IdbError::UnsafePageId { page_id }),
        None => required_page_zero(batch),
    }
}

/// The records of the store after an admitted publication has committed.
pub open spec fn published(store: Map<u64, Seq<u8>>, publication: PublicationView) -> Map<
    u64,
    Seq<u8>,
> {
    if publication.replaces_store {
        overlay(Map::empty(), publication.pages)
    } else {
        overlay(store, publication.pages)
    }
}

/// The authority that a store shows.
pub open spec fn store_authority(store: Map<u64, Seq<u8>>) -> Option<Seq<u8>> {
    if store.contains_key(0) {
        Some(store[0])
    } else {
        None
    }
}

fn validate_page_ids(pages: &Vec<(u64, Vec<u8>)>) -> (result: Result<(), IdbError>)
    ensures
        result == match first_unsafe_id(batch_bytes(pages@)) {
            Some(page_id) => Err::<(), IdbError>(IdbError::UnsafePageId { page_id }),
            None => Ok(()),
        },
{
    let ghost batch = batch_bytes(pages@);
    let mut i: usize = 0;
    assert(batch.take(0) =~= Seq::empty());
    while i < pages.len()
        invariant
            i <= pages.len(),
            batch == batch_bytes(pages@),
            first_unsafe_id(batch.take(i as int)) is None,
        decreases pages.len() - i,
    {
        proof {
            assert(batch.take(i + 1).drop_last() =~= batch.take(i as int));
            assert(batch[i as int].0 == pages@[i as int].0);
        }
        if let Err(fault) = validate_page_id(pages[i].0) {
            proof {
                lemma_unsafe_stays(batch, i + 1);
            }
            return Err(fault);
        }
        i += 1;
    }
    assert(batch.take(batch.len() as int) =~= batch);
    Ok(())
}

proof fn lemma_unsafe_stays(batch: Seq<(u64, Seq<u8>)>, n: int)
    requires
        0 <= n <= batch.len(),
        first_unsafe_id(batch.take(n)) is Some,
    ensures
        first_unsafe_id(batch) == first_unsafe_id(batch.take(n)),
    decreases batch.len() - n,
{
    if n < batch.len() {
        assert(batch.take(n + 1).drop_last() =~= batch.take(n));
        lemma_unsafe_stays(batch, n + 1);
    } else {
        assert(batch.take(n) =~= batch);
    }
}

/// Prepare an incremental write. Empty input is a no-op.
pub fn prepare_write(pages: Vec<(u64, Vec<u8>)>) -> (result: Result<Option<Publication>, IdbError>)
    ensures
        match result {
            Ok(None) => pages@.len() == 0,
            Ok(Some(publication)) => {
                &&& pages@.len() > 0
                &&& publication@.pages == batch_bytes(pages@)
                &&& !publication@.replaces_store
                &&& publication_outcome(batch_bytes(pages@)) == Ok::<Seq<u8>, IdbError>(
                    publication@.next_authority,
                )
            },
            Err(fault) => {
                &&& pages@.len() > 0
                &&& publication_outcome(batch_bytes(pages@)) == Err::<Seq<u8>, IdbError>(fault)
            },
        },
{
    if pages.is_empty() {
        return Ok(None);
    }
    if let Err(fault) = validate_page_ids(&pages) {
        return Err(fault);
    }
    match required_next_page_zero(&pages) {
        Ok(next_authority) => Ok(
            Some(Publication { pages, next_authority, replaces_store: false }),
        ),
        Err(fault) => Err(fault),
    }
}

/// Prepare the replacement of the whole store.
pub fn prepare_replace(pages: Vec<(u64, Vec<u8>)>) -> (result: Result<Publication, IdbError>)
    ensures
        match result {
            Ok(publication) => {
                &&& publication@.pages == batch_bytes(pages@)
                &&& publication@.replaces_store
                &&& publication_outcome(batch_bytes(pages@)) == Ok::<Seq<u8>, IdbError>(
                    publication@.next_authority,
                )
            },
            Err(fault) => publication_outcome(batch_bytes(pages@)) == Err::<Seq<u8>, IdbError>(
                fault,
            ),
        },
{
    if let Err(fault) = validate_page_ids(&pages) {
        return Err(fault);
    }
    match required_next_page_zero(&pages) {
        Ok(next_authority) => Ok(Publication { pages, next_authority, replaces_store: true }),
        Err(fault) => Err(fault),
    }
}

impl Publication {
    /// The pages to put, in order.
    pub fn pages(&self) -> (pages: &Vec<(u64, Vec<u8>)>)
        ensures
            batch_bytes(pages@) == self@.pages,
    {
        &self.pages
    }

    /// Whether the store is cleared before the pages are put.
    pub fn replaces_store(&self) -> (replaces: bool)
        ensures
            replaces == self@.replaces_store,
    {
        self.replaces_store
    }
}

/// The page 0 that one independent handle has pinned.
///
/// Clones of a handle share it.
pub struct ImageAuthority {
    pinned: Option<Vec<u8>>,
}

impl View for ImageAuthority {
    type V = Option<Seq<u8>>;

    closed spec fn view(&self) -> Option<Seq<u8>> {
        authority_bytes(self.pinned)
    }
}

impl ImageAuthority {
    /// Pin the page 0 that a handle opened on.
    pub fn new(page_zero: Option<Vec<u8>>) -> (authority: Self)
        ensures
            authority@ == authority_bytes(page_zero),
    {
        ImageAuthority { pinned: page_zero }
    }

    /// The pinned page 0.
    pub fn pinned(&self) -> (page_zero: Option<Vec<u8>>)
        ensures
            authority_bytes(page_zero) == self@,
    {
        match &self.pinned {
            Some(page) => Some(copy_bytes(page.as_slice())),
            None => None,
        }
    }

    /// Refuse a store whose page 0 is not the pinned one.
    pub fn ensure_pinned_authority(&self, observed: &Option<Vec<u8>>) -> (result: Result<
        (),
        IdbError,
    >)
        ensures
            result == if self@ == authority_bytes(*observed) {
                Ok::<(), IdbError>(())
            } else {
                Err(IdbError::StaleImage)
            },
    {
        ensure_expected_authority(&self.pinned, observed)
    }

    /// Pin the page 0 of a publication that has committed.
    pub fn commit(&mut self, publication: &Publication)
        ensures
            final(self)@ == Some(publication@.next_authority),
    {
        self.pinned = Some(copy_bytes(publication.next_authority.as_slice()));
    }
}

/// One request of a publication's transaction.
pub enum StoreRequest {
    /// Remove every record.
    Clear,
    /// Put one page.
    Put { page_id: u64, page: Vec<u8> },
}

/// The records after one request.
pub open spec fn apply_request(store: Map<u64, Seq<u8>>, request: StoreRequest) -> Map<
    u64,
    Seq<u8>,
> {
    match request {
        StoreRequest::Clear => Map::empty(),
        StoreRequest::Put { page_id, page } => store.insert(page_id, page@),
    }
}

/// The records after a list of requests.
pub open spec fn apply_requests(store: Map<u64, Seq<u8>>, requests: Seq<StoreRequest>) -> Map<
    u64,
    Seq<u8>,
>
    decreases requests.len(),
{
    if requests.len() == 0 {
        store
    } else {
        apply_request(apply_requests(store, requests.drop_last()), requests.last())
    }
}

/// Decide on a publication once its transaction has read page 0: either the
/// requests to queue, or the error to abort with.
pub fn guarded_requests(
    authority: &ImageAuthority,
    observed: StoredValue,
    publication: &Publication,
) -> (result: Result<Vec<StoreRequest>, IdbError>)
    ensures
        match result {
            Ok(requests) => {
                &&& authority_value(observed) == Ok::<Option<Seq<u8>>, IdbError>(authority@)
                &&& forall|store: Map<u64, Seq<u8>>| #[trigger]
                    apply_requests(store, requests@) == published(store, publication@)
            },
            Err(fault) => match authority_value(observed) {
                Err(error) => fault == error,
                Ok(found) => found != authority@ && fault == IdbError::StaleImage,
            },
        },
{
    let found = match decode_optional_page_zero(observed) {
        Ok(found) => found,
        Err(fault) => return Err(fault),
    };
    if let Err(fault) = authority.ensure_pinned_authority(&found) {
        return Err(fault);
    }
    let mut requests: Vec<StoreRequest> = Vec::new();
    if publication.replaces_store {
        requests.push(StoreRequest::Clear);
    }
    let ghost base = requests@;
    let ghost batch = batch_bytes(publication.pages@);
    let mut i: usize = 0;
    proof {
        assert(batch.take(0) =~= Seq::empty());
        assert forall|store: Map<u64, Seq<u8>>| #[trigger] apply_requests(store, requests@)
            == overlay(
            if publication.replaces_store {
                Map::empty()
            } else {
                store
            },
            batch.take(0),
        ) by {
            reveal_with_fuel(apply_requests, 2);
            if publication.replaces_store {
                assert(requests@.drop_last() =~= Seq::empty());
            }
        }
    }
    while i < publication.pages.len()
        invariant
            i <= publication.pages.len(),
            batch == batch_bytes(publication.pages@),
            forall|store: Map<u64, Seq<u8>>| #[trigger]
                apply_requests(store, requests@) == overlay(
                    if publication.replaces_store {
                        Map::empty()
                    } else {
                        store
                    },
                    batch.take(i as int),
                ),
        decreases publication.pages.len() - i,
    {
        let ghost was = requests@;
        let page_id: u64 = publication.pages[i].0;
        let page = copy_bytes(publication.pages[i].1.as_slice());
        requests.push(StoreRequest::Put { page_id, page });
        proof {
            assert(requests@.drop_last() =~= was);
            assert(batch.take(i + 1).drop_last() =~= batch.take(i as int));
            assert(batch[i as int] == (page_id, page@));
            assert forall|store: Map<u64, Seq<u8>>| #[trigger] apply_requests(store, requests@)
                == overlay(
                if publication.replaces_store {
                    Map::empty()
                } else {
                    store
                },
                batch.take(i + 1),
            ) by {
                assert(apply_requests(store, was) == apply_requests(store, was));
            }
        }
        i += 1;
    }
    assert(batch.take(batch.len() as int) =~= batch);
    Ok(requests)
}

/// What one attempt to publish does to the store and to the pinned page 0.
pub open spec fn attempt(
    store: Map<u64, Seq<u8>>,
    pinned: Option<Seq<u8>>,
    publication: PublicationView,
) -> (Map<u64, Seq<u8>>, Option<Seq<u8>>) {
    if store_authority(store) == pinned {
        (published(store, publication), Some(publication.next_authority))
    } else {
        (store, pinned)
    }
}

/// Keep the first error of an aborted transaction.
pub fn keep_first_error<E>(slot: Option<E>, error: E) -> (kept: Option<E>)
    ensures
        kept == match slot {
            Some(first) => Some(first),
            None => Some(error),
        },
{
    match slot {
        Some(first) => Some(first),
        None => Some(error),
    }
}

/// The outcome of a guarded transaction: a failure is reported by the specific
/// error that caused the abort, where there is one.
pub fn settle_transaction<E>(outcome: Result<(), E>, guarded_error: Option<E>) -> (result: Result<
    (),
    E,
>)
    ensures
        result == match outcome {
            Ok(_) => Ok::<(), E>(()),
            Err(error) => match guarded_error {
                Some(specific) => Err(specific),
                None => Err(error),
            },
        },
{
    match outcome {
        Ok(_) => Ok(()),
        Err(error) => match guarded_error {
            Some(specific) => Err(specific),
            None => Err(error),
        },
    }
}

/// After a publication commits, the store shows its page 0: the handle that
/// published is current, and a handle with any other page 0 pinned is stale.
pub proof fn law_publication_becomes_authority(
    store: Map<u64, Seq<u8>>,
    publication: PublicationView,
)
    requires
        publication_outcome(publication.pages) == Ok::<Seq<u8>, IdbError>(
            publication.next_authority,
        ),
    ensures
        store_authority(published(store, publication)) == Some(publication.next_authority),
{
    if publication.replaces_store {
        lemma_overlay_page_zero(Map::empty(), publication.pages);
    } else {
        lemma_overlay_page_zero(store, publication.pages);
    }
}

/// Of two handles on one image, the one that publishes stays current, and the
/// other can no longer change the store.
pub proof fn law_stale_handle_cannot_publish(
    store: Map<u64, Seq<u8>>,
    pinned: Option<Seq<u8>>,
    first: PublicationView,
    second: PublicationView,
)
    requires
        store_authority(store) == pinned,
        publication_outcome(first.pages) == Ok::<Seq<u8>, IdbError>(first.next_authority),
        pinned != Some(first.next_authority),
    ensures
        ({
            let (after, advanced) = attempt(store, pinned, first);
            &&& store_authority(after) == advanced
            &&& attempt(after, pinned, second) == (after, pinned)
        }),
{
    law_publication_becomes_authority(store, first);
}

/// A replacement leaves no record but its own pages.
pub proof fn law_replacement_drops_stale_pages(
    store: Map<u64, Seq<u8>>,
    publication: PublicationView,
    id: u64,
)
    requires
        publication.replaces_store,
    ensures
        published(store, publication).contains_key(id) <==> exists|i: int|
            0 <= i < publication.pages.len() && #[trigger] publication.pages[i].0 == id,
{
    lemma_overlay_keys(Map::empty(), publication.pages, id);
}

/// An incremental write leaves every record alone that it does not name.
pub proof fn law_write_spares_other_records(
    store: Map<u64, Seq<u8>>,
    publication: PublicationView,
    id: u64,
)
    requires
        !publication.replaces_store,
        forall|i: int|
            0 <= i < publication.pages.len() ==> #[trigger] publication.pages[i].0 != id,
    ensures
        published(store, publication).contains_key(id) == store.contains_key(id),
        store.contains_key(id) ==> published(store, publication)[id] == store[id],
{
    lemma_overlay_other(store, publication.pages, id);
}

proof fn lemma_overlay_page_zero(store: Map<u64, Seq<u8>>, batch: Seq<(u64, Seq<u8>)>)
    ensures
        next_page_zero(batch) matches Ok(Some(page)) ==> overlay(store, batch).contains_key(0)
            && overlay(store, batch)[0] == page,
    decreases batch.len(),
{
    if batch.len() > 0 {
        lemma_overlay_page_zero(store, batch.drop_last());
    }
}

proof fn lemma_overlay_keys(store: Map<u64, Seq<u8>>, batch: Seq<(u64, Seq<u8>)>, id: u64)
    ensures
        overlay(store, batch).contains_key(id) <==> store.contains_key(id) || exists|i: int|
            0 <= i < batch.len() && #[trigger] batch[i].0 == id,
    decreases batch.len(),
{
    if batch.len() > 0 {
        let shorter = batch.drop_last();
        lemma_overlay_keys(store, shorter, id);
        assert(forall|i: int| 0 <= i < shorter.len() ==> #[trigger] shorter[i] == batch[i]);
        if exists|i: int| 0 <= i < batch.len() && #[trigger] batch[i].0 == id {
            let i = choose|i: int| 0 <= i < batch.len() && #[trigger] batch[i].0 == id;
            if i < shorter.len() {
                assert(shorter[i].0 == id);
            }
        }
        if exists|i: int| 0 <= i < shorter.len() && #[trigger] shorter[i].0 == id {
            let i = choose|i: int| 0 <= i < shorter.len() && #[trigger] shorter[i].0 == id;
            assert(batch[i].0 == id);
        }
        if batch.last().0 == id {
            assert(batch[batch.len() - 1].0 == id);
        }
    }
}

proof fn lemma_overlay_other(store: Map<u64, Seq<u8>>, batch: Seq<(u64, Seq<u8>)>, id: u64)
    requires
        forall|i: int| 0 <= i < batch.len() ==> #[trigger] batch[i].0 != id,
    ensures
        overlay(store, batch).contains_key(id) == store.contains_key(id),
        store.contains_key(id) ==> overlay(store, batch)[id] == store[id],
    decreases batch.len(),
{
    if batch.len() > 0 {
        let shorter = batch.drop_last();
        assert forall|i: int| 0 <= i < shorter.len() implies #[trigger] shorter[i].0 != id by {
            assert(batch[i].0 != id);
        }
        lemma_overlay_other(store, shorter, id);
        assert(batch[batch.len() - 1].0 != id);
    }
}

/// A batch is refused for its page ids exactly when one of them has no exact
/// JavaScript number, and the first such id is the one that is reported.
pub proof fn law_unsafe_page_ids_are_refused(batch: Seq<(u64, Seq<u8>)>)
    ensures
        first_unsafe_id(batch) is None <==> forall|i: int|
            0 <= i < batch.len() ==> #[trigger] batch[i].0 <= 9_007_199_254_740_991,
        first_unsafe_id(batch) matches Some(id) ==> exists|i: int|
            {
                &&& 0 <= i < batch.len()
                &&& #[trigger] batch[i].0 == id
                &&& id > 9_007_199_254_740_991
                &&& forall|j: int| 0 <= j < i ==> #[trigger] batch[j].0 <= 9_007_199_254_740_991
            },
        first_unsafe_id(batch) is None ==> publication_outcome(batch) == required_page_zero(batch),
        first_unsafe_id(batch) matches Some(page_id) ==> publication_outcome(batch) == Err::<
            Seq<u8>,
            IdbError,
        >(IdbError::UnsafePageId { page_id }),
    decreases batch.len(),
{
    if batch.len() > 0 {
        let shorter = batch.drop_last();
        law_unsafe_page_ids_are_refused(shorter);
        let last = batch.len() - 1;
        assert(batch[last] == batch.last());
        assert(forall|i: int| 0 <= i < shorter.len() ==> #[trigger] shorter[i] == batch[i]);
        if let Some(id) = first_unsafe_id(shorter) {
            let i = choose|i: int|
                {
                    &&& 0 <= i < shorter.len()
                    &&& #[trigger] shorter[i].0 == id
                    &&& id > 9_007_199_254_740_991
                    &&& forall|j: int|
                        0 <= j < i ==> #[trigger] shorter[j].0 <= 9_007_199_254_740_991
                };
            assert(batch[i].0 == id);
            assert forall|j: int| 0 <= j < i implies #[trigger] batch[j].0
                <= 9_007_199_254_740_991 by {
                assert(shorter[j].0 <= 9_007_199_254_740_991);
            }
        } else {
            assert forall|j: int| 0 <= j < last implies #[trigger] batch[j].0
                <= 9_007_199_254_740_991 by {
                assert(shorter[j].0 <= 9_007_199_254_740_991);
            }
            if batch.last().0 > 9_007_199_254_740_991 {
                assert(batch[last].0 > 9_007_199_254_740_991);
            }
        }
    }
}

/// Once a publication has committed, the store holds the bytes of each of its
/// pages under the page's own id; of two pages with one id, those of the later.
pub proof fn law_published_pages_are_stored(
    store: Map<u64, Seq<u8>>,
    publication: PublicationView,
    i: int,
)
    requires
        0 <= i < publication.pages.len(),
        forall|j: int|
            i < j < publication.pages.len() ==> #[trigger] publication.pages[j].0
                != publication.pages[i].0,
    ensures
        published(store, publication).contains_key(publication.pages[i].0),
        published(store, publication)[publication.pages[i].0] == publication.pages[i].1,
{
    if publication.replaces_store {
        lemma_overlay_last(Map::empty(), publication.pages, i);
    } else {
        lemma_overlay_last(store, publication.pages, i);
    }
}

proof fn lemma_overlay_last(store: Map<u64, Seq<u8>>, batch: Seq<(u64, Seq<u8>)>, i: int)
    requires
        0 <= i < batch.len(),
        forall|j: int| i < j < batch.len() ==> #[trigger] batch[j].0 != batch[i].0,
    ensures
        overlay(store, batch).contains_key(batch[i].0),
        overlay(store, batch)[batch[i].0] == batch[i].1,
    decreases batch.len(),
{
    let shorter = batch.drop_last();
    if i < batch.len() - 1 {
        assert(shorter[i] == batch[i]);
        assert forall|j: int| i < j < shorter.len() implies #[trigger] shorter[j].0
            != shorter[i].0 by {
            assert(batch[j].0 != batch[i].0);
        }
        lemma_overlay_last(store, shorter, i);
        assert(batch[batch.len() - 1].0 != batch[i].0);
    }
}

/// Requests do to the records what they say: clearing leaves none, and putting
/// a page changes that page alone.
pub proof fn law_requests_do_what_they_say(
    store: Map<u64, Seq<u8>>,
    request: StoreRequest,
    other: u64,
)
    ensures
        request is Clear ==> !apply_request(store, request).contains_key(other),
        request matches StoreRequest::Put { page_id, page } ==> {
            &&& apply_request(store, request).contains_key(page_id)
            &&& apply_request(store, request)[page_id] == page@
            &&& other != page_id ==> apply_request(store, request).contains_key(other)
                == store.contains_key(other)
            &&& other != page_id && store.contains_key(other) ==> apply_request(
                store,
                request,
            )[other] == store[other]
        },
{
}

/// Requests are carried out one after the other: none leaves the records as they
/// are, and each works on what those before it left.
pub proof fn law_requests_follow_one_another(
    store: Map<u64, Seq<u8>>,
    first: Seq<StoreRequest>,
    second: Seq<StoreRequest>,
    request: StoreRequest,
)
    ensures
        apply_requests(store, Seq::empty()) == store,
        apply_requests(store, seq![request]) == apply_request(store, request),
        apply_requests(store, first + second) == apply_requests(
            apply_requests(store, first),
            second,
        ),
    decreases second.len(),
{
    assert(seq![request].drop_last() =~= Seq::<StoreRequest>::empty());
    assert(apply_requests(store, seq![request].drop_last()) == store);
    if second.len() == 0 {
        assert(first + second =~= first);
    } else {
        law_requests_follow_one_another(store, first, second.drop_last(), request);
        assert((first + second).drop_last() =~= first + second.drop_last());
        assert((first + second).last() == second.last());
    }
}

} // verus!
