//! Which pages to fetch next, which of them to keep, and which to pin.

use crate::browser::buffer::{
    batch_bytes, declared_count, declared_pin_fault, overlay, pin_fault, read_outcome,
    sparse_candidate, sparse_candidate_fault, BrowserBufferBackend, BufferView,
};
use crate::browser::buffer_error::BufferError;
use crate::collections::{lemma_picked_next, page_bytes, picked, picked_at};
use crate::storage::{header_of, PAGE_SIZE};
use crate::text::{decimal, push_decimal};
use std::collections::{HashMap, HashSet};
use vstd::prelude::*;
use vstd::string::*;

verus! {

broadcast use vstd::std_specs::hash::group_hash_axioms;

/// Pages fetched by one request to the page store.
pub const BROWSER_IDB_BATCH_PAGES: u64 = 256;

/// Resident pages that a streaming read may leave behind between two steps.
pub const BROWSER_AGGREGATE_RESIDENT_PAGE_LIMIT: usize = 192;

/// A half-open range of page ids.
#[derive(Clone, Copy, Debug, PartialEq, Eq, Structural)]
pub struct BrowserPageRange {
    /// First page of the range.
    pub start: u64,
    /// First page behind the range.
    pub end: u64,
}

impl BrowserPageRange {
    /// First page of the range.
    pub fn start_page(&self) -> (page: u64)
        ensures
            page == self.start,
    {
        self.start
    }

    /// First page behind the range.
    pub fn end_page(&self) -> (page: u64)
        ensures
            page == self.end,
    {
        self.end
    }

    /// Whether a page belongs to the range.
    pub open spec fn has(self, id: u64) -> bool {
        self.start <= id < self.end
    }
}

/// One request of a range walk.
#[derive(Clone, Copy, Debug, PartialEq, Eq, Structural)]
pub struct PageBatch {
    /// First page to fetch.
    pub start: u64,
    /// Number of pages to fetch.
    pub count: u64,
}

/// The next request of a walk that stands at `next`.
pub open spec fn batch_at(next: u64, end: u64) -> Option<PageBatch> {
    if next >= end {
        None
    } else if end - next <= BROWSER_IDB_BATCH_PAGES {
        Some(PageBatch { start: next, count: (end - next) as u64 })
    } else {
        Some(PageBatch { start: next, count: BROWSER_IDB_BATCH_PAGES })
    }
}

/// Every request of a walk from `next` to `end`.
pub open spec fn batches(next: u64, end: u64) -> Seq<PageBatch>
    decreases end - next,
{
    match batch_at(next, end) {
        None => Seq::empty(),
        Some(batch) => seq![batch] + batches((next + batch.count) as u64, end),
    }
}

/// A walk over a page range in bounded requests.
#[derive(Clone, Copy, Debug, PartialEq, Eq, Structural)]
pub struct RangeWalk {
    /// First page that has not been requested.
    pub next: u64,
    /// First page behind the range.
    pub end: u64,
}

impl RangeWalk {
    /// Start at the beginning of a range.
    pub fn new(range: BrowserPageRange) -> (walk: Self)
        ensures
            walk == (RangeWalk { next: range.start, end: range.end }),
    {
        RangeWalk { next: range.start, end: range.end }
    }

    /// The requests that are still to come.
    pub open spec fn remaining(self) -> Seq<PageBatch> {
        batches(self.next, self.end)
    }

    /// Take the next request, if the range is not exhausted.
    pub fn next_batch(&mut self) -> (batch: Option<PageBatch>)
        ensures
            batch == batch_at(old(self).next, old(self).end),
            final(self).end == old(self).end,
            match batch {
                None => *final(self) == *old(self) && old(self).remaining().len() == 0,
                Some(batch) => {
                    &&& final(self).next == old(self).next + batch.count
                    &&& old(self).remaining() == seq![batch] + final(self).remaining()
                },
            },
    {
        if self.next >= self.end {
            return None;
        }
        let left: u64 = self.end - self.next;
        let count: u64 = if left < BROWSER_IDB_BATCH_PAGES {
            left
        } else {
            BROWSER_IDB_BATCH_PAGES
        };
        let batch = PageBatch { start: self.next, count };
        self.next = self.next + count;
        Some(batch)
    }
}

/// A walk asks for every page of its range exactly once, in ascending order,
/// in requests of bounded size.
pub proof fn law_batches_cover_range(next: u64, end: u64)
    requires
        next <= end,
    ensures
        forall|i: int|
            0 <= i < batches(next, end).len() ==> 0 < (#[trigger] batches(next, end)[i]).count
                <= BROWSER_IDB_BATCH_PAGES,
        batches(next, end).len() > 0 <==> next < end,
        batches(next, end).len() > 0 ==> batches(next, end)[0].start == next && batches(
            next,
            end,
        ).last().start + batches(next, end).last().count == end,
        forall|i: int|
            0 <= i < batches(next, end).len() - 1 ==> (#[trigger] batches(next, end)[i]).start
                + batches(next, end)[i].count == batches(next, end)[i + 1].start,
    decreases end - next,
{
    match batch_at(next, end) {
        None => {},
        Some(batch) => {
            let after = (next + batch.count) as u64;
            law_batches_cover_range(after, end);
            let rest = batches(after, end);
            let all = batches(next, end);
            assert(all =~= seq![batch] + rest);
            assert forall|i: int| 0 <= i < all.len() implies 0 < (#[trigger] all[i]).count
                <= BROWSER_IDB_BATCH_PAGES by {
                if i > 0 {
                    assert(all[i] == rest[i - 1]);
                }
            }
            assert forall|i: int| 0 <= i < all.len() - 1 implies (#[trigger] all[i]).start
                + all[i].count == all[i + 1].start by {
                assert(all[i + 1] == rest[i]);
                if i > 0 {
                    assert(all[i] == rest[i - 1]);
                }
            }
            if rest.len() > 0 {
                assert(all.last() == rest.last());
            } else {
                assert(all.last() == batch);
            }
        },
    }
}

/// Whether a scan of a whole range has pages to fetch first: only a paged
/// handle on an image that is not empty has.
pub fn scan_needs_prefetch(paged: bool, logical_page_count: u64) -> (needed: bool)
    ensures
        needed == (paged && logical_page_count != 0),
{
    paged && logical_page_count != 0
}

/// Add one batch to the pages of a range. A batch that could not be loaded
/// leaves the range incomplete: nothing is added, and the result says so.
pub fn extend_range(
    loaded: &mut Vec<(u64, Vec<u8>)>,
    batch: Option<Vec<(u64, Vec<u8>)>>,
) -> (complete: bool)
    ensures
        complete == batch is Some,
        final(loaded)@ == match batch {
            Some(batch) => old(loaded)@ + batch@,
            None => old(loaded)@,
        },
{
    match batch {
        None => false,
        Some(batch) => {
            let mut rest = batch;
            loaded.append(&mut rest);
            true
        },
    }
}

/// What to fetch for one page that a read needs.
#[derive(Clone, Copy, Debug, PartialEq, Eq, Structural)]
pub enum PageWindow {
    /// Fetch the page alone.
    Single,
    /// Fetch the aligned window around the page.
    Window { start: u64, count: u64 },
}

/// The window of `batch_pages` pages that holds `required_page`, cut off at the
/// end of the image.
pub open spec fn window_of(required_page: u64, batch_pages: u64, logical_page_count: u64) -> PageWindow {
    if batch_pages <= 1 {
        PageWindow::Single
    } else {
        let start = required_page as int / batch_pages as int * batch_pages as int;
        let left = if logical_page_count > start {
            logical_page_count - start
        } else {
            0
        };
        PageWindow::Window {
            start: start as u64,
            count: if left < batch_pages {
                left as u64
            } else {
                batch_pages
            },
        }
    }
}

/// Choose what to fetch for one page that a read needs.
pub fn page_window(required_page: u64, batch_pages: u64, logical_page_count: u64) -> (window:
    PageWindow)
    ensures
        window == window_of(required_page, batch_pages, logical_page_count),
{
    if batch_pages <= 1 {
        return PageWindow::Single;
    }
    proof {
        lemma_window_start(required_page as int, batch_pages as int);
    }
    let start: u64 = required_page / batch_pages * batch_pages;
    let left: u64 = logical_page_count.saturating_sub(start);
    let count: u64 = if left < batch_pages {
        left
    } else {
        batch_pages
    };
    PageWindow::Window { start, count }
}

proof fn lemma_window_start(required_page: int, batch_pages: int)
    requires
        required_page >= 0,
        batch_pages > 0,
    ensures
        0 <= required_page / batch_pages * batch_pages <= required_page < required_page
            / batch_pages * batch_pages + batch_pages,
{
    vstd::arithmetic::div_mod::lemma_fundamental_div_mod(required_page, batch_pages);
    vstd::arithmetic::mul::lemma_mul_is_commutative(required_page / batch_pages, batch_pages);
    vstd::arithmetic::div_mod::lemma_div_pos_is_pos(required_page, batch_pages);
    vstd::arithmetic::mul::lemma_mul_nonnegative(required_page / batch_pages, batch_pages);
    vstd::arithmetic::div_mod::lemma_mod_bound(required_page, batch_pages);
}

/// A window around a page of the image holds that page, stays inside the image
/// and is no larger than asked for.
pub proof fn law_window_holds_required_page(
    required_page: u64,
    batch_pages: u64,
    logical_page_count: u64,
)
    requires
        batch_pages > 1,
        required_page < logical_page_count,
    ensures
        window_of(required_page, batch_pages, logical_page_count) matches PageWindow::Window {
            start,
            count,
        } && start <= required_page < start + count && start + count <= logical_page_count
            && count <= batch_pages,
{
    lemma_window_start(required_page as int, batch_pages as int);
}

/// Why a fetched window is not usable.
#[derive(Debug)]
pub enum WindowError {
    /// The required page failed verification.
    Rejected(String),
    /// The required page is not among the verified pages.
    RequiredPageMissing { page_id: u64 },
}

impl WindowError {
    /// The text reported for this error.
    pub open spec fn text(self) -> Seq<char> {
        match self {
            WindowError::Rejected(reason) => reason@,
            WindowError::RequiredPageMissing { page_id } => "required IndexedDB page "@ + decimal(
                page_id as nat,
            ) + " did not pass verification"@,
        }
    }

    /// Render this error for a caller.
    pub fn message(&self) -> (text: String)
        ensures
            text@ == self.text(),
    {
        match self {
            WindowError::Rejected(reason) => reason.clone(),
            WindowError::RequiredPageMissing { page_id } => {
                let mut out = String::new();
                out.append("required IndexedDB page ");
                push_decimal(&mut out, *page_id);
                out.append(" did not pass verification");
                assert(out@ =~= self.text());
                out
            },
        }
    }
}

/// The fetched pages whose verdict is favourable, in order.
pub open spec fn verified_pages(
    pages: Seq<(u64, Seq<u8>)>,
    verdicts: Seq<Result<(), String>>,
) -> Seq<(u64, Seq<u8>)>
    decreases pages.len(),
{
    if pages.len() == 0 {
        Seq::empty()
    } else {
        let kept = verified_pages(pages.drop_last(), verdicts);
        if verdicts[pages.len() - 1] is Ok {
            kept.push(pages.last())
        } else {
            kept
        }
    }
}

/// The first fetched copy of the required page that was rejected, if any.
pub open spec fn rejected_at(
    pages: Seq<(u64, Seq<u8>)>,
    verdicts: Seq<Result<(), String>>,
    required_page: u64,
    i: int,
) -> bool {
    &&& 0 <= i < pages.len()
    &&& pages[i].0 == required_page
    &&& verdicts[i] is Err
}

/// Keep the verified pages of a window. Other pages may fail verification
/// without consequence; the required page must pass.
pub fn select_verified_pages(
    pages: Vec<(u64, Vec<u8>)>,
    verdicts: Vec<Result<(), String>>,
    required_page: u64,
) -> (result: Result<Vec<(u64, Vec<u8>)>, WindowError>)
    requires
        pages@.len() == verdicts@.len(),
    ensures
        match result {
            Ok(kept) => {
                &&& forall|i: int| !rejected_at(batch_bytes(pages@), verdicts@, required_page, i)
                &&& batch_bytes(kept@) == verified_pages(batch_bytes(pages@), verdicts@)
                &&& picked(batch_bytes(pages@), |i: int| verdicts@[i] is Ok, batch_bytes(kept@))
                &&& exists|j: int| 0 <= j < kept@.len() && (#[trigger] kept@[j]).0 == required_page
                &&& exists|i: int|
                    0 <= i < pages@.len() && (#[trigger] pages@[i]).0 == required_page
                        && verdicts@[i] is Ok
            },
            Err(WindowError::Rejected(reason)) => exists|i: int| #[trigger]
                rejected_at(batch_bytes(pages@), verdicts@, required_page, i) && verdicts@[i]
                    == Err::<(), String>(reason) && forall|j: int|
                    0 <= j < i ==> !#[trigger] rejected_at(
                        batch_bytes(pages@),
                        verdicts@,
                        required_page,
                        j,
                    ),
            Err(WindowError::RequiredPageMissing { page_id }) => {
                &&& page_id == required_page
                &&& forall|i: int|
                    0 <= i < pages@.len() ==> (#[trigger] pages@[i]).0 != required_page
            },
        },
{
    let ghost batch = batch_bytes(pages@);
    let mut kept: Vec<(u64, Vec<u8>)> = Vec::new();
    let mut found = false;
    let total: usize = verdicts.len();
    let mut i: usize = 0;
    assert(batch_bytes(kept@) =~= Seq::empty());
    assert(batch.take(0) =~= Seq::empty());
    for pair in it: pages
        invariant
            it.seq() == pages@,
            batch == batch_bytes(pages@),
            pages@.len() == verdicts@.len(),
            verdicts@.len() == total,
            i == it.index(),
            forall|j: int| 0 <= j < i ==> !#[trigger] rejected_at(batch, verdicts@, required_page, j),
            batch_bytes(kept@) == verified_pages(batch.take(i as int), verdicts@),
            found <==> exists|j: int|
                0 <= j < i && (#[trigger] pages@[j]).0 == required_page && verdicts@[j] is Ok,
            it.index() == it.seq().len() ==> batch.take(i as int) == batch,
    {
        assert(pair == pages@[i as int]);
        assert(batch[i as int] == (pair.0, pair.1@));
        let (page_id, page) = pair;
        let ghost was = kept@;
        proof {
            assert(batch.take(i + 1).drop_last() =~= batch.take(i as int));
        }
        match &verdicts[i] {
            Ok(_) => {
                if page_id == required_page {
                    found = true;
                }
                kept.push((page_id, page));
                assert(batch_bytes(kept@) =~= batch_bytes(was).push((page_id, page@)));
            },
            Err(reason) => {
                if page_id == required_page {
                    assert(rejected_at(batch, verdicts@, required_page, i as int));
                    let reason = reason.clone();
                    return Err(WindowError::Rejected(reason));
                }
            },
        }
        assert(!rejected_at(batch, verdicts@, required_page, i as int));
        i += 1;
    }
    if !found {
        assert forall|j: int| 0 <= j < pages@.len() implies (#[trigger] pages@[j]).0
            != required_page by {
            assert(batch[j].0 == pages@[j].0);
            assert(!rejected_at(batch, verdicts@, required_page, j));
        }
        return Err(WindowError::RequiredPageMissing { page_id: required_page });
    }
    assert forall|j: int| !rejected_at(batch, verdicts@, required_page, j) by {
        if 0 <= j < batch.len() {
            assert(!rejected_at(batch, verdicts@, required_page, j));
        }
    }
    proof {
        law_favourable_pages_are_kept(batch, verdicts@);
        let i = choose|i: int|
            0 <= i < pages@.len() && (#[trigger] pages@[i]).0 == required_page && verdicts@[i] is Ok;
        let wanted = |i: int| verdicts@[i] is Ok;
        let at = choose|at: Seq<int>| #[trigger]
            picked_at(batch, wanted, batch_bytes(kept@), at);
        assert(wanted(i));
        assert(at.contains(i));
        let j = choose|j: int| 0 <= j < at.len() && at[j] == i;
        assert(batch_bytes(kept@)[j] == batch[at[j]]);
        assert(kept@[j].0 == required_page);
    }
    Ok(kept)
}

/// A page of a fetched window is kept exactly when its verdict is favourable,
/// each page once and in the order in which they were fetched.
pub proof fn law_favourable_pages_are_kept(
    pages: Seq<(u64, Seq<u8>)>,
    verdicts: Seq<Result<(), String>>,
)
    ensures
        picked(pages, |i: int| verdicts[i] is Ok, verified_pages(pages, verdicts)),
    decreases pages.len(),
{
    let wanted = |i: int| verdicts[i] is Ok;
    if pages.len() == 0 {
        assert(picked_at(pages, wanted, verified_pages(pages, verdicts), Seq::empty()));
    } else {
        law_favourable_pages_are_kept(pages.drop_last(), verdicts);
        lemma_picked_next(pages, wanted, verified_pages(pages.drop_last(), verdicts));
        assert(wanted(pages.len() - 1) == (verdicts[pages.len() - 1] is Ok));
    }
}

/// Find the first unfavourable verdict on a fetched batch.
pub fn first_rejection(verdicts: &Vec<Result<(), String>>) -> (reason: Option<String>)
    ensures
        match reason {
            None => forall|i: int| 0 <= i < verdicts@.len() ==> (#[trigger] verdicts@[i]) is Ok,
            Some(reason) => exists|i: int|
                0 <= i < verdicts@.len() && #[trigger] verdicts@[i] == Err::<(), String>(reason)
                    && forall|j: int| 0 <= j < i ==> (#[trigger] verdicts@[j]) is Ok,
        },
{
    let mut i: usize = 0;
    while i < verdicts.len()
        invariant
            i <= verdicts.len(),
            forall|j: int| 0 <= j < i ==> (#[trigger] verdicts@[j]) is Ok,
        decreases verdicts.len() - i,
    {
        if let Err(reason) = &verdicts[i] {
            let reason = reason.clone();
            assert(verdicts@[i as int] == Err::<(), String>(reason));
            return Some(reason);
        }
        i += 1;
    }
    None
}

/// Put loaded metadata pages into a bootstrap image and pin each of them.
pub fn insert_bootstrap_pages(
    pages: &mut HashMap<u64, Vec<u8>>,
    pinned: &mut HashSet<u64>,
    loaded: Vec<(u64, Vec<u8>)>,
)
    ensures
        page_bytes(final(pages)@) == overlay(page_bytes(old(pages)@), batch_bytes(loaded@)),
        forall|id: u64|
            final(pinned)@.contains(id) <==> old(pinned)@.contains(id) || exists|i: int|
                0 <= i < loaded@.len() && (#[trigger] loaded@[i]).0 == id,
{
    let ghost batch = batch_bytes(loaded@);
    let ghost before = page_bytes(pages@);
    assert(batch.take(0) =~= Seq::empty());
    for pair in it: loaded
        invariant
            it.seq() == loaded@,
            batch == batch_bytes(loaded@),
            before == page_bytes(old(pages)@),
            page_bytes(pages@) == overlay(before, batch.take(it.index())),
            forall|id: u64|
                pinned@.contains(id) <==> old(pinned)@.contains(id) || exists|i: int|
                    0 <= i < it.index() && (#[trigger] loaded@[i]).0 == id,
            it.index() == it.seq().len() ==> batch.take(it.index()) == batch,
    {
        let ghost k = it.index();
        assert(pair == loaded@[k]);
        assert(batch[k] == (pair.0, pair.1@));
        let (page_id, page) = pair;
        let ghost was = pages@;
        assert(batch.take(k + 1).drop_last() =~= batch.take(k));
        pages.insert(page_id, page);
        assert(page_bytes(pages@) =~= page_bytes(was).insert(page_id, page@));
        pinned.insert(page_id);
    }
}

/// The resident pages of a range.
pub open spec fn resident_in(range: BrowserPageRange, view: BufferView) -> Set<u64> {
    Set::new(|id: u64| range.has(id) && view.pages.contains_key(id))
}

/// Add the resident pages of a range to a pin set.
pub fn insert_resident_range_ids(
    pins: &mut HashSet<u64>,
    range: BrowserPageRange,
    backend: &BrowserBufferBackend,
)
    ensures
        final(pins)@ == old(pins)@.union(resident_in(range, backend@)),
{
    let mut page_id: u64 = range.start;
    assert(pins@ =~= pins@.union(
        resident_in(BrowserPageRange { start: range.start, end: range.start }, backend@),
    ));
    while page_id < range.end
        invariant
            range.start <= page_id,
            range.start < range.end ==> page_id <= range.end,
            range.start >= range.end ==> page_id == range.start,
            pins@ == old(pins)@.union(
                resident_in(BrowserPageRange { start: range.start, end: page_id }, backend@),
            ),
        decreases range.end - page_id,
    {
        let ghost was = pins@;
        if backend.is_page_resident(page_id) {
            pins.insert(page_id);
        }
        page_id = page_id + 1;
        assert(pins@ =~= old(pins)@.union(
            resident_in(BrowserPageRange { start: range.start, end: page_id }, backend@),
        ));
    }
    assert(resident_in(BrowserPageRange { start: range.start, end: page_id }, backend@)
        =~= resident_in(range, backend@));
}

/// A manifest slot that a bounded open may choose.
#[derive(Debug)]
pub struct ManifestCandidate {
    /// The header slot that names the manifest.
    pub slot: u64,
    /// The generation that the manifest records.
    pub generation: u64,
    /// The pages of the manifest itself.
    pub manifest_range: BrowserPageRange,
    /// The pages of the delta segments that the manifest lists.
    pub segment_ranges: Vec<BrowserPageRange>,
}

/// A page belongs to one of the ranges.
pub open spec fn in_ranges(ranges: Seq<BrowserPageRange>, id: u64) -> bool {
    exists|i: int| 0 <= i < ranges.len() && (#[trigger] ranges[i]).has(id)
}

/// A page belongs to a manifest candidate.
pub open spec fn in_candidate(candidate: ManifestCandidate, id: u64) -> bool {
    candidate.manifest_range.has(id) || in_ranges(candidate.segment_ranges@, id)
}

/// A page belongs to one of the manifest candidates.
pub open spec fn in_candidates(candidates: Seq<ManifestCandidate>, id: u64) -> bool {
    exists|i: int| 0 <= i < candidates.len() && in_candidate(#[trigger] candidates[i], id)
}

/// The pages that stay resident as authority: page 0, and the resident part of
/// the required and candidate metadata.
pub open spec fn is_authority_pin(
    required: Seq<BrowserPageRange>,
    candidates: Seq<ManifestCandidate>,
    view: BufferView,
    id: u64,
) -> bool {
    id == 0 || (view.pages.contains_key(id) && (in_ranges(required, id) || in_candidates(
        candidates,
        id,
    )))
}

/// The resident pages of several ranges.
pub open spec fn resident_in_ranges(ranges: Seq<BrowserPageRange>, view: BufferView) -> Set<u64> {
    Set::new(|id: u64| in_ranges(ranges, id) && view.pages.contains_key(id))
}

/// The pages of manifest candidates that are resident.
pub open spec fn resident_in_candidates(
    candidates: Seq<ManifestCandidate>,
    view: BufferView,
) -> Set<u64> {
    Set::new(|id: u64| in_candidates(candidates, id) && view.pages.contains_key(id))
}

proof fn lemma_in_ranges_push(ranges: Seq<BrowserPageRange>, n: int, id: u64)
    requires
        0 <= n < ranges.len(),
    ensures
        in_ranges(ranges.take(n + 1), id) <==> in_ranges(ranges.take(n), id) || ranges[n].has(id),
{
    let short = ranges.take(n);
    let long = ranges.take(n + 1);
    if in_ranges(short, id) {
        let i = choose|i: int| 0 <= i < short.len() && (#[trigger] short[i]).has(id);
        assert(long[i].has(id));
    }
    if ranges[n].has(id) {
        assert(long[n].has(id));
    }
    if in_ranges(long, id) {
        let i = choose|i: int| 0 <= i < long.len() && (#[trigger] long[i]).has(id);
        if i < n {
            assert(short[i].has(id));
        }
    }
}

proof fn lemma_in_candidates_push(candidates: Seq<ManifestCandidate>, n: int, id: u64)
    requires
        0 <= n < candidates.len(),
    ensures
        in_candidates(candidates.take(n + 1), id) <==> in_candidates(candidates.take(n), id)
            || in_candidate(candidates[n], id),
{
    let short = candidates.take(n);
    let long = candidates.take(n + 1);
    if in_candidates(short, id) {
        let i = choose|i: int| 0 <= i < short.len() && in_candidate(#[trigger] short[i], id);
        assert(in_candidate(long[i], id));
    }
    if in_candidate(candidates[n], id) {
        assert(in_candidate(long[n], id));
    }
    if in_candidates(long, id) {
        let i = choose|i: int| 0 <= i < long.len() && in_candidate(#[trigger] long[i], id);
        if i < n {
            assert(in_candidate(short[i], id));
        }
    }
}

fn insert_ranges(
    pins: &mut HashSet<u64>,
    ranges: &Vec<BrowserPageRange>,
    backend: &BrowserBufferBackend,
)
    ensures
        final(pins)@ == old(pins)@.union(resident_in_ranges(ranges@, backend@)),
{
    let mut i: usize = 0;
    assert(pins@ =~= pins@.union(resident_in_ranges(ranges@.take(0), backend@)));
    while i < ranges.len()
        invariant
            i <= ranges.len(),
            pins@ == old(pins)@.union(resident_in_ranges(ranges@.take(i as int), backend@)),
        decreases ranges.len() - i,
    {
        insert_resident_range_ids(pins, ranges[i], backend);
        assert forall|id: u64| pins@.contains(id) == old(pins)@.union(
            resident_in_ranges(ranges@.take(i + 1), backend@),
        ).contains(id) by {
            lemma_in_ranges_push(ranges@, i as int, id);
        }
        assert(pins@ =~= old(pins)@.union(resident_in_ranges(ranges@.take(i + 1), backend@)));
        i += 1;
    }
    assert(ranges@.take(ranges@.len() as int) =~= ranges@);
}

/// Collect the pages that stay resident as authority.
pub fn authority_pin_ids(
    required: &Vec<BrowserPageRange>,
    candidates: &Vec<ManifestCandidate>,
    backend: &BrowserBufferBackend,
) -> (pins: HashSet<u64>)
    ensures
        pins@ == Set::new(|id: u64| is_authority_pin(required@, candidates@, backend@, id)),
{
    let mut pins: HashSet<u64> = HashSet::new();
    pins.insert(0);
    insert_ranges(&mut pins, required, backend);
    let ghost base = pins@;
    let mut i: usize = 0;
    assert(pins@ =~= base.union(resident_in_candidates(candidates@.take(0), backend@)));
    while i < candidates.len()
        invariant
            i <= candidates.len(),
            pins@ == base.union(resident_in_candidates(candidates@.take(i as int), backend@)),
        decreases candidates.len() - i,
    {
        insert_resident_range_ids(&mut pins, candidates[i].manifest_range, backend);
        insert_ranges(&mut pins, &candidates[i].segment_ranges, backend);
        assert forall|id: u64| pins@.contains(id) == base.union(
            resident_in_candidates(candidates@.take(i + 1), backend@),
        ).contains(id) by {
            lemma_in_candidates_push(candidates@, i as int, id);
        }
        assert(pins@ =~= base.union(resident_in_candidates(candidates@.take(i + 1), backend@)));
        i += 1;
    }
    assert(candidates@.take(candidates@.len() as int) =~= candidates@);
    assert(pins@ =~= Set::new(|id: u64| is_authority_pin(required@, candidates@, backend@, id)));
    pins
}

/// The planner kept the lineage that the loader selected.
pub open spec fn lineage_retained(
    candidates: Seq<ManifestCandidate>,
    selected: Option<(u64, u64)>,
) -> bool {
    match selected {
        None => true,
        Some((slot, generation)) => exists|i: int|
            0 <= i < candidates.len() && (#[trigger] candidates[i]).slot == slot
                && candidates[i].generation == generation,
    }
}

/// The page 0 that the authority pins of an image are read off. An image
/// without pages has none.
pub fn authority_page(backend: &BrowserBufferBackend) -> (result: Result<
    Option<Vec<u8>>,
    BufferError,
>)
    ensures
        match result {
            Ok(None) => backend@.logical_page_count == 0,
            Ok(Some(page)) => backend@.logical_page_count != 0 && read_outcome(backend@, 0) == Ok::<
                Seq<u8>,
                BufferError,
            >(page@),
            Err(fault) => backend@.logical_page_count != 0 && read_outcome(backend@, 0) == Err::<
                Seq<u8>,
                BufferError,
            >(fault),
        },
{
    match backend.page_count_raw() {
        Ok(0) => Ok(None),
        _ => match backend.read_page_raw(0) {
            Ok(page) => Ok(Some(page)),
            Err(fault) => Err(fault),
        },
    }
}

/// The planner lost the manifest lineage that the loader selected.
#[derive(Clone, Copy, Debug, PartialEq, Eq, Structural)]
pub struct LineageError;

impl LineageError {
    /// Render this error for a caller.
    pub fn message(&self) -> (text: &'static str)
        ensures
            text@
                == "Bounded browser planner does not retain the manifest lineage selected by the persistent loader"@,
    {
        "Bounded browser planner does not retain the manifest lineage selected by the persistent loader"
    }
}

/// Collect the authority pins of an image whose selected manifest, if it has
/// one, must be among the planned candidates. An empty image has no pins.
pub fn sparse_authority_pin_ids(
    required: &Vec<BrowserPageRange>,
    candidates: &Vec<ManifestCandidate>,
    selected: Option<(u64, u64)>,
    backend: &BrowserBufferBackend,
) -> (result: Result<HashSet<u64>, LineageError>)
    ensures
        match result {
            Ok(pins) => if backend@.logical_page_count == 0 {
                pins@ == Set::<u64>::empty()
            } else {
                &&& lineage_retained(candidates@, selected)
                &&& pins@ == Set::new(
                    |id: u64| is_authority_pin(required@, candidates@, backend@, id),
                )
            },
            Err(_) => backend@.logical_page_count != 0 && !lineage_retained(candidates@, selected),
        },
{
    if backend.is_new() {
        return Ok(HashSet::new());
    }
    if let Some((slot, generation)) = selected {
        let mut retained = false;
        let mut i: usize = 0;
        while i < candidates.len()
            invariant
                i <= candidates.len(),
                retained <==> exists|j: int|
                    0 <= j < i && (#[trigger] candidates@[j]).slot == slot
                        && candidates@[j].generation == generation,
            decreases candidates.len() - i,
        {
            if candidates[i].slot == slot && candidates[i].generation == generation {
                assert(candidates@[i as int].slot == slot);
                retained = true;
            }
            i += 1;
        }
        if !retained {
            return Err(LineageError);
        }
    }
    Ok(authority_pin_ids(required, candidates, backend))
}

/// A buffer can take these pages as its authority pins.
pub open spec fn authority_accepts(view: BufferView, pins: Set<u64>) -> bool {
    if view.sparse {
        forall|id: u64| #[trigger] pins.contains(id) ==> pin_fault(view, id) is None
    } else {
        sparse_candidate(view, pins)
    }
}

/// `fault` is a reason for a buffer not to take these authority pins.
pub open spec fn authority_fault(view: BufferView, pins: Set<u64>, fault: BufferError) -> bool {
    if view.sparse {
        exists|id: u64| #[trigger] pins.contains(id) && pin_fault(view, id) == Some(fault)
    } else {
        sparse_candidate_fault(view, pins, fault)
    }
}

/// Give a buffer its authority pins, turning a complete eager buffer sparse.
pub fn configure_sparse_authority(backend: &mut BrowserBufferBackend, pins: HashSet<u64>) -> (result:
    Result<(), BufferError>)
    ensures
        match result {
            Ok(_) => {
                &&& authority_accepts(old(backend)@, pins@)
                &&& final(backend)@ == (BufferView { pinned: pins@, sparse: true, ..old(backend)@ })
            },
            Err(fault) => {
                &&& !authority_accepts(old(backend)@, pins@)
                &&& authority_fault(old(backend)@, pins@, fault)
                &&& final(backend)@ == old(backend)@
            },
        },
        old(backend)@.wf() ==> final(backend)@.wf(),
{
    if backend.is_sparse() {
        backend.replace_pinned_pages(pins)
    } else {
        match backend.configure_sparse_residency(pins) {
            Ok(_) => Ok(()),
            Err(fault) => Err(fault),
        }
    }
}

/// Keep the complete pages of a full read that belong to the published image.
pub fn complete_published_pages(
    present: Vec<(u64, Vec<u8>)>,
    published_page_count: u64,
) -> (kept: Vec<(u64, Vec<u8>)>)
    ensures
        batch_bytes(kept@) == batch_bytes(present@).filter(
            |pair: (u64, Seq<u8>)| pair.0 < published_page_count && pair.1.len() == PAGE_SIZE,
        ),
{
    let ghost batch = batch_bytes(present@);
    let ghost wanted = |pair: (u64, Seq<u8>)|
        pair.0 < published_page_count && pair.1.len() == PAGE_SIZE;
    let mut kept: Vec<(u64, Vec<u8>)> = Vec::new();
    proof {
        assert(batch.take(0) =~= Seq::empty());
        reveal(Seq::filter);
        assert(batch_bytes(kept@) =~= Seq::empty());
    }
    for pair in it: present
        invariant
            it.seq() == present@,
            batch == batch_bytes(present@),
            wanted == (|pair: (u64, Seq<u8>)|
                pair.0 < published_page_count && pair.1.len() == PAGE_SIZE),
            batch_bytes(kept@) == batch.take(it.index()).filter(wanted),
            it.index() == it.seq().len() ==> batch.take(it.index()) == batch,
    {
        let ghost k = it.index();
        assert(pair == present@[k]);
        assert(batch[k] == (pair.0, pair.1@));
        let ghost was = kept@;
        proof {
            assert(batch.take(k + 1).drop_last() =~= batch.take(k));
            reveal(Seq::filter);
        }
        let (page_id, page) = pair;
        if page_id < published_page_count && page.len() == PAGE_SIZE {
            kept.push((page_id, page));
            assert(batch_bytes(kept@) =~= batch_bytes(was).push((page_id, page@)));
        }
    }
    kept
}

/// Every request of a walk but the last is a full batch.
pub proof fn law_batches_are_full(next: u64, end: u64)
    ensures
        forall|i: int|
            0 <= i < batches(next, end).len() - 1 ==> (#[trigger] batches(next, end)[i]).count
                == 256,
    decreases end - next,
{
    if let Some(batch) = batch_at(next, end) {
        let after = (next + batch.count) as u64;
        let all = batches(next, end);
        let rest = batches(after, end);
        law_batches_are_full(after, end);
        assert(all =~= seq![batch] + rest);
        assert forall|i: int| 0 <= i < all.len() - 1 implies (#[trigger] all[i]).count == 256 by {
            if i > 0 {
                assert(all[i] == rest[i - 1]);
            } else {
                assert(rest.len() > 0);
                assert(after < end);
            }
        }
    }
}

/// A window is as large as asked for and starts at a multiple of that, so that
/// no two windows overlap; at the end of the image it is cut off there. A window
/// of one page is the page alone.
pub proof fn law_windows_tile_the_image(
    required_page: u64,
    batch_pages: u64,
    logical_page_count: u64,
)
    ensures
        batch_pages <= 1 ==> window_of(required_page, batch_pages, logical_page_count)
            == PageWindow::Single,
        batch_pages > 1 ==> (window_of(required_page, batch_pages, logical_page_count) matches PageWindow::Window {
            start,
            count,
        } && {
            &&& start % batch_pages == 0
            &&& start <= required_page < start + batch_pages
            &&& start + batch_pages <= logical_page_count ==> count == batch_pages
            &&& start <= logical_page_count < start + batch_pages ==> start + count
                == logical_page_count
            &&& logical_page_count < start ==> count == 0
        }),
{
    if batch_pages > 1 {
        lemma_window_start(required_page as int, batch_pages as int);
        vstd::arithmetic::div_mod::lemma_mod_multiples_basic(
            required_page as int / batch_pages as int,
            batch_pages as int,
        );
    }
}

/// What stays resident as authority: page 0 always, and of the other pages
/// exactly the resident ones that lie in a required range, in a candidate's
/// manifest or in one of a candidate's segments.
pub proof fn law_authority_pins_are_the_resident_metadata(
    required: Seq<BrowserPageRange>,
    candidates: Seq<ManifestCandidate>,
    view: BufferView,
    id: u64,
)
    ensures
        is_authority_pin(required, candidates, view, 0),
        forall|i: int|
            view.pages.contains_key(id) && 0 <= i < required.len() && (#[trigger] required[i]).start
                <= id < required[i].end ==> is_authority_pin(required, candidates, view, id),
        forall|c: int|
            view.pages.contains_key(id) && 0 <= c < candidates.len() && (
            #[trigger] candidates[c]).manifest_range.start <= id < candidates[c].manifest_range.end
                ==> is_authority_pin(required, candidates, view, id),
        forall|c: int, s: int|
            view.pages.contains_key(id) && 0 <= c < candidates.len() && 0 <= s
                < candidates[c].segment_ranges@.len() && (
            #[trigger] candidates[c].segment_ranges@[s]).start <= id
                < candidates[c].segment_ranges@[s].end ==> is_authority_pin(
                required,
                candidates,
                view,
                id,
            ),
        is_authority_pin(required, candidates, view, id) && id != 0 ==> view.pages.contains_key(id)
            && ((exists|i: int|
            0 <= i < required.len() && (#[trigger] required[i]).start <= id < required[i].end) || (
        exists|c: int|
            0 <= c < candidates.len() && (#[trigger] candidates[c]).manifest_range.start <= id
                < candidates[c].manifest_range.end) || (exists|c: int, s: int|
            0 <= c < candidates.len() && 0 <= s < candidates[c].segment_ranges@.len() && (
            #[trigger] candidates[c].segment_ranges@[s]).start <= id
                < candidates[c].segment_ranges@[s].end)),
{
    assert forall|i: int|
        view.pages.contains_key(id) && 0 <= i < required.len() && (#[trigger] required[i]).start
            <= id < required[i].end implies is_authority_pin(required, candidates, view, id) by {
        assert(required[i].has(id));
    }
    assert forall|c: int|
        view.pages.contains_key(id) && 0 <= c < candidates.len() && (
        #[trigger] candidates[c]).manifest_range.start <= id
            < candidates[c].manifest_range.end implies is_authority_pin(
        required,
        candidates,
        view,
        id,
    ) by {
        assert(in_candidate(candidates[c], id));
    }
    assert forall|c: int, s: int|
        view.pages.contains_key(id) && 0 <= c < candidates.len() && 0 <= s
            < candidates[c].segment_ranges@.len() && (
        #[trigger] candidates[c].segment_ranges@[s]).start <= id
            < candidates[c].segment_ranges@[s].end implies is_authority_pin(
        required,
        candidates,
        view,
        id,
    ) by {
        assert(candidates[c].segment_ranges@[s].has(id));
        assert(in_candidate(candidates[c], id));
    }
    if is_authority_pin(required, candidates, view, id) && id != 0 {
        if in_ranges(required, id) {
            let i = choose|i: int| 0 <= i < required.len() && (#[trigger] required[i]).has(id);
            assert(required[i].start <= id < required[i].end);
        } else {
            let c = choose|c: int|
                0 <= c < candidates.len() && in_candidate(#[trigger] candidates[c], id);
            if !candidates[c].manifest_range.has(id) {
                let ranges = candidates[c].segment_ranges@;
                let s = choose|s: int| 0 <= s < ranges.len() && (#[trigger] ranges[s]).has(id);
                assert(candidates[c].segment_ranges@[s].start <= id);
            } else {
                assert(candidates[c].manifest_range.start <= id);
            }
        }
    }
}

/// A buffer takes pins exactly when every pinned page lies in the image and is
/// resident; a buffer that was eager must besides be clean, complete and of a
/// format that can be paged.
pub proof fn law_authority_needs_resident_pins(view: BufferView, pins: Set<u64>)
    ensures
        view.sparse ==> (authority_accepts(view, pins) <==> forall|id: u64| #[trigger]
            pins.contains(id) ==> id < view.logical_page_count && view.pages.contains_key(id)),
        !view.sparse ==> (authority_accepts(view, pins) <==> {
            &&& view.dirty == Set::<u64>::empty()
            &&& forall|id: u64| #[trigger]
                pins.contains(id) ==> id < view.logical_page_count && view.pages.contains_key(id)
            &&& forall|id: u64|
                id < view.logical_page_count ==> #[trigger] view.pages.contains_key(id)
                    && view.pages[id].len() == 4096
            &&& view.pages.contains_key(0)
            &&& header_of(view.pages[0]).magic == 0x4652_474D
            &&& header_of(view.pages[0]).version == 12 || header_of(view.pages[0]).version == 13
            &&& header_of(view.pages[0]).page_count == view.logical_page_count
            &&& view.logical_page_count > 0
        }),
{
    if view.sparse {
        if authority_accepts(view, pins) {
            assert forall|id: u64| #[trigger] pins.contains(id) implies id
                < view.logical_page_count && view.pages.contains_key(id) by {
                assert(pin_fault(view, id) is None);
            }
        }
    } else if !authority_accepts(view, pins) {
        if declared_count(view.pages) is Ok {
            crate::browser::buffer_laws::lemma_exportable_prefix(view.pages);
        }
        if view.pages.contains_key(0) {
            assert(!view.pages.is_empty());
        }
    } else {
        let declared = declared_count(view.pages)->Ok_0;
        crate::browser::buffer_laws::lemma_exportable_prefix(view.pages);
        assert(!view.pages.is_empty());
        assert forall|id: u64| #[trigger] pins.contains(id) implies id < view.logical_page_count
            && view.pages.contains_key(id) by {
            assert(declared_pin_fault(view.pages, declared, id) is None);
        }
    }
}

/// A lineage is kept when one of the candidates is the selected one, in its slot
/// and of its generation. Where none was selected there is nothing to keep.
pub proof fn law_kept_lineage_is_the_selected_one(
    candidates: Seq<ManifestCandidate>,
    slot: u64,
    generation: u64,
)
    ensures
        lineage_retained(candidates, None),
        lineage_retained(candidates, Some((slot, generation))) ==> exists|i: int|
            0 <= i < candidates.len() && ((#[trigger] candidates[i]).slot, candidates[i].generation)
                == (slot, generation),
        !lineage_retained(candidates, Some((slot, generation))) ==> forall|i: int|
            0 <= i < candidates.len() ==> (#[trigger] candidates[i]).slot != slot
                || candidates[i].generation != generation,
{
}

/// The resident pages of a range are those that the range spans and the buffer
/// holds. A fetched copy of the required page is rejected by its own verdict.
pub proof fn law_ranges_span_their_pages(
    range: BrowserPageRange,
    view: BufferView,
    id: u64,
    pages: Seq<(u64, Seq<u8>)>,
    verdicts: Seq<Result<(), String>>,
    i: int,
)
    ensures
        resident_in(range, view).contains(id) <==> range.start <= id && id < range.end
            && view.pages.contains_key(id),
        0 <= i < pages.len() ==> (rejected_at(pages, verdicts, pages[i].0, i) <==> verdicts[i]
            is Err),
        rejected_at(pages, verdicts, id, i) ==> pages[i].0 == id,
{
}

} // verus!
