//! Ordered and unordered walks over hashed page-id collections.

use std::collections::{HashMap, HashSet};
use vstd::prelude::*;

verus! {

broadcast use vstd::std_specs::hash::group_hash_axioms;

/// The page contents of a resident map, as byte sequences.
pub open spec fn page_bytes(pages: Map<u64, Vec<u8>>) -> Map<u64, Seq<u8>> {
    Map::new(|id: u64| pages.contains_key(id), |id: u64| pages[id]@)
}

/// Strictly ascending, hence free of repetitions.
pub open spec fn strictly_ascending(ids: Seq<u64>) -> bool {
    forall|i: int, j: int| 0 <= i < j < ids.len() ==> #[trigger] ids[i] < #[trigger] ids[j]
}

/// The ids of every resident page, each once, in no particular order.
pub fn resident_ids(pages: &HashMap<u64, Vec<u8>>) -> (ids: Vec<u64>)
    ensures
        ids@.no_duplicates(),
        ids@.to_set() == pages@.dom(),
        ids@.len() == pages@.len(),
{
    let mut ids: Vec<u64> = Vec::new();
    for id in it: pages.keys()
        invariant
            ids@ == it.seq().unref().take(it.index()),
            it.index() == it.seq().len() ==> ids@ == it.seq().unref(),
            it.seq().unref().to_set() == pages@.dom(),
            it.seq().no_duplicates(),
            it.seq().len() == pages@.dom().len(),
    {
        ids.push(*id);
    }
    ids
}

/// The members of an id set, each once, in no particular order.
pub fn member_ids(set: &HashSet<u64>) -> (ids: Vec<u64>)
    ensures
        ids@.no_duplicates(),
        ids@.to_set() == set@,
        ids@.len() == set@.len(),
{
    let mut ids: Vec<u64> = Vec::new();
    for id in it: set.iter()
        invariant
            ids@ == it.seq().unref().take(it.index()),
            it.index() == it.seq().len() ==> ids@ == it.seq().unref(),
            it.seq().unref().to_set() == set@,
            it.seq().no_duplicates(),
            it.seq().len() == set@.len(),
    {
        ids.push(*id);
    }
    ids
}

/// Copy an id set.
pub fn copy_set(set: &HashSet<u64>) -> (copy: HashSet<u64>)
    ensures
        copy@ == set@,
{
    let ids = member_ids(set);
    let mut copy: HashSet<u64> = HashSet::new();
    let mut i: usize = 0;
    while i < ids.len()
        invariant
            i <= ids.len(),
            forall|id: u64|
                copy@.contains(id) <==> exists|j: int| 0 <= j < i && #[trigger] ids@[j] == id,
        decreases ids.len() - i,
    {
        copy.insert(ids[i]);
        i += 1;
    }
    assert forall|id: u64| copy@.contains(id) == set@.contains(id) by {
        assert(ids@.to_set().contains(id) <==> ids@.contains(id));
    }
    assert(copy@ =~= set@);
    copy
}

/// Calls `slice::sort_unstable` on page ids.
///
/// Claimed of it: the result is in ascending order and is a rearrangement of
/// the input, as the documentation of `sort_unstable` says of any total order.
#[verifier::external_body]
fn sort_ids(ids: &mut Vec<u64>)
    ensures
        final(ids)@.to_multiset() == old(ids)@.to_multiset(),
        forall|i: int, j: int|
            0 <= i <= j < final(ids)@.len() ==> #[trigger] final(ids)@[i] <= #[trigger] final(ids)@[j],
{
    ids.sort_unstable();
}

/// Sort ids that occur once each.
pub fn ascending(ids: Vec<u64>) -> (sorted: Vec<u64>)
    requires
        ids@.no_duplicates(),
    ensures
        strictly_ascending(sorted@),
        sorted@.to_set() == ids@.to_set(),
        sorted@.len() == ids@.len(),
{
    let mut sorted = ids;
    sort_ids(&mut sorted);
    proof {
        ids@.to_multiset_ensures();
        sorted@.to_multiset_ensures();
        assert forall|id: u64| ids@.to_set().contains(id) == sorted@.to_set().contains(id) by {
            assert(ids@.contains(id) <==> ids@.to_multiset().count(id) > 0);
            assert(sorted@.contains(id) <==> sorted@.to_multiset().count(id) > 0);
        }
        assert(sorted@.to_set() =~= ids@.to_set());
        ids@.unique_seq_to_set();
        sorted@.lemma_cardinality_of_set();
        ids@.lemma_multiset_has_no_duplicates();
        sorted@.lemma_multiset_has_no_duplicates_conv();
        assert forall|i: int, j: int| 0 <= i < j < sorted@.len() implies #[trigger] sorted@[i]
            < #[trigger] sorted@[j] by {
            assert(sorted@[i] <= sorted@[j]);
        }
    }
    sorted
}

/// `kept` holds exactly the items of `all` that `wanted` marks, each once and
/// in their order: `at` gives the place in `all` of each item of `kept`.
pub open spec fn picked_at<T>(all: Seq<T>, wanted: spec_fn(int) -> bool, kept: Seq<T>, at: Seq<int>) -> bool {
    &&& at.len() == kept.len()
    &&& forall|j: int|
        0 <= j < at.len() ==> 0 <= #[trigger] at[j] < all.len() && wanted(at[j]) && kept[j]
            == all[at[j]]
    &&& forall|j: int, k: int| 0 <= j < k < at.len() ==> #[trigger] at[j] < #[trigger] at[k]
    &&& forall|i: int| 0 <= i < all.len() && #[trigger] wanted(i) ==> at.contains(i)
}

/// `kept` holds exactly the items of `all` that `wanted` marks, each once and
/// in their order.
pub open spec fn picked<T>(all: Seq<T>, wanted: spec_fn(int) -> bool, kept: Seq<T>) -> bool {
    exists|at: Seq<int>| #[trigger] picked_at(all, wanted, kept, at)
}

/// Going on by one item: it is kept where it is wanted.
pub(crate) proof fn lemma_picked_next<T>(
    all: Seq<T>,
    wanted: spec_fn(int) -> bool,
    kept: Seq<T>,
)
    requires
        all.len() > 0,
        picked(all.drop_last(), wanted, kept),
    ensures
        picked(
            all,
            wanted,
            if wanted(all.len() - 1) {
                kept.push(all.last())
            } else {
                kept
            },
        ),
{
    let shorter = all.drop_last();
    let at = choose|at: Seq<int>| #[trigger] picked_at(shorter, wanted, kept, at);
    let last = all.len() - 1;
    if wanted(last) {
        let longer = at.push(last);
        assert forall|i: int| 0 <= i < all.len() && #[trigger] wanted(i) implies longer.contains(
            i,
        ) by {
            if i < last {
                assert(at.contains(i));
                let j = choose|j: int| 0 <= j < at.len() && at[j] == i;
                assert(longer[j] == i);
            } else {
                assert(longer[at.len() as int] == i);
            }
        }
        assert(picked_at(all, wanted, kept.push(all.last()), longer));
    } else {
        assert(picked_at(all, wanted, kept, at));
    }
}

/// Ascending ids grow from place to place, so none occurs twice.
pub proof fn law_ascending_ids_grow(ids: Seq<u64>, i: int, j: int)
    requires
        strictly_ascending(ids),
        0 <= i < j < ids.len(),
    ensures
        ids[i] < ids[j],
{
}

} // verus!
