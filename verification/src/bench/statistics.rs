//! Ranks of sorted samples. The samples themselves are never looked at, so
//! that measurements of any kind can be ranked.

use vstd::prelude::*;

verus! {

/// A product that stops at the largest count.
pub open spec fn capped_product(a: usize, b: usize) -> usize {
    if a * b > usize::MAX {
        usize::MAX
    } else {
        (a * b) as usize
    }
}

fn product(a: usize, b: usize) -> (c: usize)
    ensures
        c == capped_product(a, b),
{
    match a.checked_mul(b) {
        Some(c) => c,
        None => usize::MAX,
    }
}

/// A hundredth, rounded up.
pub open spec fn hundredth_up(n: usize) -> int {
    (n + 99) / 100
}

fn div_up(n: usize) -> (q: usize)
    ensures
        q == hundredth_up(n),
{
    if n % 100 == 0 {
        n / 100
    } else {
        n / 100 + 1
    }
}

/// A percentage that ranks can be taken at.
pub open spec fn is_percent(percent: usize) -> bool {
    1 <= percent <= 100
}

/// The place of the sample of nearest rank.
pub open spec fn nearest_index(len: usize, percent: usize) -> int {
    hundredth_up(capped_product(percent, len)) - 1
}

/// The sample of nearest rank at a percentage.
pub open spec fn nearest<T>(sorted: Seq<T>, percent: usize) -> Option<T> {
    if sorted.len() == 0 || !is_percent(percent) {
        None
    } else if nearest_index(sorted.len() as usize, percent) < sorted.len() {
        Some(sorted[nearest_index(sorted.len() as usize, percent)])
    } else {
        None
    }
}

/// Take the sample of nearest rank off sorted samples. There is none of no
/// samples, nor at anything but a percentage.
pub fn nearest_rank<T: Copy>(sorted: &[T], percent: usize) -> (sample: Option<T>)
    ensures
        sample == nearest(sorted@, percent),
{
    if sorted.len() == 0 || percent == 0 || percent > 100 {
        return None;
    }
    let len: usize = sorted.len();
    let whole: usize = product(percent, len);
    assert(percent * len >= 1) by (nonlinear_arith)
        requires
            percent >= 1,
            len >= 1,
    ;
    let rank: usize = div_up(whole);
    if rank - 1 < len {
        Some(sorted[rank - 1])
    } else {
        None
    }
}

/// The place of the sample of nearest rank, for any percentage: the first
/// place for none at all.
pub open spec fn open_index(len: usize, percent: usize) -> int {
    let whole = capped_product(len, percent);
    let padded = if whole + 99 > usize::MAX {
        usize::MAX as int
    } else {
        whole + 99
    };
    if padded / 100 == 0 {
        0
    } else {
        padded / 100 - 1
    }
}

/// Take the sample of nearest rank off sorted samples, at any percentage.
pub fn open_rank<T: Copy>(sorted: &[T], percent: usize) -> (sample: Option<T>)
    ensures
        sample == if open_index(sorted@.len() as usize, percent) < sorted@.len() {
            Some(sorted@[open_index(sorted@.len() as usize, percent)])
        } else {
            None::<T>
        },
{
    let len: usize = sorted.len();
    let rank: usize = product(len, percent).saturating_add(99) / 100;
    let index: usize = rank.saturating_sub(1);
    if index < len {
        Some(sorted[index])
    } else {
        None
    }
}

/// Take the sample of nearest rank off sorted samples, the way a layout
/// comparison does: there is none of no samples, nor at anything but a
/// percentage.
pub fn layout_percentile<T: Copy>(sorted: &[T], percent: usize) -> (sample: Option<T>)
    ensures
        sample == if sorted@.len() == 0 || !is_percent(percent) {
            None::<T>
        } else if open_index(sorted@.len() as usize, percent) < sorted@.len() {
            Some(sorted@[open_index(sorted@.len() as usize, percent)])
        } else {
            None
        },
{
    if sorted.len() == 0 || percent < 1 || percent > 100 {
        return None;
    }
    open_rank(sorted, percent)
}

/// The place of a sample between the first and the last one.
pub open spec fn spread_index(len: usize, percent: usize) -> int {
    hundredth_up(
        capped_product(
            if len == 0 {
                0
            } else {
                (len - 1) as usize
            },
            percent,
        ),
    )
}

/// Take the sample at a percentage of the way from the first to the last one.
pub fn spread_percentile<T: Copy>(sorted: &[T], percent: usize) -> (sample: Option<T>)
    ensures
        sample == if spread_index(sorted@.len() as usize, percent) < sorted@.len() {
            Some(sorted@[spread_index(sorted@.len() as usize, percent)])
        } else {
            None::<T>
        },
{
    let len: usize = sorted.len();
    let index: usize = div_up(product(len.saturating_sub(1), percent));
    if index < len {
        Some(sorted[index])
    } else {
        None
    }
}

/// What is reported of a series of samples.
#[derive(Clone, Copy, Debug, PartialEq)]
pub struct Summary<T> {
    /// The median.
    pub p50: T,
    /// The sample at 95 percent.
    pub p95: T,
    /// The largest sample.
    pub max: T,
    /// The median deviation from the median.
    pub mad: T,
}

/// The summary of sorted samples and of their sorted deviations from the
/// median.
pub open spec fn summary_of<T>(sorted: Seq<T>, deviations: Seq<T>) -> Option<Summary<T>> {
    match (nearest(sorted, 50), nearest(sorted, 95), nearest(deviations, 50)) {
        (Some(p50), Some(p95), Some(mad)) => Some(Summary { p50, p95, max: sorted.last(), mad }),
        _ => None,
    }
}

/// Summarise sorted samples, given their sorted deviations from the median.
pub fn summarize<T: Copy>(sorted: &[T], deviations: &[T]) -> (summary: Option<Summary<T>>)
    ensures
        summary == summary_of(sorted@, deviations@),
{
    let p50 = nearest_rank(sorted, 50);
    let p95 = nearest_rank(sorted, 95);
    let mad = nearest_rank(deviations, 50);
    match (p50, p95, mad) {
        (Some(p50), Some(p95), Some(mad)) => {
            let max = sorted[sorted.len() - 1];
            Some(Summary { p50, p95, max, mad })
        },
        _ => None,
    }
}

/// The sample of nearest rank is the first one at or below which the asked
/// percentage of all samples lies, as long as the product with the number of
/// samples fits.
pub proof fn law_nearest_rank_covers_percentage(len: usize, percent: usize)
    requires
        len > 0,
        is_percent(percent),
        len * percent + 99 <= usize::MAX,
    ensures
        0 <= nearest_index(len, percent) < len,
        (nearest_index(len, percent) + 1) * 100 >= percent * len,
        nearest_index(len, percent) * 100 < percent * len,
{
    assert(1 <= percent * len <= 100 * len && percent * len == len * percent) by (nonlinear_arith)
        requires
            len > 0,
            1 <= percent <= 100,
    ;
}

/// The last sample, and only that one, is the one of full rank.
pub proof fn law_full_rank_is_maximum(len: usize)
    requires
        len > 0,
        len * 100 + 99 <= usize::MAX,
    ensures
        nearest_index(len, 100) == len - 1,
{
}

/// All programs that take nearest ranks agree on them.
pub proof fn law_rank_rules_agree(len: usize, percent: usize)
    requires
        len > 0,
        is_percent(percent),
        len * percent + 99 <= usize::MAX,
    ensures
        open_index(len, percent) == nearest_index(len, percent),
{
    law_nearest_rank_covers_percentage(len, percent);
    assert(percent * len == len * percent) by (nonlinear_arith);
}

/// The spread of samples runs from the first to the last one.
pub proof fn law_spread_stays_within_samples(len: usize, percent: usize)
    requires
        len > 0,
        percent <= 100,
        len * percent + 99 <= usize::MAX,
    ensures
        0 <= spread_index(len, percent) < len,
        spread_index(len, 0) == 0,
        len * 100 + 99 <= usize::MAX ==> spread_index(len, 100) == len - 1,
{
    assert(0 <= (len - 1) * percent <= (len - 1) * 100 && (len - 1) * percent <= len * percent)
        by (nonlinear_arith)
        requires
            len > 0,
            percent <= 100,
    ;
    assert((len - 1) * 0 == 0);
}

} // verus!
