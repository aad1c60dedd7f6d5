//! Memory that repeated aggregates leave behind.

use crate::bench::aggregate::{expected_checksum, sum_below};
use crate::bench::process_memory::{above, MemoryBreakdown};
use crate::text::{decimal, push_decimal};
use vstd::prelude::*;
use vstd::string::*;

verus! {

/// Iterations of the short end of a pair.
pub const ONE_ITERATION: usize = 1;

/// Iterations of the long end of a pair.
pub const REPEATED_ITERATIONS: usize = 20;

/// The order in which the two ends of a pair run.
pub open spec fn order_of(pair_index: usize) -> Seq<usize> {
    if pair_index % 2 == 0 {
        seq![ONE_ITERATION, REPEATED_ITERATIONS]
    } else {
        seq![REPEATED_ITERATIONS, ONE_ITERATION]
    }
}

/// The order in which the two ends of a pair run.
pub fn endpoint_order(pair_index: usize) -> (order: [usize; 2])
    ensures
        order@ == order_of(pair_index),
{
    if pair_index % 2 == 0 {
        [ONE_ITERATION, REPEATED_ITERATIONS]
    } else {
        [REPEATED_ITERATIONS, ONE_ITERATION]
    }
}

/// Both ends run in every pair, and the end that runs first changes from pair
/// to pair.
pub proof fn law_endpoint_order_alternates(pair_index: usize)
    requires
        pair_index < usize::MAX,
    ensures
        order_of(pair_index).len() == 2,
        order_of(pair_index).contains(ONE_ITERATION),
        order_of(pair_index).contains(REPEATED_ITERATIONS),
        order_of((pair_index + 1) as usize) == order_of(pair_index).reverse(),
{
    let order = order_of(pair_index);
    assert(order[0] == ONE_ITERATION || order[1] == ONE_ITERATION);
    assert(order[0] == REPEATED_ITERATIONS || order[1] == REPEATED_ITERATIONS);
    assert(order_of((pair_index + 1) as usize) =~= order.reverse());
}

/// Put the two measurements of a pair, in the order in which they ran, under
/// their ends: the short one first.
pub fn label_endpoints<M>(pair_index: usize, first: M, second: M) -> (ends: (M, M))
    ensures
        ends == if order_of(pair_index)[0] == ONE_ITERATION {
            (first, second)
        } else {
            (second, first)
        },
{
    let order = endpoint_order(pair_index);
    if order[0] == ONE_ITERATION {
        (first, second)
    } else {
        (second, first)
    }
}

/// Whether a measurement runs a number of iterations.
pub fn accepted_iterations(iterations: usize) -> (accepted: bool)
    ensures
        accepted == (iterations == ONE_ITERATION || iterations == REPEATED_ITERATIONS),
{
    iterations == ONE_ITERATION || iterations == REPEATED_ITERATIONS
}

/// An aggregate that came out wrong.
#[derive(Clone, Copy, Debug, PartialEq, Eq, Structural)]
pub struct AggregateMismatch {
    /// The iteration, counted from one.
    pub iteration: usize,
}

impl AggregateMismatch {
    /// The text reported for this error.
    pub open spec fn text(self) -> Seq<char> {
        "aggregate correctness mismatch at iteration "@ + decimal(self.iteration as nat)
    }

    /// Render this error for a caller.
    pub fn message(&self) -> (text: String)
        ensures
            text@ == self.text(),
    {
        let mut out = String::new();
        out.append("aggregate correctness mismatch at iteration ");
        push_decimal(&mut out, self.iteration as u64);
        assert(out@ =~= self.text());
        out
    }
}

/// A checkpointed fixture still has a write-ahead log.
#[derive(Clone, Copy, Debug, PartialEq, Eq, Structural)]
pub struct FixtureLeftLog;

impl FixtureLeftLog {
    /// Render this error for a caller.
    pub fn message(&self) -> (text: &'static str)
        ensures
            text@ == "checkpointed retention fixture left a WAL sidecar"@,
    {
        "checkpointed retention fixture left a WAL sidecar"
    }
}

/// Accept a checkpointed fixture: nothing is left in a log.
pub fn check_fixture_log(log_exists: bool) -> (result: Result<(), FixtureLeftLog>)
    ensures
        result == if log_exists {
            Err::<(), FixtureLeftLog>(FixtureLeftLog)
        } else {
            Ok(())
        },
{
    if log_exists {
        return Err(FixtureLeftLog);
    }
    Ok(())
}

/// What an aggregate over a retention graph has to return.
pub open spec fn retention_pair(facts: u64) -> (u64, i128) {
    (facts, sum_below(facts as nat) as i128)
}

/// Accept the aggregate of one iteration.
pub fn admit_iteration(facts: u64, iteration: usize, actual: (u64, i128)) -> (result: Result<
    (),
    AggregateMismatch,
>)
    requires
        facts * (facts - 1) <= i128::MAX,
    ensures
        result == if actual == retention_pair(facts) {
            Ok::<(), AggregateMismatch>(())
        } else {
            Err(AggregateMismatch { iteration })
        },
{
    if actual.0 != facts || actual.1 != expected_checksum(facts) {
        return Err(AggregateMismatch { iteration });
    }
    Ok(())
}

/// What was observed of the database file.
#[derive(Clone, Copy, Debug, PartialEq, Eq, Structural)]
pub struct FileState {
    /// Transactions of the ledger.
    pub tx_count: u64,
    /// Bytes of the graph file.
    pub graph_bytes: u64,
    /// Whether there is a write-ahead log.
    pub wal_exists: bool,
}

/// What was observed of the process at one point.
#[derive(Clone, Copy, Debug, PartialEq, Eq, Structural)]
pub struct MemoryState {
    /// Resident memory.
    pub rss_bytes: u64,
    /// Resident memory by owner.
    pub breakdown: MemoryBreakdown,
}

/// What is read off the process in the course of a measurement.
#[derive(Clone, Copy, Debug, PartialEq, Eq, Structural)]
pub struct MemoryCourse {
    /// After the database was opened.
    pub baseline: MemoryState,
    /// After the last aggregate.
    pub before_trim: MemoryState,
    /// After the allocator was trimmed, with the database still open.
    pub after_live_trim: MemoryState,
    /// After the database was closed and the allocator trimmed again.
    pub after_drop_trim: MemoryState,
}

/// What a measurement retains, derived from what was read.
#[derive(Clone, Copy, Debug, PartialEq, Eq, Structural)]
pub struct Retention {
    /// By owner, before the trim.
    pub breakdown_delta_before_trim: MemoryBreakdown,
    /// By owner, after the live trim.
    pub breakdown_delta_after_live_trim: MemoryBreakdown,
    /// In all, before the trim.
    pub retained_delta_before_trim_bytes: u64,
    /// In all, after the live trim.
    pub retained_delta_after_live_trim_bytes: u64,
    /// Held by the open database.
    pub live_database_rss_bytes: u64,
}

/// The growth of every owner over a baseline.
pub open spec fn breakdown_growth(now: MemoryBreakdown, baseline: MemoryBreakdown) -> MemoryBreakdown {
    MemoryBreakdown {
        anonymous_rss_bytes: above(now.anonymous_rss_bytes, baseline.anonymous_rss_bytes),
        file_backed_rss_bytes: above(now.file_backed_rss_bytes, baseline.file_backed_rss_bytes),
        heap_mapping_rss_bytes: above(now.heap_mapping_rss_bytes, baseline.heap_mapping_rss_bytes),
        database_mapped_rss_bytes: above(
            now.database_mapped_rss_bytes,
            baseline.database_mapped_rss_bytes,
        ),
    }
}

/// Derive what a measurement retains.
pub fn retention(course: MemoryCourse) -> (retained: Retention)
    ensures
        retained == (Retention {
            breakdown_delta_before_trim: breakdown_growth(
                course.before_trim.breakdown,
                course.baseline.breakdown,
            ),
            breakdown_delta_after_live_trim: breakdown_growth(
                course.after_live_trim.breakdown,
                course.baseline.breakdown,
            ),
            retained_delta_before_trim_bytes: above(
                course.before_trim.rss_bytes,
                course.baseline.rss_bytes,
            ),
            retained_delta_after_live_trim_bytes: above(
                course.after_live_trim.rss_bytes,
                course.baseline.rss_bytes,
            ),
            live_database_rss_bytes: above(
                course.after_live_trim.rss_bytes,
                course.after_drop_trim.rss_bytes,
            ),
        }),
{
    Retention {
        breakdown_delta_before_trim: course.before_trim.breakdown.saturating_sub(
            course.baseline.breakdown,
        ),
        breakdown_delta_after_live_trim: course.after_live_trim.breakdown.saturating_sub(
            course.baseline.breakdown,
        ),
        retained_delta_before_trim_bytes: course.before_trim.rss_bytes.saturating_sub(
            course.baseline.rss_bytes,
        ),
        retained_delta_after_live_trim_bytes: course.after_live_trim.rss_bytes.saturating_sub(
            course.baseline.rss_bytes,
        ),
        live_database_rss_bytes: course.after_live_trim.rss_bytes.saturating_sub(
            course.after_drop_trim.rss_bytes,
        ),
    }
}

/// One complete measurement. `S` is what one iteration recorded.
#[derive(Debug)]
pub struct Measurement<S> {
    /// Iterations.
    pub iterations: usize,
    /// The file before.
    pub before: FileState,
    /// The file after.
    pub after: FileState,
    /// What was read off the process.
    pub course: MemoryCourse,
    /// What each iteration recorded.
    pub samples: Vec<S>,
    /// Peak of the resident memory.
    pub process_peak_rss_bytes: u64,
    /// Whether the allocator can be trimmed.
    pub allocator_trim_supported: bool,
    /// Whether the live trim released anything.
    pub allocator_trim_released: bool,
    /// What is retained.
    pub retained: Retention,
    /// Facts counted.
    pub count: u64,
    /// Sum of their values.
    pub checksum: i128,
}

/// Assemble a measurement whose iterations were all accepted.
pub fn complete_measurement<S>(
    facts: u64,
    files: (FileState, FileState),
    course: MemoryCourse,
    samples: Vec<S>,
    process_peak_rss_bytes: u64,
    trim: (bool, bool),
) -> (measurement: Measurement<S>)
    requires
        facts * (facts - 1) <= i128::MAX,
    ensures
        measurement.iterations == samples@.len(),
        measurement.before == files.0,
        measurement.after == files.1,
        measurement.course == course,
        measurement.samples == samples,
        measurement.process_peak_rss_bytes == process_peak_rss_bytes,
        measurement.allocator_trim_supported == trim.0,
        measurement.allocator_trim_released == trim.1,
        measurement.retained.breakdown_delta_before_trim == breakdown_growth(
            course.before_trim.breakdown,
            course.baseline.breakdown,
        ),
        measurement.retained.breakdown_delta_after_live_trim == breakdown_growth(
            course.after_live_trim.breakdown,
            course.baseline.breakdown,
        ),
        measurement.retained.retained_delta_before_trim_bytes == above(
            course.before_trim.rss_bytes,
            course.baseline.rss_bytes,
        ),
        measurement.retained.retained_delta_after_live_trim_bytes == above(
            course.after_live_trim.rss_bytes,
            course.baseline.rss_bytes,
        ),
        measurement.retained.live_database_rss_bytes == above(
            course.after_live_trim.rss_bytes,
            course.after_drop_trim.rss_bytes,
        ),
        (measurement.count, measurement.checksum) == retention_pair(facts),
{
    let (before, after) = files;
    let (allocator_trim_supported, allocator_trim_released) = trim;
    Measurement {
        iterations: samples.len(),
        before,
        after,
        course,
        samples,
        process_peak_rss_bytes,
        allocator_trim_supported,
        allocator_trim_released,
        retained: retention(course),
        count: facts,
        checksum: expected_checksum(facts),
    }
}

} // verus!
