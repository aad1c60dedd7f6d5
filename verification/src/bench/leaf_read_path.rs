//! Point and aggregate reads that end in one leaf.

use crate::bench::aggregate::{expected_checksum, sum_below, QueryRows};
use crate::bench::process_memory::above;
use crate::text::{decimal, push_decimal};
use vstd::prelude::*;
use vstd::string::*;

verus! {

/// Point reads that make up one timed batch.
pub const POINT_BATCH: usize = 200;

/// Point reads before the first timed one.
pub const POINT_WARMUP: usize = 100;

/// The value that point reads look up: the one in the middle.
pub fn point_target(facts: u64) -> (target: u64)
    ensures
        target == facts / 2,
{
    facts / 2
}

/// Write the query for one value.
pub fn point_query(target: u64) -> (query: String)
    ensures
        query@ == "(query [:find ?v :where [:leaf/e"@ + decimal(target as nat)
            + " :leaf/value ?v]])"@,
{
    let mut query = String::new();
    query.append("(query [:find ?v :where [:leaf/e");
    push_decimal(&mut query, target);
    query.append(" :leaf/value ?v]])");
    assert(query@ =~= "(query [:find ?v :where [:leaf/e"@ + decimal(target as nat)
        + " :leaf/value ?v]])"@);
    query
}

/// Why a leaf read came out wrong.
#[derive(Clone, Copy, Debug, PartialEq, Eq, Structural)]
pub enum LeafError {
    /// The command was no query.
    NotAQuery,
    /// The first cell holds no integer.
    NoInteger,
    /// The expected value does not fit an integer cell.
    ExpectedTooLarge,
    /// The point read found another value.
    PointMismatch,
    /// The aggregate is wrong.
    AggregateMismatch,
}

impl LeafError {
    /// Render this error for a caller.
    pub fn message(&self) -> (text: &'static str)
        ensures
            text@ == match *self {
                LeafError::NotAQuery => "point query returned a non-query result"@,
                LeafError::NoInteger => "point query returned no integer"@,
                LeafError::ExpectedTooLarge => "out of range integral type conversion attempted"@,
                LeafError::PointMismatch => "point query mismatch"@,
                LeafError::AggregateMismatch => "aggregate correctness mismatch"@,
            },
    {
        match self {
            LeafError::NotAQuery => "point query returned a non-query result",
            LeafError::NoInteger => "point query returned no integer",
            LeafError::ExpectedTooLarge => "out of range integral type conversion attempted",
            LeafError::PointMismatch => "point query mismatch",
            LeafError::AggregateMismatch => "aggregate correctness mismatch",
        }
    }
}

/// The integer in the first cell of the first row.
pub open spec fn first_integer(rows: Seq<Vec<Option<i64>>>) -> Option<i64> {
    if rows.len() > 0 && rows[0]@.len() > 0 {
        rows[0]@[0]
    } else {
        None
    }
}

/// The outcome of a point read.
pub open spec fn point_outcome(result: QueryRows, expected: u64) -> Result<(), LeafError> {
    match result {
        QueryRows::NotAQuery => Err(LeafError::NotAQuery),
        QueryRows::Rows(rows) => match first_integer(rows@) {
            None => Err(LeafError::NoInteger),
            Some(actual) => if expected > i64::MAX {
                Err(LeafError::ExpectedTooLarge)
            } else if actual != expected {
                Err(LeafError::PointMismatch)
            } else {
                Ok(())
            },
        },
    }
}

/// Accept a point read that found the expected value.
pub fn validate_point(result: &QueryRows, expected: u64) -> (outcome: Result<(), LeafError>)
    ensures
        outcome == point_outcome(*result, expected),
{
    let rows = match result {
        QueryRows::NotAQuery => return Err(LeafError::NotAQuery),
        QueryRows::Rows(rows) => rows,
    };
    let first: Option<i64> = if rows.len() > 0 && rows[0].len() > 0 {
        rows[0][0]
    } else {
        None
    };
    match first {
        None => Err(LeafError::NoInteger),
        Some(actual) => {
            if expected > 0x7FFF_FFFF_FFFF_FFFF {
                return Err(LeafError::ExpectedTooLarge);
            }
            if actual != expected as i64 {
                return Err(LeafError::PointMismatch);
            }
            Ok(())
        },
    }
}

/// The numbers of an aggregate measurement.
#[derive(Clone, Copy, Debug, PartialEq, Eq, Structural)]
pub struct AggregateNumbers {
    /// Facts counted.
    pub count: u64,
    /// Sum of their values.
    pub checksum: i128,
    /// Resident after the graph was opened.
    pub open_baseline_rss_bytes: u64,
    /// Peak of the workload.
    pub workload_peak_rss_bytes: u64,
    /// How far the peak lies above the start.
    pub workload_delta_rss_bytes: u64,
}

/// Accept the aggregate of the last timed sample.
pub fn validate_aggregate(facts: u64, pair: (u64, i128)) -> (result: Result<(), LeafError>)
    requires
        facts * (facts - 1) <= i128::MAX,
    ensures
        result == if pair.0 == facts && pair.1 == sum_below(facts as nat) {
            Ok::<(), LeafError>(())
        } else {
            Err(LeafError::AggregateMismatch)
        },
{
    if pair.0 != facts || pair.1 != expected_checksum(facts) {
        return Err(LeafError::AggregateMismatch);
    }
    Ok(())
}

/// Assemble the numbers of an aggregate measurement. The pair is the one of
/// the run that was diagnosed.
pub fn aggregate_numbers(diagnosed: (u64, i128), baseline: u64, peak: u64) -> (numbers:
    AggregateNumbers)
    ensures
        numbers == (AggregateNumbers {
            count: diagnosed.0,
            checksum: diagnosed.1,
            open_baseline_rss_bytes: baseline,
            workload_peak_rss_bytes: peak,
            workload_delta_rss_bytes: above(peak, baseline),
        }),
{
    AggregateNumbers {
        count: diagnosed.0,
        checksum: diagnosed.1,
        open_baseline_rss_bytes: baseline,
        workload_peak_rss_bytes: peak,
        workload_delta_rss_bytes: peak.saturating_sub(baseline),
    }
}

} // verus!
