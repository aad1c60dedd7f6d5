//! Whether eligible queries are answered from a projection.

use crate::bench::checkpoint_construction::higher;
use crate::bench::current_projection_tail::{
    expected_pair as temporal_pair, visible_count, visible_sum, TEMPORAL_AFTER,
};
use crate::bench::process_memory::above;
use crate::bench::scan::same_text;
use vstd::prelude::*;
use vstd::string::*;

verus! {

/// Growth of resident memory that a query may cause.
pub const QUERY_RSS_LIMIT_BYTES: u64 = 2_097_152;

/// Why a comparison was given up.
#[derive(Clone, Copy, Debug, PartialEq, Eq, Structural)]
pub enum RoutingError {
    /// The fixture has another size.
    FixtureFacts,
    /// The fixture was built by other code.
    FixtureBuilder,
    /// The aggregate changed from one trial to the next.
    AggregateChanged,
    /// A query that has to use the projection did not.
    NotRouted,
    /// There was no trial.
    NoSamples,
}

impl RoutingError {
    /// Render this error for a caller.
    pub fn message(&self) -> (text: &'static str)
        ensures
            text@ == match *self {
                RoutingError::FixtureFacts =>
                    "fixture fact count does not match benchmark request"@,
                RoutingError::FixtureBuilder =>
                    "fixture was not built by the current source commit"@,
                RoutingError::AggregateChanged => "aggregate changed across benchmark trials"@,
                RoutingError::NotRouted =>
                    "eligible benchmark query did not complete through the projection"@,
                RoutingError::NoSamples => "benchmark produced no samples"@,
            },
    {
        match self {
            RoutingError::FixtureFacts => "fixture fact count does not match benchmark request",
            RoutingError::FixtureBuilder => "fixture was not built by the current source commit",
            RoutingError::AggregateChanged => "aggregate changed across benchmark trials",
            RoutingError::NotRouted =>
                "eligible benchmark query did not complete through the projection",
            RoutingError::NoSamples => "benchmark produced no samples",
        }
    }
}

/// Accept a fixture that has the asked size and was built by the current code.
pub fn check_fixture(
    fixture_facts: u64,
    fixture_commit: &str,
    facts: u64,
    source_commit: &str,
) -> (result: Result<(), RoutingError>)
    ensures
        result == if fixture_facts != facts {
            Err::<(), RoutingError>(RoutingError::FixtureFacts)
        } else if fixture_commit@ != source_commit@ {
            Err(RoutingError::FixtureBuilder)
        } else {
            Ok(())
        },
{
    if fixture_facts != facts {
        return Err(RoutingError::FixtureFacts);
    }
    if !same_text(fixture_commit, source_commit) {
        return Err(RoutingError::FixtureBuilder);
    }
    Ok(())
}

/// What the aggregate over the fixture has to return today: the facts that
/// never end, and those that began at the boundary for good.
pub fn expected_pair(facts: u64) -> (pair: (u64, i128))
    ensures
        pair.0 == visible_count(facts as nat, TEMPORAL_AFTER),
        pair.1 == visible_sum(facts as nat, TEMPORAL_AFTER),
{
    temporal_pair(facts, TEMPORAL_AFTER)
}

/// Take in the aggregate of one trial: it has to be that of the trials before,
/// and, where the projection is required, one scan of it has to have completed.
pub fn accept_trial(
    previous: Option<(u64, i128)>,
    pair: (u64, i128),
    require_projection: bool,
    completed_scans: u64,
) -> (result: Result<(u64, i128), RoutingError>)
    ensures
        result == if previous is Some && previous != Some(pair) {
            Err::<(u64, i128), RoutingError>(RoutingError::AggregateChanged)
        } else if require_projection && completed_scans != 1 {
            Err(RoutingError::NotRouted)
        } else {
            Ok(pair)
        },
{
    if let Some(earlier) = previous {
        if earlier.0 != pair.0 || earlier.1 != pair.1 {
            return Err(RoutingError::AggregateChanged);
        }
    }
    if require_projection && completed_scans != 1 {
        return Err(RoutingError::NotRouted);
    }
    Ok(pair)
}

/// The aggregate of a series of trials.
pub fn series_pair(last: Option<(u64, i128)>) -> (result: Result<(u64, i128), RoutingError>)
    ensures
        result == match last {
            Some(pair) => Ok::<(u64, i128), RoutingError>(pair),
            None => Err(RoutingError::NoSamples),
        },
{
    match last {
        Some(pair) => Ok(pair),
        None => Err(RoutingError::NoSamples),
    }
}

/// What the engine reports of one routed query.
#[derive(Clone, Copy, Debug, PartialEq, Eq, Structural)]
pub struct ProjectionReadDiagnostics {
    /// Times that the projection was considered.
    pub route_attempts: u64,
    /// Scans of it that completed.
    pub completed_scans: u64,
    /// Times that the ledger answered instead.
    pub ledger_fallbacks: u64,
    /// Pages of it that were read.
    pub pages_read: u64,
    /// Times that the whole image was decoded.
    pub full_image_decodes: u64,
}

/// The gates of a comparison.
#[derive(Clone, Copy, Debug, PartialEq, Eq, Structural)]
pub struct Gates {
    /// Every answer was right.
    pub exact: bool,
    /// The query was answered from the projection, at the first attempt.
    pub routed: bool,
    /// Pages were read, and the image was never decoded whole.
    pub page_backed: bool,
    /// The projection answers fast enough.
    pub route_p50: bool,
    /// It answers faster than the ledger.
    pub improvement: bool,
    /// Its tail is close to its middle.
    pub tail: bool,
    /// The query takes little memory.
    pub query_rss: bool,
}

/// Derive the growth of peak memory over a series of queries.
pub fn query_rss_delta(baseline: u64, peak_before: u64, peak_after: u64) -> (delta: u64)
    ensures
        delta == above(peak_after, higher(peak_before, baseline)),
{
    let start: u64 = if peak_before >= baseline {
        peak_before
    } else {
        baseline
    };
    peak_after.saturating_sub(start)
}

/// Judge a comparison. `latency` is the judgement on the durations: fast
/// enough, faster than the ledger, tail close to the middle.
pub fn judge(
    facts: u64,
    ledger: (u64, i128),
    projected: (u64, i128),
    diagnostics: ProjectionReadDiagnostics,
    query_rss_delta_bytes: u64,
    latency: (bool, bool, bool),
) -> (gates: Gates)
    ensures
        ({
            let right = |pair: (u64, i128)|
                pair.0 == visible_count(facts as nat, TEMPORAL_AFTER) && pair.1 == visible_sum(
                    facts as nat,
                    TEMPORAL_AFTER,
                );
            gates == (Gates {
                exact: right(ledger) && right(projected),
                routed: diagnostics.route_attempts == 1 && diagnostics.completed_scans == 1
                    && diagnostics.ledger_fallbacks == 0,
                page_backed: diagnostics.pages_read > 0 && diagnostics.full_image_decodes == 0,
                route_p50: latency.0,
                improvement: latency.1,
                tail: latency.2,
                query_rss: query_rss_delta_bytes <= QUERY_RSS_LIMIT_BYTES,
            })
        }),
{
    let wanted = expected_pair(facts);
    let (route_p50, improvement, tail) = latency;
    Gates {
        exact: ledger.0 == wanted.0 && ledger.1 == wanted.1 && projected.0 == wanted.0
            && projected.1 == wanted.1,
        routed: diagnostics.route_attempts == 1 && diagnostics.completed_scans == 1
            && diagnostics.ledger_fallbacks == 0,
        page_backed: diagnostics.pages_read > 0 && diagnostics.full_image_decodes == 0,
        route_p50,
        improvement,
        tail,
        query_rss: query_rss_delta_bytes <= QUERY_RSS_LIMIT_BYTES,
    }
}

/// Whether a comparison admits routing: it is eligible and every gate is open.
pub fn admitted(eligible: bool, gates: Gates) -> (yes: bool)
    ensures
        yes == (eligible && gates == (Gates {
            exact: true,
            routed: true,
            page_backed: true,
            route_p50: true,
            improvement: true,
            tail: true,
            query_rss: true,
        })),
{
    eligible && gates.exact && gates.routed && gates.page_backed && gates.route_p50
        && gates.improvement && gates.tail && gates.query_rss
}

} // verus!
