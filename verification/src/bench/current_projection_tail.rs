//! Tail latency of decoded projections against freshly built ones. `T` is a
//! measured duration: it is carried along and never looked at.

use crate::bench::aggregate::sum_below;
use crate::bench::scan::same_text;
use crate::text::{fingerprint_text, hex_digits, push_signed, signed_decimal};
use vstd::prelude::*;
use vstd::string::*;

verus! {

/// The instant at which the temporal fixture changes.
pub const TEMPORAL_BOUNDARY: i64 = 1_735_689_600_000;

/// The last instant before the change.
pub const TEMPORAL_BEFORE: i64 = 1_735_689_599_999;

/// An instant after the short-lived facts have ended.
pub const TEMPORAL_AFTER: i64 = 1_735_689_600_002;

/// Trials of a full comparison.
pub const FULL_TRIALS: usize = 20;

/// How full the pages of the fixture are, in percent.
pub const EXPECTED_FILL_PERCENT: u8 = 90;

/// Number of instants that are probed.
pub const PROBE_COUNT: usize = 3;

/// The two projections that are compared.
#[derive(Clone, Copy, Debug, PartialEq, Eq, Structural)]
pub enum CandidateKind {
    /// Freshly built.
    Source,
    /// Decoded from its image.
    Decoded,
}

/// The name of a probe.
pub open spec fn probe_name(probe_index: int) -> Seq<char> {
    if probe_index == 0 {
        "beforeBoundary"@
    } else if probe_index == 1 {
        "atBoundary"@
    } else {
        "afterBoundary"@
    }
}

/// The instant that a probe looks at.
pub open spec fn probe_instant(probe_index: int) -> i64 {
    if probe_index == 0 {
        TEMPORAL_BEFORE
    } else if probe_index == 1 {
        TEMPORAL_BOUNDARY
    } else {
        TEMPORAL_AFTER
    }
}

/// One of the three probes.
#[derive(Clone, Copy, Debug)]
pub struct Probe {
    /// Its name.
    pub name: &'static str,
    /// The instant that it looks at.
    pub valid_at: i64,
}

/// The probe at a place.
pub fn probe(probe_index: usize) -> (probe: Probe)
    requires
        probe_index < PROBE_COUNT,
    ensures
        probe.name@ == probe_name(probe_index as int),
        probe.valid_at == probe_instant(probe_index as int),
{
    if probe_index == 0 {
        Probe { name: "beforeBoundary", valid_at: TEMPORAL_BEFORE }
    } else if probe_index == 1 {
        Probe { name: "atBoundary", valid_at: TEMPORAL_BOUNDARY }
    } else {
        Probe { name: "afterBoundary", valid_at: TEMPORAL_AFTER }
    }
}

/// The order in which the two projections answer a probe.
pub open spec fn order_of(trial_index: int, probe_index: int) -> Seq<CandidateKind> {
    if (trial_index + probe_index) % 2 == 0 {
        seq![CandidateKind::Source, CandidateKind::Decoded]
    } else {
        seq![CandidateKind::Decoded, CandidateKind::Source]
    }
}

/// The order in which the two projections answer a probe.
pub fn candidate_order(trial_index: usize, probe_index: usize) -> (order: [CandidateKind; 2])
    ensures
        order@ == order_of(trial_index as int, probe_index as int),
{
    if trial_index % 2 == probe_index % 2 {
        [CandidateKind::Source, CandidateKind::Decoded]
    } else {
        [CandidateKind::Decoded, CandidateKind::Source]
    }
}

/// How often the freshly built projection goes first in the first `trials`
/// trials of a probe.
pub open spec fn source_first(trials: nat, probe_index: int) -> nat
    decreases trials,
{
    if trials == 0 {
        0
    } else {
        source_first((trials - 1) as nat, probe_index) + if order_of(
            trials - 1,
            probe_index,
        )[0] == CandidateKind::Source {
            1nat
        } else {
            0nat
        }
    }
}

/// Over an even number of trials each projection goes first equally often.
pub proof fn law_candidate_order_is_balanced(half: nat, probe_index: int)
    ensures
        source_first(2 * half, probe_index) == half,
    decreases half,
{
    if half > 0 {
        law_candidate_order_is_balanced((half - 1) as nat, probe_index);
        let last = (2 * half) as nat;
        assert(source_first(last, probe_index) == source_first((last - 1) as nat, probe_index)
            + if order_of(last - 1, probe_index)[0] == CandidateKind::Source {
            1nat
        } else {
            0nat
        });
        assert(source_first((last - 1) as nat, probe_index) == source_first(
            (last - 2) as nat,
            probe_index,
        ) + if order_of(last - 2, probe_index)[0] == CandidateKind::Source {
            1nat
        } else {
            0nat
        });
        assert((last - 2) as nat == 2 * (half - 1) as nat);
    }
}

/// The probes of a trial, in the order in which they run.
pub open spec fn rotation(trial_index: int) -> Seq<usize> {
    seq![
        (trial_index % 3) as usize,
        ((trial_index + 1) % 3) as usize,
        ((trial_index + 2) % 3) as usize,
    ]
}

/// The probes of a trial, in the order in which they run.
pub fn rotated_probe_indices(trial_index: usize) -> (indices: [usize; 3])
    ensures
        indices@ == rotation(trial_index as int),
{
    let start: usize = trial_index % 3;
    let indices = [start, (start + 1) % 3, (start + 2) % 3];
    assert(indices@ =~= rotation(trial_index as int));
    indices
}

/// Every trial runs each probe once, and moves on by one from the trial before.
pub proof fn law_probe_order_rotates(trial_index: int)
    requires
        trial_index >= 0,
    ensures
        forall|probe_index: usize|
            probe_index < PROBE_COUNT <==> #[trigger] rotation(trial_index).contains(probe_index),
        rotation(trial_index).no_duplicates(),
        rotation(trial_index + 1) == seq![
            rotation(trial_index)[1],
            rotation(trial_index)[2],
            rotation(trial_index)[0],
        ],
{
    let order = rotation(trial_index);
    assert forall|probe_index: usize|
        probe_index < PROBE_COUNT <==> #[trigger] order.contains(probe_index) by {
        if probe_index < 3 {
            assert(order[0] == probe_index || order[1] == probe_index || order[2] == probe_index);
        }
    }
    assert(rotation(trial_index + 1) =~= seq![order[1], order[2], order[0]]);
}

/// Whether the fact with a value is valid at an instant.
pub open spec fn visible(value: int, valid_at: i64) -> bool {
    if valid_at < TEMPORAL_BOUNDARY {
        value % 4 == 0 || value % 4 == 2
    } else if valid_at < TEMPORAL_AFTER {
        value % 4 != 2
    } else {
        value % 4 == 0 || value % 4 == 1
    }
}

/// How many of the first `facts` facts are valid at an instant.
pub open spec fn visible_count(facts: nat, valid_at: i64) -> nat
    decreases facts,
{
    if facts == 0 {
        0
    } else {
        visible_count((facts - 1) as nat, valid_at) + if visible(facts - 1, valid_at) {
            1nat
        } else {
            0nat
        }
    }
}

/// The sum of the values of those of the first `facts` facts that are valid at
/// an instant.
pub open spec fn visible_sum(facts: nat, valid_at: i64) -> nat
    decreases facts,
{
    if facts == 0 {
        0
    } else {
        visible_sum((facts - 1) as nat, valid_at) + if visible(facts - 1, valid_at) {
            (facts - 1) as nat
        } else {
            0nat
        }
    }
}

proof fn lemma_visible_within(facts: nat, valid_at: i64)
    ensures
        visible_count(facts, valid_at) <= facts,
        visible_sum(facts, valid_at) <= sum_below(facts),
    decreases facts,
{
    if facts > 0 {
        lemma_visible_within((facts - 1) as nat, valid_at);
    }
}

/// What an aggregate over the temporal fixture has to return at an instant.
pub fn expected_pair(facts: u64, valid_at: i64) -> (pair: (u64, i128))
    ensures
        pair.0 == visible_count(facts as nat, valid_at),
        pair.1 == visible_sum(facts as nat, valid_at),
{
    let mut count: u64 = 0;
    let mut checksum: i128 = 0;
    let mut value: u64 = 0;
    while value < facts
        invariant
            value <= facts,
            count == visible_count(value as nat, valid_at),
            checksum == visible_sum(value as nat, valid_at),
        decreases facts - value,
    {
        let rest: u64 = value % 4;
        let shown = if valid_at < TEMPORAL_BOUNDARY {
            rest == 0 || rest == 2
        } else if valid_at < TEMPORAL_AFTER {
            rest == 0 || rest == 1 || rest == 3
        } else {
            rest == 0 || rest == 1
        };
        proof {
            lemma_visible_within(value as nat, valid_at);
            crate::bench::aggregate::law_sum_closed_form(value as nat);
            assert(value * (value - 1) <= 0xFFFF_FFFF_FFFF_FFFFint * 0xFFFF_FFFF_FFFF_FFFEint)
                by (nonlinear_arith)
                requires
                    0 <= value <= 0xFFFF_FFFF_FFFF_FFFF,
            ;
        }
        if shown {
            count = count + 1;
            checksum = checksum + value as i128;
        }
        value = value + 1;
    }
    (count, checksum)
}

proof fn lemma_visible_count_step(facts: nat, valid_at: i64)
    ensures
        visible_count(facts + 1, valid_at) == visible_count(facts, valid_at) + if visible(
            facts as int,
            valid_at,
        ) {
            1nat
        } else {
            0nat
        },
{
}

/// The facts of the fixture come in fours, of which each instant shows the
/// same ones.
pub proof fn law_visible_count_of_fours(fours: nat, valid_at: i64)
    ensures
        visible_count(4 * fours, valid_at) == if TEMPORAL_BOUNDARY <= valid_at < TEMPORAL_AFTER {
            3 * fours
        } else {
            2 * fours
        },
    decreases fours,
{
    if fours > 0 {
        law_visible_count_of_fours((fours - 1) as nat, valid_at);
        let n = (4 * fours) as nat;
        assert((n - 4) as nat == 4 * (fours - 1) as nat);
        lemma_visible_count_step((n - 4) as nat, valid_at);
        lemma_visible_count_step((n - 3) as nat, valid_at);
        lemma_visible_count_step((n - 2) as nat, valid_at);
        lemma_visible_count_step((n - 1) as nat, valid_at);
        assert((n - 4) % 4 == 0 && (n - 3) % 4 == 1 && (n - 2) % 4 == 2 && (n - 1) % 4 == 3);
    }
}

/// Why a comparison was given up.
#[derive(Clone, Copy, Debug, PartialEq, Eq, Structural)]
pub enum TailError {
    /// An aggregate is wrong at an instant.
    AggregateMismatch { valid_at: i64 },
    /// The metadata is of another kind.
    FixtureSchema,
    /// The fixture has another size.
    FixtureFacts,
    /// The fixture is filled differently.
    FixtureFill,
    /// The metadata belongs to another graph.
    FixtureGraph,
    /// The fixture was built by other code.
    FixtureBuilder,
    /// The fixture was built from changed files.
    FixtureBuilderDirty,
    /// The number of facts does not fit a row count.
    TooManyFacts,
    /// The projection does not hold one row per fact.
    SourceRows,
    /// The two projections differ.
    ProjectionsDiffer,
    /// There are more or fewer trials than asked for.
    TrialCount,
    /// A trial is not in its place, or ran its probes in another order.
    TrialRotation,
    /// A trial has another number of rows or probes.
    TrialShape,
    /// A trial lacks a probe.
    TrialProbeMissing,
    /// A probe ran in another order, or at another instant.
    CandidateOrder,
    /// There are no trials to take the identity from.
    IdentityMissing,
    /// Not all trials saw the same projection.
    IdentityChanged,
    /// A trial lacks a probe that is summarized.
    ProbeSampleMissing,
}

impl TailError {
    /// The text reported for this error.
    pub open spec fn text(self) -> Seq<char> {
        match self {
            TailError::AggregateMismatch { valid_at } => "temporal aggregate mismatch at "@
                + signed_decimal(valid_at as int),
            TailError::FixtureSchema => "temporal fixture metadata schema mismatch"@,
            TailError::FixtureFacts => "temporal fixture fact count mismatch"@,
            TailError::FixtureFill => "temporal fixture fill percent mismatch"@,
            TailError::FixtureGraph => "temporal fixture graph identity mismatch"@,
            TailError::FixtureBuilder => "temporal fixture builder source mismatch"@,
            TailError::FixtureBuilderDirty => "full temporal fixture builder source must be clean"@,
            TailError::TooManyFacts => "out of range integral type conversion attempted"@,
            TailError::SourceRows => "source projection row count mismatch"@,
            TailError::ProjectionsDiffer => "source and decoded projections differ"@,
            TailError::TrialCount => "trial count mismatch"@,
            TailError::TrialRotation => "trial rotation mismatch"@,
            TailError::TrialShape => "trial shape mismatch"@,
            TailError::TrialProbeMissing => "trial probe missing"@,
            TailError::CandidateOrder => "candidate order mismatch"@,
            TailError::IdentityMissing => "projection identity missing"@,
            TailError::IdentityChanged => "projection identity changed across trials"@,
            TailError::ProbeSampleMissing => "probe sample missing"@,
        }
    }

    /// Render this error for a caller.
    pub fn message(&self) -> (text: String)
        ensures
            text@ == self.text(),
    {
        let fixed = match self {
            TailError::AggregateMismatch { valid_at } => {
                let mut out = String::new();
                out.append("temporal aggregate mismatch at ");
                push_signed(&mut out, *valid_at as i128);
                assert(out@ =~= self.text());
                return out;
            },
            TailError::FixtureSchema => "temporal fixture metadata schema mismatch",
            TailError::FixtureFacts => "temporal fixture fact count mismatch",
            TailError::FixtureFill => "temporal fixture fill percent mismatch",
            TailError::FixtureGraph => "temporal fixture graph identity mismatch",
            TailError::FixtureBuilder => "temporal fixture builder source mismatch",
            TailError::FixtureBuilderDirty => "full temporal fixture builder source must be clean",
            TailError::TooManyFacts => "out of range integral type conversion attempted",
            TailError::SourceRows => "source projection row count mismatch",
            TailError::ProjectionsDiffer => "source and decoded projections differ",
            TailError::TrialCount => "trial count mismatch",
            TailError::TrialRotation => "trial rotation mismatch",
            TailError::TrialShape => "trial shape mismatch",
            TailError::TrialProbeMissing => "trial probe missing",
            TailError::CandidateOrder => "candidate order mismatch",
            TailError::IdentityMissing => "projection identity missing",
            TailError::IdentityChanged => "projection identity changed across trials",
            TailError::ProbeSampleMissing => "probe sample missing",
        };
        fixed.to_owned()
    }
}

/// Accept an aggregate at an instant.
pub fn ensure_expected(facts: u64, valid_at: i64, actual: (u64, i128)) -> (result: Result<
    (),
    TailError,
>)
    ensures
        result == if actual.0 == visible_count(facts as nat, valid_at) && actual.1 == visible_sum(
            facts as nat,
            valid_at,
        ) {
            Ok::<(), TailError>(())
        } else {
            Err(TailError::AggregateMismatch { valid_at })
        },
{
    let expected = expected_pair(facts, valid_at);
    if actual.0 != expected.0 || actual.1 != expected.1 {
        return Err(TailError::AggregateMismatch { valid_at });
    }
    Ok(())
}

/// What is recorded of a fixture.
#[derive(Debug)]
pub struct FixtureReceipt {
    /// Kind of metadata.
    pub schema: String,
    /// Facts.
    pub facts: u64,
    /// How full its pages are, in percent.
    pub fill_percent: u8,
    /// Bytes of the graph file.
    pub bytes: u64,
    /// Digest of the graph file.
    pub sha256: String,
    /// Format version of the graph file.
    pub format_version: u32,
    /// Commit that built it.
    pub builder_source_commit: String,
    /// Whether the builder's files were unchanged.
    pub builder_tracked_clean: bool,
}

/// The error, if any, that a fixture's metadata gives.
pub open spec fn fixture_fault(
    fixture: FixtureReceipt,
    graph_bytes: u64,
    graph_sha256: Seq<char>,
    graph_format_version: u32,
    facts: u64,
    source_commit: Seq<char>,
    require_clean: bool,
) -> Option<TailError> {
    if fixture.schema@ != "vicia.temporal-projection-fixture.v1"@ {
        Some(TailError::FixtureSchema)
    } else if fixture.facts != facts {
        Some(TailError::FixtureFacts)
    } else if fixture.fill_percent != EXPECTED_FILL_PERCENT {
        Some(TailError::FixtureFill)
    } else if fixture.bytes != graph_bytes || fixture.sha256@ != graph_sha256
        || fixture.format_version != graph_format_version {
        Some(TailError::FixtureGraph)
    } else if fixture.builder_source_commit@ != source_commit {
        Some(TailError::FixtureBuilder)
    } else if require_clean && !fixture.builder_tracked_clean {
        Some(TailError::FixtureBuilderDirty)
    } else {
        None
    }
}

/// Accept the metadata of a fixture: it is bound to the graph, its fill and
/// the code that built it.
pub fn validate_fixture_metadata(
    fixture: &FixtureReceipt,
    graph_bytes: u64,
    graph_sha256: &str,
    graph_format_version: u32,
    facts: u64,
    source_commit: &str,
    require_clean: bool,
) -> (result: Result<(), TailError>)
    ensures
        result == match fixture_fault(
            *fixture,
            graph_bytes,
            graph_sha256@,
            graph_format_version,
            facts,
            source_commit@,
            require_clean,
        ) {
            Some(fault) => Err::<(), TailError>(fault),
            None => Ok(()),
        },
{
    if !same_text(fixture.schema.as_str(), "vicia.temporal-projection-fixture.v1") {
        return Err(TailError::FixtureSchema);
    }
    if fixture.facts != facts {
        return Err(TailError::FixtureFacts);
    }
    if fixture.fill_percent != EXPECTED_FILL_PERCENT {
        return Err(TailError::FixtureFill);
    }
    if fixture.bytes != graph_bytes || !same_text(fixture.sha256.as_str(), graph_sha256)
        || fixture.format_version != graph_format_version {
        return Err(TailError::FixtureGraph);
    }
    if !same_text(fixture.builder_source_commit.as_str(), source_commit) {
        return Err(TailError::FixtureBuilder);
    }
    if require_clean && !fixture.builder_tracked_clean {
        return Err(TailError::FixtureBuilderDirty);
    }
    Ok(())
}

/// What is known of a projection.
#[derive(Clone, Copy, Debug, PartialEq, Eq, Structural)]
pub struct ProjectionContent {
    /// Rows.
    pub rows: usize,
    /// Fingerprint of its content.
    pub fingerprint: u64,
}

/// Accept a freshly built projection and its decoded image: one row per fact,
/// and no difference between the two.
pub fn check_projections(
    facts: u64,
    source: ProjectionContent,
    decoded: ProjectionContent,
) -> (result: Result<(), TailError>)
    ensures
        result == if facts > usize::MAX {
            Err::<(), TailError>(TailError::TooManyFacts)
        } else if source.rows != facts {
            Err(TailError::SourceRows)
        } else if decoded != source {
            Err(TailError::ProjectionsDiffer)
        } else {
            Ok(())
        },
{
    if facts > usize::MAX as u64 {
        return Err(TailError::TooManyFacts);
    }
    if source.rows as u64 != facts {
        return Err(TailError::SourceRows);
    }
    if decoded.fingerprint != source.fingerprint || decoded.rows != source.rows {
        return Err(TailError::ProjectionsDiffer);
    }
    Ok(())
}

/// The identity of a projection image.
#[derive(Debug)]
pub struct ImageIdentity {
    /// Base generation of the ledger.
    pub base_generation: u64,
    /// Manifest generation of the ledger.
    pub manifest_generation: u64,
    /// Transactions of the ledger.
    pub tx_count: u64,
    /// Fingerprint of the content, in hexadecimal.
    pub fingerprint: String,
    /// Rows.
    pub row_count: u64,
    /// Bytes of the image, padded to whole pages.
    pub padded_bytes: u64,
}

/// Whether two identities are the same.
pub open spec fn same_identity(a: ImageIdentity, b: ImageIdentity) -> bool {
    &&& a.base_generation == b.base_generation
    &&& a.manifest_generation == b.manifest_generation
    &&& a.tx_count == b.tx_count
    &&& a.fingerprint@ == b.fingerprint@
    &&& a.row_count == b.row_count
    &&& a.padded_bytes == b.padded_bytes
}

/// Record the identity of a projection image. `ledger` is its base generation,
/// manifest generation and transaction count.
pub fn image_identity(ledger: (u64, u64, u64), source: ProjectionContent, padded_bytes: u64) -> (
    identity: ImageIdentity)
    ensures
        identity.base_generation == ledger.0,
        identity.manifest_generation == ledger.1,
        identity.tx_count == ledger.2,
        identity.fingerprint@ == hex_digits(source.fingerprint as nat, 16),
        identity.row_count == source.rows,
        identity.padded_bytes == padded_bytes,
{
    let fingerprint = fingerprint_text(source.fingerprint);
    ImageIdentity {
        base_generation: ledger.0,
        manifest_generation: ledger.1,
        tx_count: ledger.2,
        fingerprint,
        row_count: source.rows as u64,
        padded_bytes,
    }
}

fn identity_matches(a: &ImageIdentity, b: &ImageIdentity) -> (same: bool)
    ensures
        same == same_identity(*a, *b),
{
    a.base_generation == b.base_generation && a.manifest_generation == b.manifest_generation
        && a.tx_count == b.tx_count && a.fingerprint == b.fingerprint && a.row_count == b.row_count
        && a.padded_bytes == b.padded_bytes
}

/// One timed aggregate.
#[derive(Debug)]
pub struct TimedAggregate<T> {
    /// How long it took.
    pub elapsed: T,
    /// Facts counted.
    pub count: u64,
    /// Sum of their values.
    pub checksum: i128,
}

/// One probe of one trial.
#[derive(Debug)]
pub struct ProbeTrial<T> {
    /// Name of the probe.
    pub name: String,
    /// Instant that it looked at.
    pub valid_at: i64,
    /// Order in which the projections answered.
    pub order: Vec<CandidateKind>,
    /// Answer of the freshly built projection.
    pub source: TimedAggregate<T>,
    /// Answer of the decoded projection.
    pub decoded: TimedAggregate<T>,
}

/// One trial.
#[derive(Debug)]
pub struct Trial<T> {
    /// Its place.
    pub trial_index: usize,
    /// Names of its probes, in the order in which they ran.
    pub probe_order: Vec<String>,
    /// The projection that it measured.
    pub image: ImageIdentity,
    /// Its probes.
    pub probes: Vec<ProbeTrial<T>>,
}

/// Put the two answers to a probe, in the order in which they came, under
/// their projections. Each answer has to be right.
pub fn complete_probe<T>(
    facts: u64,
    trial_index: usize,
    probe_index: usize,
    first: TimedAggregate<T>,
    second: TimedAggregate<T>,
) -> (result: Result<ProbeTrial<T>, TailError>)
    requires
        probe_index < PROBE_COUNT,
    ensures
        ({
            let valid_at = probe_instant(probe_index as int);
            let right = |answer: TimedAggregate<T>|
                answer.count == visible_count(facts as nat, valid_at) && answer.checksum
                    == visible_sum(facts as nat, valid_at);
            match result {
                Ok(sample) => {
                    &&& right(first) && right(second)
                    &&& sample.name@ == probe_name(probe_index as int)
                    &&& sample.valid_at == valid_at
                    &&& sample.order@ == order_of(trial_index as int, probe_index as int)
                    &&& if order_of(trial_index as int, probe_index as int)[0]
                        == CandidateKind::Source {
                        sample.source == first && sample.decoded == second
                    } else {
                        sample.source == second && sample.decoded == first
                    }
                },
                Err(fault) => {
                    &&& !(right(first) && right(second))
                    &&& fault == (TailError::AggregateMismatch { valid_at })
                },
            }
        }),
{
    let chosen = probe(probe_index);
    if let Err(fault) = ensure_expected(facts, chosen.valid_at, (first.count, first.checksum)) {
        return Err(fault);
    }
    if let Err(fault) = ensure_expected(facts, chosen.valid_at, (second.count, second.checksum)) {
        return Err(fault);
    }
    let order = candidate_order(trial_index, probe_index);
    let mut listed: Vec<CandidateKind> = Vec::new();
    listed.push(order[0]);
    listed.push(order[1]);
    assert(listed@ =~= order_of(trial_index as int, probe_index as int));
    let (source, decoded) = if order[0] == CandidateKind::Source {
        (first, second)
    } else {
        (second, first)
    };
    Ok(
        ProbeTrial {
            name: chosen.name.to_owned(),
            valid_at: chosen.valid_at,
            order: listed,
            source,
            decoded,
        },
    )
}

/// The names of a list.
pub open spec fn names_of(list: Seq<String>) -> Seq<Seq<char>> {
    Seq::new(list.len(), |i: int| list[i]@)
}

/// The names of the probes of a trial, in the order in which they run.
pub open spec fn rotation_names(trial_index: int) -> Seq<Seq<char>> {
    Seq::new(3, |i: int| probe_name(rotation(trial_index)[i] as int))
}

/// List the names of the probes of a trial, in the order in which they run.
pub fn probe_order_names(trial_index: usize) -> (names: Vec<String>)
    ensures
        names_of(names@) == rotation_names(trial_index as int),
{
    let indices = rotated_probe_indices(trial_index);
    let mut names: Vec<String> = Vec::new();
    names.push(probe(indices[0]).name.to_owned());
    names.push(probe(indices[1]).name.to_owned());
    names.push(probe(indices[2]).name.to_owned());
    assert(names_of(names@) =~= rotation_names(trial_index as int));
    names
}

/// The place of the first probe with a name.
pub open spec fn probe_place<T>(probes: Seq<ProbeTrial<T>>, from: int, name: Seq<char>) -> Option<
    int,
>
    decreases probes.len() - from,
{
    if from >= probes.len() {
        None
    } else if probes[from].name@ == name {
        Some(from)
    } else {
        probe_place(probes, from + 1, name)
    }
}

fn find_probe<T>(probes: &Vec<ProbeTrial<T>>, name: &str) -> (place: Option<usize>)
    ensures
        match place {
            Some(place) => place < probes@.len() && probe_place(probes@, 0, name@) == Some(
                place as int,
            ),
            None => probe_place(probes@, 0, name@) is None,
        },
{
    let mut i: usize = 0;
    while i < probes.len()
        invariant
            i <= probes.len(),
            probe_place(probes@, 0, name@) == probe_place(probes@, i as int, name@),
        decreases probes.len() - i,
    {
        if same_text(probes[i].name.as_str(), name) {
            return Some(i);
        }
        i += 1;
    }
    None
}

/// The error, if any, that one probe of a trial gives.
pub open spec fn probe_fault<T>(
    probes: Seq<ProbeTrial<T>>,
    trial_index: int,
    probe_index: int,
) -> Option<TailError> {
    match probe_place(probes, 0, probe_name(probe_index)) {
        None => Some(TailError::TrialProbeMissing),
        Some(place) => if probes[place].valid_at != probe_instant(probe_index)
            || probes[place].order@ != order_of(trial_index, probe_index) {
            Some(TailError::CandidateOrder)
        } else {
            None
        },
    }
}

/// The error, if any, that one trial gives in its place.
pub open spec fn trial_fault<T>(trial: Trial<T>, trial_index: int, facts: u64) -> Option<TailError> {
    if trial.trial_index != trial_index || names_of(trial.probe_order@) != rotation_names(
        trial_index,
    ) {
        Some(TailError::TrialRotation)
    } else if trial.image.row_count != facts || trial.probes@.len() != PROBE_COUNT {
        Some(TailError::TrialShape)
    } else if probe_fault(trial.probes@, trial_index, 0) is Some {
        probe_fault(trial.probes@, trial_index, 0)
    } else if probe_fault(trial.probes@, trial_index, 1) is Some {
        probe_fault(trial.probes@, trial_index, 1)
    } else {
        probe_fault(trial.probes@, trial_index, 2)
    }
}

fn same_names(left: &Vec<String>, right: &Vec<String>) -> (same: bool)
    ensures
        same == (names_of(left@) == names_of(right@)),
{
    if left.len() != right.len() {
        assert(names_of(left@).len() != names_of(right@).len());
        return false;
    }
    let mut i: usize = 0;
    while i < left.len()
        invariant
            i <= left.len() == right.len(),
            forall|j: int| 0 <= j < i ==> (#[trigger] left@[j])@ == right@[j]@,
        decreases left.len() - i,
    {
        if !(left[i] == right[i]) {
            assert(names_of(left@)[i as int] != names_of(right@)[i as int]);
            return false;
        }
        i += 1;
    }
    assert(names_of(left@) =~= names_of(right@));
    true
}

fn check_probe<T>(probes: &Vec<ProbeTrial<T>>, trial_index: usize, probe_index: usize) -> (result:
    Result<(), TailError>)
    requires
        probe_index < PROBE_COUNT,
    ensures
        result == match probe_fault(probes@, trial_index as int, probe_index as int) {
            Some(fault) => Err::<(), TailError>(fault),
            None => Ok(()),
        },
{
    let wanted = probe(probe_index);
    let place: usize = match find_probe(probes, wanted.name) {
        Some(place) => place,
        None => return Err(TailError::TrialProbeMissing),
    };
    let sample = &probes[place];
    let order = candidate_order(trial_index, probe_index);
    if sample.valid_at != wanted.valid_at || sample.order.len() != 2 || sample.order[0] != order[0]
        || sample.order[1] != order[1] {
        assert(sample.valid_at != wanted.valid_at || !(sample.order@ =~= order@));
        return Err(TailError::CandidateOrder);
    }
    assert(sample.order@ =~= order@);
    Ok(())
}

fn check_trial<T>(trial: &Trial<T>, trial_index: usize, facts: u64) -> (result: Result<
    (),
    TailError,
>)
    ensures
        result == match trial_fault(*trial, trial_index as int, facts) {
            Some(fault) => Err::<(), TailError>(fault),
            None => Ok(()),
        },
{
    let names = probe_order_names(trial_index);
    if trial.trial_index != trial_index || !same_names(&trial.probe_order, &names) {
        return Err(TailError::TrialRotation);
    }
    if trial.image.row_count != facts || trial.probes.len() != PROBE_COUNT {
        return Err(TailError::TrialShape);
    }
    if let Err(fault) = check_probe(&trial.probes, trial_index, 0) {
        return Err(fault);
    }
    if let Err(fault) = check_probe(&trial.probes, trial_index, 1) {
        return Err(fault);
    }
    check_probe(&trial.probes, trial_index, 2)
}

/// Accept the trials of a comparison: all there, each in its place, with its
/// rotation and its orders. The first fault is reported.
pub fn validate_trial_set<T>(measurements: &Vec<Trial<T>>, trials: usize, facts: u64) -> (result:
    Result<(), TailError>)
    ensures
        match result {
            Ok(_) => measurements@.len() == trials && forall|i: int|
                0 <= i < trials ==> trial_fault(#[trigger] measurements@[i], i, facts) is None,
            Err(fault) => if measurements@.len() != trials {
                fault == TailError::TrialCount
            } else {
                exists|i: int|
                    0 <= i < trials && trial_fault(#[trigger] measurements@[i], i, facts) == Some(
                        fault,
                    ) && forall|j: int|
                        0 <= j < i ==> trial_fault(#[trigger] measurements@[j], j, facts) is None
            },
        },
{
    if measurements.len() != trials {
        return Err(TailError::TrialCount);
    }
    let mut i: usize = 0;
    while i < trials
        invariant
            i <= trials == measurements@.len(),
            forall|j: int|
                0 <= j < i ==> trial_fault(#[trigger] measurements@[j], j, facts) is None,
        decreases trials - i,
    {
        if let Err(fault) = check_trial(&measurements[i], i, facts) {
            assert(trial_fault(measurements@[i as int], i as int, facts) == Some(fault));
            return Err(fault);
        }
        i += 1;
    }
    Ok(())
}

/// Take the identity that all trials share.
pub fn common_identity<T>(measurements: &Vec<Trial<T>>) -> (result: Result<
    ImageIdentity,
    TailError,
>)
    ensures
        match result {
            Ok(identity) => {
                &&& measurements@.len() > 0
                &&& forall|i: int|
                    0 <= i < measurements@.len() ==> same_identity(
                        (#[trigger] measurements@[i]).image,
                        identity,
                    )
            },
            Err(TailError::IdentityMissing) => measurements@.len() == 0,
            Err(fault) => {
                &&& fault == TailError::IdentityChanged
                &&& exists|i: int|
                    0 < i < measurements@.len() && !same_identity(
                        (#[trigger] measurements@[i]).image,
                        measurements@[0].image,
                    )
            },
        },
{
    if measurements.len() == 0 {
        return Err(TailError::IdentityMissing);
    }
    let first = &measurements[0].image;
    let mut i: usize = 1;
    while i < measurements.len()
        invariant
            1 <= i <= measurements@.len(),
            *first == measurements@[0].image,
            forall|j: int|
                0 <= j < i ==> same_identity((#[trigger] measurements@[j]).image, *first),
        decreases measurements.len() - i,
    {
        if !identity_matches(&measurements[i].image, first) {
            assert(!same_identity(measurements@[i as int].image, measurements@[0].image));
            return Err(TailError::IdentityChanged);
        }
        i += 1;
    }
    Ok(
        ImageIdentity {
            base_generation: first.base_generation,
            manifest_generation: first.manifest_generation,
            tx_count: first.tx_count,
            fingerprint: first.fingerprint.clone(),
            row_count: first.row_count,
            padded_bytes: first.padded_bytes,
        },
    )
}

/// What is summarized of one probe over all trials.
#[derive(Debug)]
pub struct ProbeSeries<T> {
    /// Durations of the freshly built projection, trial by trial.
    pub source: Vec<T>,
    /// Durations of the decoded projection, trial by trial.
    pub decoded: Vec<T>,
    /// Whether every answer was right.
    pub exact: bool,
}

/// Whether both answers of a sample are right.
pub open spec fn sample_exact<T>(sample: ProbeTrial<T>, facts: u64, valid_at: i64) -> bool {
    &&& sample.source.count == visible_count(facts as nat, valid_at)
    &&& sample.source.checksum == visible_sum(facts as nat, valid_at)
    &&& sample.decoded.count == visible_count(facts as nat, valid_at)
    &&& sample.decoded.checksum == visible_sum(facts as nat, valid_at)
}

/// The sample of a probe in a trial.
pub open spec fn sample_of<T>(trial: Trial<T>, probe_index: int) -> Option<ProbeTrial<T>> {
    match probe_place(trial.probes@, 0, probe_name(probe_index)) {
        Some(place) => Some(trial.probes@[place]),
        None => None,
    }
}

/// Gather what is summarized of one probe. A trial that lacks it stops this.
pub fn probe_series<T: Copy>(measurements: &Vec<Trial<T>>, probe_index: usize, facts: u64) -> (
    result: Result<ProbeSeries<T>, TailError>)
    requires
        probe_index < PROBE_COUNT,
    ensures
        match result {
            Ok(series) => {
                &&& series.source@.len() == measurements@.len()
                &&& series.decoded@.len() == measurements@.len()
                &&& forall|i: int|
                    0 <= i < measurements@.len() ==> {
                        let sample = sample_of(#[trigger] measurements@[i], probe_index as int);
                        sample is Some && series.source@[i] == sample->0.source.elapsed
                            && series.decoded@[i] == sample->0.decoded.elapsed
                    }
                &&& series.exact <==> forall|i: int|
                    0 <= i < measurements@.len() ==> sample_exact(
                        sample_of(#[trigger] measurements@[i], probe_index as int)->0,
                        facts,
                        probe_instant(probe_index as int),
                    )
            },
            Err(fault) => fault == TailError::ProbeSampleMissing && exists|i: int|
                0 <= i < measurements@.len() && sample_of(
                    #[trigger] measurements@[i],
                    probe_index as int,
                ) is None,
        },
{
    let wanted = probe(probe_index);
    let expected = expected_pair(facts, wanted.valid_at);
    let mut source: Vec<T> = Vec::new();
    let mut decoded: Vec<T> = Vec::new();
    let mut exact = true;
    let mut i: usize = 0;
    while i < measurements.len()
        invariant
            i <= measurements@.len(),
            source@.len() == i,
            decoded@.len() == i,
            probe_index < PROBE_COUNT,
            wanted.name@ == probe_name(probe_index as int),
            expected.0 == visible_count(facts as nat, probe_instant(probe_index as int)),
            expected.1 == visible_sum(facts as nat, probe_instant(probe_index as int)),
            forall|j: int|
                0 <= j < i ==> {
                    let sample = sample_of(#[trigger] measurements@[j], probe_index as int);
                    sample is Some && source@[j] == sample->0.source.elapsed && decoded@[j]
                        == sample->0.decoded.elapsed
                },
            exact <==> forall|j: int|
                0 <= j < i ==> sample_exact(
                    sample_of(#[trigger] measurements@[j], probe_index as int)->0,
                    facts,
                    probe_instant(probe_index as int),
                ),
        decreases measurements.len() - i,
    {
        let trial = &measurements[i];
        let place: usize = match find_probe(&trial.probes, wanted.name) {
            Some(place) => place,
            None => {
                assert(sample_of(measurements@[i as int], probe_index as int) is None);
                return Err(TailError::ProbeSampleMissing);
            },
        };
        let sample = &trial.probes[place];
        assert(sample_of(measurements@[i as int], probe_index as int) == Some(*sample));
        let right = sample.source.count == expected.0 && sample.source.checksum == expected.1
            && sample.decoded.count == expected.0 && sample.decoded.checksum == expected.1;
        assert(right == sample_exact(*sample, facts, probe_instant(probe_index as int)));
        exact = exact && right;
        source.push(sample.source.elapsed);
        decoded.push(sample.decoded.elapsed);
        i += 1;
    }
    Ok(ProbeSeries { source, decoded, exact })
}

/// The gates of one probe.
#[derive(Clone, Copy, Debug, PartialEq, Eq, Structural)]
pub struct ProbeGates {
    /// Every answer was right.
    pub exact: bool,
    /// The decoded projection is fast enough.
    pub decoded_latency: bool,
    /// Its tail is close to its middle.
    pub decoded_tail: bool,
    /// Its middle is close to the freshly built one's.
    pub decoded_p50_relative: bool,
    /// Its tail is close to the freshly built one's.
    pub decoded_p95_relative: bool,
    /// All of these hold.
    pub admitted: bool,
}

/// Judge one probe. `latency` is the judgement on the durations: fast enough,
/// tail close to the middle, middle and tail close to the freshly built one's.
pub fn probe_gates(exact: bool, latency: (bool, bool, bool, bool)) -> (gates: ProbeGates)
    ensures
        gates == (ProbeGates {
            exact,
            decoded_latency: latency.0,
            decoded_tail: latency.1,
            decoded_p50_relative: latency.2,
            decoded_p95_relative: latency.3,
            admitted: exact && latency.0 && latency.1 && latency.2 && latency.3,
        }),
{
    let (decoded_latency, decoded_tail, decoded_p50_relative, decoded_p95_relative) = latency;
    ProbeGates {
        exact,
        decoded_latency,
        decoded_tail,
        decoded_p50_relative,
        decoded_p95_relative,
        admitted: exact && decoded_latency && decoded_tail && decoded_p50_relative
            && decoded_p95_relative,
    }
}

/// Whether a comparison admits the decoded projection: it is eligible and
/// every probe does.
pub fn admitted(eligible: bool, gates: &Vec<ProbeGates>) -> (yes: bool)
    ensures
        yes == (eligible && forall|i: int| 0 <= i < gates@.len() ==> (#[trigger] gates@[i]).admitted),
{
    if !eligible {
        return false;
    }
    let mut i: usize = 0;
    while i < gates.len()
        invariant
            i <= gates.len(),
            forall|j: int| 0 <= j < i ==> (#[trigger] gates@[j]).admitted,
        decreases gates.len() - i,
    {
        if !gates[i].admitted {
            assert(!gates@[i as int].admitted);
            return false;
        }
        i += 1;
    }
    true
}

} // verus!
