//! Whether pending facts of other attributes disturb an aggregate.

use crate::bench::aggregate::{expected_checksum, sum_below};
use crate::bench::aggregate_retention::breakdown_growth;
use crate::bench::fixture::{isolation_command, numbered_command};
use crate::bench::process_memory::{above, MemoryBreakdown};
use crate::bench::profile::Profile;
use crate::bench::scan::same_text;
use crate::text::{decimal, push_decimal, push_signed, signed_decimal};
use vstd::prelude::*;
use vstd::string::*;

verus! {

/// Facts of the committed base.
pub const BASE_FACTS: u64 = 1_000_000;

/// Pending facts of the control, which do belong to the aggregate.
pub const SELECTED_CONTROL_FACTS: u64 = 10_000;

/// Growth of resident memory that counts as none.
pub const RSS_DELTA_TOLERANCE_BYTES: u64 = 2_097_152;

/// What the pending facts of a variant belong to.
#[derive(Clone, Copy, Debug, PartialEq, Eq, Structural)]
pub enum PendingKind {
    /// Another attribute.
    Unrelated,
    /// The attribute that is aggregated.
    SelectedControl,
}

/// A text that names no kind of pending facts.
#[derive(Clone, Copy, Debug, PartialEq, Eq, Structural)]
pub struct InvalidPendingKind;

impl InvalidPendingKind {
    /// Render this error for a caller.
    pub fn message(&self) -> (text: &'static str)
        ensures
            text@ == "pending kind must be unrelated or selected-control"@,
    {
        "pending kind must be unrelated or selected-control"
    }
}

/// The name of a kind.
pub open spec fn kind_name(kind: PendingKind) -> Seq<char> {
    match kind {
        PendingKind::Unrelated => "unrelated"@,
        PendingKind::SelectedControl => "selected-control"@,
    }
}

/// The kind that a text names.
pub open spec fn named_kind(text: Seq<char>) -> Result<PendingKind, InvalidPendingKind> {
    if text == "unrelated"@ {
        Ok(PendingKind::Unrelated)
    } else if text == "selected-control"@ {
        Ok(PendingKind::SelectedControl)
    } else {
        Err(InvalidPendingKind)
    }
}

/// The label of a variant.
pub open spec fn variant_label(kind: PendingKind, count: u64) -> Seq<char> {
    match kind {
        PendingKind::Unrelated => "unrelated-"@ + decimal(count as nat),
        PendingKind::SelectedControl => "selected-control-"@ + decimal(count as nat),
    }
}

/// The attribute that facts of a kind have.
pub open spec fn kind_attribute(kind: PendingKind) -> Seq<char> {
    match kind {
        PendingKind::Unrelated => ":bench/unrelated"@,
        PendingKind::SelectedControl => ":bench/selected"@,
    }
}

impl PendingKind {
    /// Read a kind off its name.
    pub fn parse(value: &str) -> (result: Result<PendingKind, InvalidPendingKind>)
        ensures
            result == named_kind(value@),
    {
        if same_text(value, "unrelated") {
            Ok(PendingKind::Unrelated)
        } else if same_text(value, "selected-control") {
            Ok(PendingKind::SelectedControl)
        } else {
            Err(InvalidPendingKind)
        }
    }

    /// The name of this kind.
    pub fn cli_name(self) -> (name: &'static str)
        ensures
            name@ == kind_name(self),
    {
        match self {
            PendingKind::Unrelated => "unrelated",
            PendingKind::SelectedControl => "selected-control",
        }
    }

    /// The label of a variant with so many pending facts of this kind.
    pub fn label(self, count: u64) -> (label: String)
        ensures
            label@ == variant_label(self, count),
    {
        let mut out = String::new();
        match self {
            PendingKind::Unrelated => out.append("unrelated-"),
            PendingKind::SelectedControl => out.append("selected-control-"),
        }
        push_decimal(&mut out, count);
        assert(out@ =~= variant_label(self, count));
        out
    }

    /// The attribute that facts of this kind have.
    pub fn attribute(self) -> (attribute: &'static str)
        ensures
            attribute@ == kind_attribute(self),
    {
        match self {
            PendingKind::Unrelated => ":bench/unrelated",
            PendingKind::SelectedControl => ":bench/selected",
        }
    }
}

/// Reading the name of a kind gives the kind back.
pub proof fn law_kind_name_parses(kind: PendingKind)
    ensures
        named_kind(kind_name(kind)) == Ok::<PendingKind, InvalidPendingKind>(kind),
{
    reveal_strlit("unrelated");
    reveal_strlit("selected-control");
    assert("unrelated"@.len() != "selected-control"@.len());
}

/// Write the command for one batch of facts of a kind.
pub fn batch_command(kind: PendingKind, namespace: &str, start: u64, end: u64) -> (command: String)
    ensures
        command@ == numbered_command(
            "[:iso/"@ + namespace@,
            " "@ + kind_attribute(kind) + " "@,
            start,
            end,
        ),
{
    isolation_command(namespace, kind.attribute(), start, end)
}

/// The variants of a run: the unrelated ones, then the control.
pub open spec fn variants_of(profile: Profile) -> Seq<(PendingKind, u64)> {
    match profile {
        Profile::Smoke => seq![
            (PendingKind::Unrelated, 0u64),
            (PendingKind::Unrelated, 100u64),
            (PendingKind::Unrelated, 1_000u64),
            (PendingKind::Unrelated, 10_000u64),
            (PendingKind::SelectedControl, SELECTED_CONTROL_FACTS),
        ],
        Profile::Full => seq![
            (PendingKind::Unrelated, 0u64),
            (PendingKind::Unrelated, 10_000u64),
            (PendingKind::Unrelated, 100_000u64),
            (PendingKind::Unrelated, 1_000_000u64),
            (PendingKind::SelectedControl, SELECTED_CONTROL_FACTS),
        ],
    }
}

/// List the variants of a run.
pub fn variant_specs(profile: Profile) -> (variants: Vec<(PendingKind, u64)>)
    ensures
        variants@ == variants_of(profile),
{
    let counts = profile.unrelated_counts();
    let mut variants: Vec<(PendingKind, u64)> = Vec::new();
    variants.push((PendingKind::Unrelated, counts[0]));
    variants.push((PendingKind::Unrelated, counts[1]));
    variants.push((PendingKind::Unrelated, counts[2]));
    variants.push((PendingKind::Unrelated, counts[3]));
    variants.push((PendingKind::SelectedControl, SELECTED_CONTROL_FACTS));
    assert(variants@ =~= variants_of(profile));
    variants
}

/// Whether a variant has anything pending to prepare.
pub fn needs_preparation(pending_facts: u64) -> (needed: bool)
    ensures
        needed == (pending_facts > 0),
{
    pending_facts > 0
}

/// The sum of the values of facts that are numbered from zero.
pub fn arithmetic_sum(facts: u64) -> (sum: i128)
    requires
        facts * (facts - 1) <= i128::MAX,
    ensures
        sum == sum_below(facts as nat),
{
    expected_checksum(facts)
}

/// What the aggregate of a variant has to return.
pub open spec fn expected_of(kind: PendingKind, pending_facts: u64) -> (u64, i128) {
    match kind {
        PendingKind::Unrelated => (BASE_FACTS, sum_below(BASE_FACTS as nat) as i128),
        PendingKind::SelectedControl => (
            BASE_FACTS.saturating_add(pending_facts),
            (sum_below(BASE_FACTS as nat) + sum_below(pending_facts as nat)) as i128,
        ),
    }
}

/// What the aggregate of a variant has to return: unrelated facts leave it
/// alone, those of the control add to it.
pub fn expected(kind: PendingKind, pending_facts: u64) -> (pair: (u64, i128))
    requires
        pending_facts * (pending_facts - 1) <= i128::MAX,
    ensures
        pair == expected_of(kind, pending_facts),
        pair.1 == sum_below(BASE_FACTS as nat) + match kind {
            PendingKind::Unrelated => 0nat,
            PendingKind::SelectedControl => sum_below(pending_facts as nat),
        },
{
    proof {
        crate::bench::aggregate::law_sum_closed_form(BASE_FACTS as nat);
        crate::bench::aggregate::law_sum_closed_form(pending_facts as nat);
        assert(1_000_000int * 999_999int == 999_999_000_000int);
    }
    match kind {
        PendingKind::Unrelated => (BASE_FACTS, arithmetic_sum(BASE_FACTS)),
        PendingKind::SelectedControl => (
            BASE_FACTS.saturating_add(pending_facts),
            arithmetic_sum(BASE_FACTS) + arithmetic_sum(pending_facts),
        ),
    }
}

/// However many unrelated facts are pending, the aggregate has to stay what it
/// is without any.
pub proof fn law_unrelated_facts_leave_aggregate_alone(pending_facts: u64)
    ensures
        expected_of(PendingKind::Unrelated, pending_facts) == expected_of(
            PendingKind::Unrelated,
            0,
        ),
{
}

/// Why an isolation run was given up.
#[derive(Debug)]
pub enum IsolationError {
    /// A variant's aggregate is wrong.
    Mismatch {
        /// Label of the variant.
        label: String,
        /// What came back.
        found: (u64, i128),
        /// What had to come back.
        wanted: (u64, i128),
    },
    /// The aggregate changed from one repetition to the next.
    Unstable,
    /// The base still has a write-ahead log.
    BaseLeftLog,
    /// The prepared variant has no write-ahead log.
    PreparationLeftNoLog,
}

impl IsolationError {
    /// The text reported for this error.
    pub open spec fn text(self) -> Seq<char> {
        match self {
            IsolationError::Mismatch { label, found, wanted } => label@
                + ": correctness mismatch: count "@ + decimal(found.0 as nat) + "/"@ + decimal(
                wanted.0 as nat,
            ) + ", checksum "@ + signed_decimal(found.1 as int) + "/"@ + signed_decimal(
                wanted.1 as int,
            ),
            IsolationError::Unstable => "aggregate correctness changed between repetitions"@,
            IsolationError::BaseLeftLog => "base checkpoint left a WAL sidecar"@,
            IsolationError::PreparationLeftNoLog =>
                "pending preparation did not leave a WAL sidecar"@,
        }
    }

    /// Render this error for a caller.
    pub fn message(&self) -> (text: String)
        ensures
            text@ == self.text(),
    {
        let mut out = String::new();
        match self {
            IsolationError::Mismatch { label, found, wanted } => {
                out.append(label.as_str());
                out.append(": correctness mismatch: count ");
                push_decimal(&mut out, found.0);
                out.append("/");
                push_decimal(&mut out, wanted.0);
                out.append(", checksum ");
                push_signed(&mut out, found.1);
                out.append("/");
                push_signed(&mut out, wanted.1);
            },
            IsolationError::Unstable => out.append(
                "aggregate correctness changed between repetitions",
            ),
            IsolationError::BaseLeftLog => out.append("base checkpoint left a WAL sidecar"),
            IsolationError::PreparationLeftNoLog => out.append(
                "pending preparation did not leave a WAL sidecar",
            ),
        }
        assert(out@ =~= self.text());
        out
    }
}

/// Accept the aggregate of a variant.
pub fn check_variant(kind: PendingKind, pending_facts: u64, found: (u64, i128)) -> (result: Result<
    (),
    IsolationError,
>)
    requires
        pending_facts * (pending_facts - 1) <= i128::MAX,
    ensures
        match result {
            Ok(_) => found == expected_of(kind, pending_facts),
            Err(IsolationError::Mismatch { label, found: seen, wanted }) => {
                &&& found != expected_of(kind, pending_facts)
                &&& label@ == variant_label(kind, pending_facts)
                &&& seen == found
                &&& wanted == expected_of(kind, pending_facts)
            },
            Err(_) => false,
        },
{
    let wanted = expected(kind, pending_facts);
    if found.0 != wanted.0 || found.1 != wanted.1 {
        return Err(IsolationError::Mismatch { label: kind.label(pending_facts), found, wanted });
    }
    Ok(())
}

/// Accept the aggregate of a repetition: it has to be the one of the warm-up.
pub fn check_repetition(warmup: (u64, i128), pair: (u64, i128)) -> (result: Result<
    (),
    IsolationError,
>)
    ensures
        result is Ok <==> pair == warmup,
        result is Err ==> result->Err_0 is Unstable,
{
    if pair.0 != warmup.0 || pair.1 != warmup.1 {
        return Err(IsolationError::Unstable);
    }
    Ok(())
}

/// Accept a checkpointed base: nothing is left in a log.
pub fn check_base_log(log_exists: bool) -> (result: Result<(), IsolationError>)
    ensures
        result is Ok <==> !log_exists,
        result is Err ==> result->Err_0 is BaseLeftLog,
{
    if log_exists {
        return Err(IsolationError::BaseLeftLog);
    }
    Ok(())
}

/// Accept a prepared variant: what is pending is in a log.
pub fn check_prepared_log(log_exists: bool) -> (result: Result<(), IsolationError>)
    ensures
        result is Ok <==> log_exists,
        result is Err ==> result->Err_0 is PreparationLeftNoLog,
{
    if !log_exists {
        return Err(IsolationError::PreparationLeftNoLog);
    }
    Ok(())
}

/// Find the highest resident memory of a workload, its warm-up included.
pub fn workload_peak(warmup: u64, samples: &Vec<u64>) -> (peak: u64)
    ensures
        peak >= warmup,
        forall|i: int| 0 <= i < samples@.len() ==> peak >= #[trigger] samples@[i],
        peak == warmup || samples@.contains(peak),
{
    let mut peak: u64 = warmup;
    let mut i: usize = 0;
    while i < samples.len()
        invariant
            i <= samples.len(),
            peak >= warmup,
            forall|j: int| 0 <= j < i ==> peak >= #[trigger] samples@[j],
            peak == warmup || samples@.contains(peak),
        decreases samples.len() - i,
    {
        if samples[i] > peak {
            peak = samples[i];
            assert(samples@[i as int] == peak);
        }
        i += 1;
    }
    peak
}

/// The memory of a measured variant.
#[derive(Clone, Copy, Debug, PartialEq, Eq, Structural)]
pub struct VariantMemory {
    /// Highest resident memory of the workload.
    pub workload_peak_rss_bytes: u64,
    /// How far that lies above the start.
    pub workload_delta_rss_bytes: u64,
    /// Peak of the process, the opening included.
    pub process_peak_rss_bytes: u64,
    /// Resident at the end.
    pub retained_rss_bytes: u64,
    /// How far that lies above the start.
    pub retained_delta_rss_bytes: u64,
    /// Growth by owner.
    pub retained_delta_breakdown: MemoryBreakdown,
}

/// Derive the memory of a measured variant. `baseline` and `retained` are the
/// resident memory after opening and at the end, in all and by owner.
pub fn variant_memory(
    baseline: (u64, MemoryBreakdown),
    retained: (u64, MemoryBreakdown),
    workload_peak: u64,
    process_peak: u64,
) -> (memory: VariantMemory)
    ensures
        memory == (VariantMemory {
            workload_peak_rss_bytes: workload_peak,
            workload_delta_rss_bytes: above(workload_peak, baseline.0),
            process_peak_rss_bytes: process_peak,
            retained_rss_bytes: retained.0,
            retained_delta_rss_bytes: above(retained.0, baseline.0),
            retained_delta_breakdown: breakdown_growth(retained.1, baseline.1),
        }),
{
    VariantMemory {
        workload_peak_rss_bytes: workload_peak,
        workload_delta_rss_bytes: workload_peak.saturating_sub(baseline.0),
        process_peak_rss_bytes: process_peak,
        retained_rss_bytes: retained.0,
        retained_delta_rss_bytes: retained.0.saturating_sub(baseline.0),
        retained_delta_breakdown: retained.1.saturating_sub(baseline.1),
    }
}

} // verus!
