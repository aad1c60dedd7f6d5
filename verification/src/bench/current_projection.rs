//! Feasibility of materialized current attributes: the commands that are run,
//! the aggregates they have to give, and the semantics they have to show.

use crate::bench::aggregate::{expected_checksum, sum_below};
use crate::entity::{entity_text, render_entity_id};
use crate::text::{decimal, push_decimal};
use vstd::prelude::*;
use vstd::string::*;

verus! {

/// The instant at which semantics are checked: the start of 2025.
pub const VALID_AT_2025: i64 = 1_735_689_600_000;

/// The aggregates that are compared.
#[derive(Clone, Copy, Debug, PartialEq, Eq, Structural)]
pub enum AggregateStage {
    /// Over the ledger.
    Baseline,
    /// Over the projection.
    Projected,
}

/// Why a feasibility measurement was given up.
#[derive(Clone, Copy, Debug, PartialEq, Eq, Structural)]
pub enum ProjectionError {
    /// The ledger's aggregate is wrong.
    BaselineMismatch,
    /// The projection's aggregate is wrong.
    ProjectedMismatch,
    /// The number of facts does not fit an integer value.
    TooManyFacts,
    /// The aggregate after one more fact is wrong.
    IncrementalMismatch,
    /// A checkpoint alone changed what the projection holds.
    CheckpointChangedContent,
}

impl ProjectionError {
    /// Render this error for a caller.
    pub fn message(&self) -> (text: &'static str)
        ensures
            text@ == match *self {
                ProjectionError::BaselineMismatch => "baseline aggregate mismatch"@,
                ProjectionError::ProjectedMismatch => "projected aggregate mismatch"@,
                ProjectionError::TooManyFacts => "out of range integral type conversion attempted"@,
                ProjectionError::IncrementalMismatch => "incremental aggregate mismatch"@,
                ProjectionError::CheckpointChangedContent =>
                    "checkpoint-only refresh changed projection content"@,
            },
    {
        match self {
            ProjectionError::BaselineMismatch => "baseline aggregate mismatch",
            ProjectionError::ProjectedMismatch => "projected aggregate mismatch",
            ProjectionError::TooManyFacts => "out of range integral type conversion attempted",
            ProjectionError::IncrementalMismatch => "incremental aggregate mismatch",
            ProjectionError::CheckpointChangedContent =>
                "checkpoint-only refresh changed projection content",
        }
    }
}

/// Accept an aggregate over the untouched graph.
pub fn check_stage(stage: AggregateStage, facts: u64, pair: (u64, i128)) -> (result: Result<
    (),
    ProjectionError,
>)
    requires
        facts * (facts - 1) <= i128::MAX,
    ensures
        result == if pair.0 == facts && pair.1 == sum_below(facts as nat) {
            Ok::<(), ProjectionError>(())
        } else {
            match stage {
                AggregateStage::Baseline => Err(ProjectionError::BaselineMismatch),
                AggregateStage::Projected => Err(ProjectionError::ProjectedMismatch),
            }
        },
{
    if pair.0 != facts || pair.1 != expected_checksum(facts) {
        return match stage {
            AggregateStage::Baseline => Err(ProjectionError::BaselineMismatch),
            AggregateStage::Projected => Err(ProjectionError::ProjectedMismatch),
        };
    }
    Ok(())
}

/// A command that asserts one projection value for a valid-time window.
pub open spec fn window_command(
    from: Seq<char>,
    to: Seq<char>,
    entity: u128,
    value: Seq<char>,
) -> Seq<char> {
    "(transact {:valid-from \""@ + from + "\" :valid-to \""@ + to + "\"} [[#uuid \""@
        + entity_text(entity) + "\" :projection/value "@ + value + "]])"@
}

fn write_window(from: &str, to: &str, entity: u128, value: &str) -> (command: String)
    ensures
        command@ == window_command(from@, to@, entity, value@),
{
    let mut command = String::new();
    command.append("(transact {:valid-from \"");
    command.append(from);
    command.append("\" :valid-to \"");
    command.append(to);
    command.append("\"} [[#uuid \"");
    command.append(render_entity_id(entity).as_str());
    command.append("\" :projection/value ");
    command.append(value);
    command.append("]])");
    assert(command@ =~= window_command(from@, to@, entity, value@));
    command
}

/// The fact that is added to a measured graph: the next number, for the next
/// entity, valid throughout the century.
#[derive(Debug)]
pub struct AddedFact {
    /// The value.
    pub value: i64,
    /// The command that writes it.
    pub command: String,
    /// Facts afterwards.
    pub count: u64,
    /// Sum afterwards.
    pub checksum: i128,
}

/// Plan the fact that is added to a measured graph.
pub fn added_fact(facts: u64) -> (result: Result<AddedFact, ProjectionError>)
    requires
        facts * (facts - 1) <= i128::MAX,
    ensures
        match result {
            Ok(added) => {
                &&& facts <= i64::MAX
                &&& added.value == facts
                &&& added.command@ == window_command(
                    "2000-01-01"@,
                    "2100-01-01"@,
                    (facts + 1) as u128,
                    decimal(facts as nat),
                )
                &&& added.count == facts + 1
                &&& added.checksum == sum_below(facts as nat) + facts
            },
            Err(error) => facts > i64::MAX && error == ProjectionError::TooManyFacts,
        },
{
    if facts > 0x7FFF_FFFF_FFFF_FFFF {
        return Err(ProjectionError::TooManyFacts);
    }
    let entity: u128 = facts as u128 + 1;
    let mut value = String::new();
    push_decimal(&mut value, facts);
    assert(value@ =~= decimal(facts as nat));
    proof {
        crate::bench::aggregate::law_sum_closed_form(facts as nat);
        assert(facts * (facts - 1) <= facts * facts && facts * facts <= 0x7FFF_FFFF_FFFF_FFFFint
            * 0x7FFF_FFFF_FFFF_FFFFint) by (nonlinear_arith)
            requires
                0 <= facts <= 0x7FFF_FFFF_FFFF_FFFF,
        ;
    }
    Ok(
        AddedFact {
            value: facts as i64,
            command: write_window("2000-01-01", "2100-01-01", entity, value.as_str()),
            count: facts + 1,
            checksum: expected_checksum(facts) + facts as i128,
        },
    )
}

/// A graph with one fact more holds what a graph of that size holds.
pub proof fn law_added_fact_extends_graph(facts: u64)
    ensures
        sum_below(facts as nat) + facts == sum_below((facts + 1) as nat),
{
}

/// Accept the aggregate after the added fact.
pub fn check_incremental(added: &AddedFact, pair: (u64, i128)) -> (result: Result<
    (),
    ProjectionError,
>)
    ensures
        result == if pair.0 == added.count && pair.1 == added.checksum {
            Ok::<(), ProjectionError>(())
        } else {
            Err(ProjectionError::IncrementalMismatch)
        },
{
    if pair.0 != added.count || pair.1 != added.checksum {
        return Err(ProjectionError::IncrementalMismatch);
    }
    Ok(())
}

/// Whether a rebuilt projection is the refreshed one: same fingerprint, same
/// aggregate.
pub fn rebuild_is_deterministic(
    refreshed: (u64, (u64, i128)),
    rebuilt: (u64, (u64, i128)),
) -> (same: bool)
    ensures
        same == (refreshed == rebuilt),
{
    refreshed.0 == rebuilt.0 && (refreshed.1).0 == (rebuilt.1).0 && (refreshed.1).1 == (rebuilt.1).1
}

/// Accept a refresh after a checkpoint that left the fingerprint alone.
pub fn check_checkpoint_refresh(before: u64, after: u64) -> (result: Result<(), ProjectionError>)
    ensures
        result == if before == after {
            Ok::<(), ProjectionError>(())
        } else {
            Err(ProjectionError::CheckpointChangedContent)
        },
{
    if before != after {
        return Err(ProjectionError::CheckpointChangedContent);
    }
    Ok(())
}

/// The commands of the semantics check, in the order in which they run.
#[derive(Clone, Copy, Debug, PartialEq, Eq, Structural)]
pub enum SemanticStep {
    /// One fact of every type.
    EveryType,
    /// The first of two overlapping windows.
    FirstWindow,
    /// The second one.
    SecondWindow,
    /// One more fact.
    Assertion,
    /// A retraction of one window.
    ScopedRetraction,
    /// A retraction of all windows.
    UnscopedRetraction,
    /// A fact that is not valid at the checked instant.
    OutsideWindow,
}

/// One fact of the first command.
pub open spec fn typed_row(entity: u128, value: Seq<char>) -> Seq<char> {
    "[#uuid \""@ + entity_text(entity) + "\" :projection/value "@ + value + "]"@
}

/// The first command: one fact of every type.
pub open spec fn every_type_command() -> Seq<char> {
    "(transact {:valid-from \"2020-01-01\" :valid-to \"2030-01-01\"} ["@ + typed_row(
        1,
        "\"vetch\""@,
    ) + typed_row(2, "42"@) + typed_row(3, "12.5"@) + typed_row(4, "true"@) + typed_row(
        5,
        "#uuid \""@ + entity_text(10) + "\""@,
    ) + typed_row(6, ":state/ready"@) + typed_row(7, "nil"@) + "])"@
}

/// The command of a step.
pub open spec fn step_command(step: SemanticStep) -> Seq<char> {
    match step {
        SemanticStep::EveryType => every_type_command(),
        SemanticStep::FirstWindow => window_command(
            "2020-01-01"@,
            "2027-01-01"@,
            9,
            ":state/overlap"@,
        ),
        SemanticStep::SecondWindow => window_command(
            "2024-01-01"@,
            "2030-01-01"@,
            9,
            ":state/overlap"@,
        ),
        SemanticStep::Assertion => window_command("2020-01-01"@, "2030-01-01"@, 8, "99"@),
        SemanticStep::ScopedRetraction => "(retract [[#uuid \""@ + entity_text(2)
            + "\" :projection/value 42 {:valid-from \"2020-01-01\" :valid-to \"2030-01-01\"}]])"@,
        SemanticStep::UnscopedRetraction => "(retract [[#uuid \""@ + entity_text(1)
            + "\" :projection/value \"vetch\"]])"@,
        SemanticStep::OutsideWindow => window_command("2031-01-01"@, "2040-01-01"@, 9, "false"@),
    }
}

fn push_typed_row(out: &mut String, entity: u128, value: &str)
    ensures
        final(out)@ == old(out)@ + typed_row(entity, value@),
{
    out.append("[#uuid \"");
    out.append(render_entity_id(entity).as_str());
    out.append("\" :projection/value ");
    out.append(value);
    out.append("]");
    assert(out@ =~= old(out)@ + typed_row(entity, value@));
}

/// Write the command of a step.
pub fn semantic_command(step: SemanticStep) -> (command: String)
    ensures
        command@ == step_command(step),
{
    match step {
        SemanticStep::EveryType => {
            let mut reference = String::new();
            reference.append("#uuid \"");
            reference.append(render_entity_id(10).as_str());
            reference.append("\"");
            assert(reference@ =~= "#uuid \""@ + entity_text(10) + "\""@);
            let mut out = String::new();
            out.append("(transact {:valid-from \"2020-01-01\" :valid-to \"2030-01-01\"} [");
            push_typed_row(&mut out, 1, "\"vetch\"");
            push_typed_row(&mut out, 2, "42");
            push_typed_row(&mut out, 3, "12.5");
            push_typed_row(&mut out, 4, "true");
            push_typed_row(&mut out, 5, reference.as_str());
            push_typed_row(&mut out, 6, ":state/ready");
            push_typed_row(&mut out, 7, "nil");
            out.append("])");
            assert(out@ =~= every_type_command());
            out
        },
        SemanticStep::FirstWindow => write_window("2020-01-01", "2027-01-01", 9, ":state/overlap"),
        SemanticStep::SecondWindow => write_window("2024-01-01", "2030-01-01", 9, ":state/overlap"),
        SemanticStep::Assertion => write_window("2020-01-01", "2030-01-01", 8, "99"),
        SemanticStep::ScopedRetraction => {
            let mut out = String::new();
            out.append("(retract [[#uuid \"");
            out.append(render_entity_id(2).as_str());
            out.append(
                "\" :projection/value 42 {:valid-from \"2020-01-01\" :valid-to \"2030-01-01\"}]])",
            );
            assert(out@ =~= step_command(step));
            out
        },
        SemanticStep::UnscopedRetraction => {
            let mut out = String::new();
            out.append("(retract [[#uuid \"");
            out.append(render_entity_id(1).as_str());
            out.append("\" :projection/value \"vetch\"]])");
            assert(out@ =~= step_command(step));
            out
        },
        SemanticStep::OutsideWindow => write_window("2031-01-01", "2040-01-01", 9, "false"),
    }
}

/// A value of a projection row.
#[derive(Debug)]
pub enum RowValue {
    /// A string.
    Text(String),
    /// An integer.
    Integer(i64),
    /// A floating-point number, whichever it is.
    Float,
    /// A truth value.
    Boolean(bool),
    /// A reference to an entity.
    Ref(u128),
    /// A keyword.
    Keyword(String),
    /// Nothing.
    Null,
}

/// What a value is.
pub enum RowValueView {
    /// A string.
    Text(Seq<char>),
    /// An integer.
    Integer(i64),
    /// A floating-point number.
    Float,
    /// A truth value.
    Boolean(bool),
    /// A reference to an entity.
    Ref(u128),
    /// A keyword.
    Keyword(Seq<char>),
    /// Nothing.
    Null,
}

impl View for RowValue {
    type V = RowValueView;

    open spec fn view(&self) -> RowValueView {
        match *self {
            RowValue::Text(text) => RowValueView::Text(text@),
            RowValue::Integer(n) => RowValueView::Integer(n),
            RowValue::Float => RowValueView::Float,
            RowValue::Boolean(b) => RowValueView::Boolean(b),
            RowValue::Ref(id) => RowValueView::Ref(id),
            RowValue::Keyword(text) => RowValueView::Keyword(text@),
            RowValue::Null => RowValueView::Null,
        }
    }
}

/// The types of values.
#[derive(Clone, Copy, Debug, PartialEq, Eq, Structural)]
pub enum ValueType {
    /// Strings.
    Text,
    /// Integers.
    Integer,
    /// Floating-point numbers.
    Float,
    /// Truth values.
    Boolean,
    /// References.
    Ref,
    /// Keywords.
    Keyword,
    /// Nothing.
    Null,
}

/// The type of a value.
pub open spec fn type_of(value: RowValueView) -> ValueType {
    match value {
        RowValueView::Text(_) => ValueType::Text,
        RowValueView::Integer(_) => ValueType::Integer,
        RowValueView::Float => ValueType::Float,
        RowValueView::Boolean(_) => ValueType::Boolean,
        RowValueView::Ref(_) => ValueType::Ref,
        RowValueView::Keyword(_) => ValueType::Keyword,
        RowValueView::Null => ValueType::Null,
    }
}

fn value_type(value: &RowValue) -> (kind: ValueType)
    ensures
        kind == type_of(value@),
{
    match value {
        RowValue::Text(_) => ValueType::Text,
        RowValue::Integer(_) => ValueType::Integer,
        RowValue::Float => ValueType::Float,
        RowValue::Boolean(_) => ValueType::Boolean,
        RowValue::Ref(_) => ValueType::Ref,
        RowValue::Keyword(_) => ValueType::Keyword,
        RowValue::Null => ValueType::Null,
    }
}

/// Whether some row has a value of a type.
pub open spec fn has_type(rows: Seq<(u128, RowValue)>, kind: ValueType) -> bool {
    exists|i: int| 0 <= i < rows.len() && type_of((#[trigger] rows[i]).1@) == kind
}

/// Whether a row relates an entity and a value.
pub open spec fn row_is(row: (u128, RowValue), entity: u128, value: RowValueView) -> bool {
    row.0 == entity && row.1@ == value
}

/// Whether some row relates an entity and a value.
pub open spec fn has_row(rows: Seq<(u128, RowValue)>, entity: u128, value: RowValueView) -> bool {
    exists|i: int| 0 <= i < rows.len() && row_is(#[trigger] rows[i], entity, value)
}

/// How many of the first `n` rows relate an entity and a value.
pub open spec fn count_rows(
    rows: Seq<(u128, RowValue)>,
    n: nat,
    entity: u128,
    value: RowValueView,
) -> nat
    decreases n,
{
    if n == 0 {
        0
    } else {
        count_rows(rows, (n - 1) as nat, entity, value) + if row_is(rows[n - 1], entity, value) {
            1nat
        } else {
            0nat
        }
    }
}

fn contains_type(rows: &Vec<(u128, RowValue)>, kind: ValueType) -> (found: bool)
    ensures
        found == has_type(rows@, kind),
{
    let mut i: usize = 0;
    while i < rows.len()
        invariant
            i <= rows.len(),
            forall|j: int| 0 <= j < i ==> type_of((#[trigger] rows@[j]).1@) != kind,
        decreases rows.len() - i,
    {
        if value_type(&rows[i].1) == kind {
            assert(type_of(rows@[i as int].1@) == kind);
            return true;
        }
        i += 1;
    }
    false
}

fn same_value(left: &RowValue, right: &RowValue) -> (same: bool)
    ensures
        same == (left@ == right@),
{
    match (left, right) {
        (RowValue::Text(a), RowValue::Text(b)) => *a == *b,
        (RowValue::Integer(a), RowValue::Integer(b)) => *a == *b,
        (RowValue::Float, RowValue::Float) => true,
        (RowValue::Boolean(a), RowValue::Boolean(b)) => *a == *b,
        (RowValue::Ref(a), RowValue::Ref(b)) => *a == *b,
        (RowValue::Keyword(a), RowValue::Keyword(b)) => *a == *b,
        (RowValue::Null, RowValue::Null) => true,
        _ => false,
    }
}

fn matching_rows(rows: &Vec<(u128, RowValue)>, entity: u128, value: &RowValue) -> (count: usize)
    ensures
        count == count_rows(rows@, rows@.len(), entity, value@),
        count > 0 <==> has_row(rows@, entity, value@),
{
    let mut count: usize = 0;
    let mut i: usize = 0;
    while i < rows.len()
        invariant
            i <= rows.len(),
            count <= i,
            count == count_rows(rows@, i as nat, entity, value@),
            count > 0 <==> exists|j: int| 0 <= j < i && row_is(#[trigger] rows@[j], entity, value@),
        decreases rows.len() - i,
    {
        if rows[i].0 == entity && same_value(&rows[i].1, value) {
            assert(row_is(rows@[i as int], entity, value@));
            count += 1;
        }
        i += 1;
    }
    count
}

/// What was read off the projection in the course of the semantics check.
#[derive(Debug)]
pub struct SemanticObservations {
    /// After the two windows.
    pub initial: Vec<(u128, RowValue)>,
    /// Whether the projection refused to answer before it was refreshed.
    pub stale_read_rejected: bool,
    /// After the assertion.
    pub after_assertion: Vec<(u128, RowValue)>,
    /// After the scoped retraction.
    pub after_scoped_retraction: Vec<(u128, RowValue)>,
    /// After the unscoped retraction.
    pub after_unscoped_retraction: Vec<(u128, RowValue)>,
    /// After the fact that is not valid at the instant.
    pub after_outside_window: Vec<(u128, RowValue)>,
    /// Fingerprints of the refreshed and of a rebuilt projection.
    pub fingerprints: (u64, u64),
    /// Whether both hold the same rows.
    pub rebuilt_rows_equal: bool,
}

/// What the semantics check found.
#[derive(Clone, Copy, Debug, PartialEq, Eq, Structural)]
pub struct SemanticMeasurement {
    /// Values of every type are kept.
    pub all_value_types: bool,
    /// References are kept.
    pub ref_value: bool,
    /// A refresh picks up an assertion.
    pub assert_refresh: bool,
    /// A refresh picks up a scoped retraction.
    pub scoped_retract: bool,
    /// A refresh picks up an unscoped retraction.
    pub unscoped_retract: bool,
    /// A fact that is not valid at the instant stays out.
    pub valid_window: bool,
    /// Overlapping windows stay separate rows.
    pub overlapping_windows: bool,
    /// A stale projection refuses to answer.
    pub stale_read_rejected: bool,
    /// A rebuild gives the same projection.
    pub deterministic_rebuild: bool,
}

/// Whether rows hold nine facts, at least one of every type.
pub open spec fn every_type_kept(rows: Seq<(u128, RowValue)>) -> bool {
    &&& rows.len() == 9
    &&& has_type(rows, ValueType::Text)
    &&& has_type(rows, ValueType::Integer)
    &&& has_type(rows, ValueType::Float)
    &&& has_type(rows, ValueType::Boolean)
    &&& has_type(rows, ValueType::Ref)
    &&& has_type(rows, ValueType::Keyword)
    &&& has_type(rows, ValueType::Null)
}

/// The findings that observations give.
pub open spec fn semantic_findings(seen: SemanticObservations) -> SemanticMeasurement {
    SemanticMeasurement {
        all_value_types: every_type_kept(seen.initial@),
        ref_value: has_row(seen.initial@, 5, RowValueView::Ref(10)),
        assert_refresh: has_row(seen.after_assertion@, 8, RowValueView::Integer(99)),
        scoped_retract: !has_row(seen.after_scoped_retraction@, 2, RowValueView::Integer(42)),
        unscoped_retract: !has_row(
            seen.after_unscoped_retraction@,
            1,
            RowValueView::Text("vetch"@),
        ),
        valid_window: !has_row(seen.after_outside_window@, 9, RowValueView::Boolean(false)),
        overlapping_windows: count_rows(
            seen.after_outside_window@,
            seen.after_outside_window@.len(),
            9,
            RowValueView::Keyword(":state/overlap"@),
        ) == 2,
        stale_read_rejected: seen.stale_read_rejected,
        deterministic_rebuild: seen.fingerprints.0 == seen.fingerprints.1
            && seen.rebuilt_rows_equal,
    }
}

/// Judge the semantics of a projection by what was read off it.
pub fn measure_semantics(seen: &SemanticObservations) -> (findings: SemanticMeasurement)
    ensures
        findings == semantic_findings(*seen),
{
    let all_value_types = seen.initial.len() == 9 && contains_type(&seen.initial, ValueType::Text)
        && contains_type(&seen.initial, ValueType::Integer) && contains_type(
        &seen.initial,
        ValueType::Float,
    ) && contains_type(&seen.initial, ValueType::Boolean) && contains_type(
        &seen.initial,
        ValueType::Ref,
    ) && contains_type(&seen.initial, ValueType::Keyword) && contains_type(
        &seen.initial,
        ValueType::Null,
    );
    let overlap = RowValue::Keyword(":state/overlap".to_owned());
    let vetch = RowValue::Text("vetch".to_owned());
    SemanticMeasurement {
        all_value_types,
        ref_value: matching_rows(&seen.initial, 5, &RowValue::Ref(10)) > 0,
        assert_refresh: matching_rows(&seen.after_assertion, 8, &RowValue::Integer(99)) > 0,
        scoped_retract: matching_rows(&seen.after_scoped_retraction, 2, &RowValue::Integer(42))
            == 0,
        unscoped_retract: matching_rows(&seen.after_unscoped_retraction, 1, &vetch) == 0,
        valid_window: matching_rows(&seen.after_outside_window, 9, &RowValue::Boolean(false)) == 0,
        overlapping_windows: matching_rows(&seen.after_outside_window, 9, &overlap) == 2,
        stale_read_rejected: seen.stale_read_rejected,
        deterministic_rebuild: seen.fingerprints.0 == seen.fingerprints.1
            && seen.rebuilt_rows_equal,
    }
}

} // verus!
