//! What the comparisons of projections look at, and what they find.

use crate::bench::current_projection::{
    count_rows, every_type_command, has_row, has_type, semantic_findings, step_command, typed_row,
    window_command, RowValue, RowValueView, SemanticObservations, SemanticStep, ValueType,
};
use crate::bench::current_projection_tail::{
    fixture_fault, names_of, order_of, probe_fault, probe_instant, probe_name, probe_place,
    rotation_names, same_identity, sample_exact, sample_of, trial_fault, visible, visible_count,
    visible_sum, CandidateKind, FixtureReceipt, ImageIdentity, ProbeTrial, TailError, Trial,
};
use crate::entity::entity_text;
use crate::text::{shows_before, stands_at};
use vstd::prelude::*;

verus! {

/// The three probes have names of their own and look at the last instant before
/// the change of 2025, at the change, and two milliseconds later.
pub proof fn law_probes_look_around_the_change(a: int, b: int)
    requires
        0 <= a < b < 3,
    ensures
        probe_name(a) != probe_name(b),
        probe_instant(a) < probe_instant(b),
        probe_instant(0) == 1_735_689_600_000 - 1,
        probe_instant(1) == 1_735_689_600_000,
        probe_instant(2) == 1_735_689_600_000 + 2,
{
    reveal_strlit("beforeBoundary");
    reveal_strlit("atBoundary");
    reveal_strlit("afterBoundary");
    assert("beforeBoundary"@.len() == 14 && "atBoundary"@.len() == 10 && "afterBoundary"@.len()
        == 13);
}

/// Both projections answer every probe once. The freshly built one goes first in
/// the first probe of the first trial, and from a trial or a probe to the next
/// the order is turned around.
pub proof fn law_candidates_take_turns(trial_index: int, probe_index: int)
    ensures
        order_of(0, 0) == seq![CandidateKind::Source, CandidateKind::Decoded],
        order_of(trial_index, probe_index).len() == 2,
        order_of(trial_index, probe_index)[0] != order_of(trial_index, probe_index)[1],
        order_of(trial_index + 1, probe_index) == order_of(trial_index, probe_index).reverse(),
        order_of(trial_index, probe_index + 1) == order_of(trial_index, probe_index).reverse(),
{
    assert(order_of(trial_index + 1, probe_index) =~= order_of(trial_index, probe_index).reverse());
    assert(order_of(trial_index, probe_index + 1) =~= order_of(trial_index, probe_index).reverse());
}

/// The facts come in fours: the first one of each four is always valid, the
/// second one from the change on, the third one until the change, and the fourth
/// one for two milliseconds from the change on.
pub proof fn law_facts_come_and_go_at_the_change(four: int, valid_at: i64)
    ensures
        visible(4 * four, valid_at),
        visible(4 * four + 1, valid_at) <==> valid_at >= 1_735_689_600_000,
        visible(4 * four + 2, valid_at) <==> valid_at < 1_735_689_600_000,
        visible(4 * four + 3, valid_at) <==> 1_735_689_600_000 <= valid_at < 1_735_689_600_002,
{
}

/// What is visible is counted fact by fact.
pub proof fn law_visible_facts_are_counted(facts: nat, valid_at: i64)
    ensures
        visible_count(0, valid_at) == 0,
        visible_sum(0, valid_at) == 0,
        visible(facts as int, valid_at) ==> visible_count(facts + 1, valid_at) == visible_count(
            facts,
            valid_at,
        ) + 1 && visible_sum(facts + 1, valid_at) == visible_sum(facts, valid_at) + facts,
        !visible(facts as int, valid_at) ==> visible_count(facts + 1, valid_at) == visible_count(
            facts,
            valid_at,
        ) && visible_sum(facts + 1, valid_at) == visible_sum(facts, valid_at),
{
}

/// A fixture is accepted exactly when its metadata is of the known kind, names
/// the graph that is there, 90 percent full, with as many facts as asked for, and
/// the code that runs, unchanged where that is asked for.
pub proof fn law_fixture_is_bound_to_its_graph(
    fixture: FixtureReceipt,
    graph_bytes: u64,
    graph_sha256: Seq<char>,
    graph_format_version: u32,
    facts: u64,
    source_commit: Seq<char>,
    require_clean: bool,
)
    ensures
        ({
            let fault = fixture_fault(
                fixture,
                graph_bytes,
                graph_sha256,
                graph_format_version,
                facts,
                source_commit,
                require_clean,
            );
            &&& fault is None <==> {
                &&& fixture.schema@ == "vicia.temporal-projection-fixture.v1"@
                &&& fixture.facts == facts
                &&& fixture.fill_percent == 90
                &&& fixture.bytes == graph_bytes
                &&& fixture.sha256@ == graph_sha256
                &&& fixture.format_version == graph_format_version
                &&& fixture.builder_source_commit@ == source_commit
                &&& fixture.builder_tracked_clean || !require_clean
            }
            &&& fault == Some(TailError::FixtureGraph) ==> fixture.bytes != graph_bytes
                || fixture.sha256@ != graph_sha256 || fixture.format_version
                != graph_format_version
            &&& fault == Some(TailError::FixtureBuilder) ==> fixture.builder_source_commit@
                != source_commit
            &&& fault == Some(TailError::FixtureBuilderDirty) ==> require_clean
                && !fixture.builder_tracked_clean
            &&& fault == Some(TailError::FixtureFacts) ==> fixture.facts != facts
            &&& fault == Some(TailError::FixtureFill) ==> fixture.fill_percent != 90
            &&& fault == Some(TailError::FixtureSchema) ==> fixture.schema@
                != "vicia.temporal-projection-fixture.v1"@
        }),
{
}

/// Two identities are the same exactly when no figure of them differs.
pub proof fn law_identity_is_every_figure(a: ImageIdentity, b: ImageIdentity, c: ImageIdentity)
    ensures
        same_identity(a, a),
        same_identity(a, b) ==> same_identity(b, a),
        same_identity(a, b) && same_identity(b, c) ==> same_identity(a, c),
        a.base_generation != b.base_generation || a.manifest_generation != b.manifest_generation
            || a.tx_count != b.tx_count || a.fingerprint@ != b.fingerprint@ || a.row_count
            != b.row_count || a.padded_bytes != b.padded_bytes <==> !same_identity(a, b),
{
}

/// The probe that is found is the first one with the name, and none is found only
/// where none has it.
pub proof fn law_first_probe_of_a_name_is_found<T>(
    probes: Seq<ProbeTrial<T>>,
    from: int,
    name: Seq<char>,
)
    requires
        0 <= from <= probes.len(),
    ensures
        match probe_place(probes, from, name) {
            Some(place) => from <= place < probes.len() && probes[place].name@ == name && forall|
                i: int,
            |
                from <= i < place ==> (#[trigger] probes[i]).name@ != name,
            None => forall|i: int| from <= i < probes.len() ==> (#[trigger] probes[i]).name@ != name,
        },
    decreases probes.len() - from,
{
    if from < probes.len() && probes[from].name@ != name {
        law_first_probe_of_a_name_is_found(probes, from + 1, name);
    }
}

/// A trial is accepted exactly when it is in its place, ran its three probes in
/// its rotation, saw one row per fact, and each probe looked at its instant and
/// was answered in its order.
pub proof fn law_accepted_trial_ran_as_planned<T>(trial: Trial<T>, trial_index: int, facts: u64)
    ensures
        trial_fault(trial, trial_index, facts) is None <==> {
            &&& trial.trial_index == trial_index
            &&& names_of(trial.probe_order@) == rotation_names(trial_index)
            &&& trial.image.row_count == facts
            &&& trial.probes@.len() == 3
            &&& forall|k: int|
                0 <= k < 3 ==> (#[trigger] sample_of(trial, k) matches Some(sample)
                    && sample.valid_at == probe_instant(k) && sample.order@ == order_of(
                    trial_index,
                    k,
                ))
        },
        forall|k: int|
            0 <= k < 3 && (#[trigger] sample_of(trial, k)) is None ==> probe_fault(
                trial.probes@,
                trial_index,
                k,
            ) == Some(TailError::TrialProbeMissing),
{
    assert(probe_fault(trial.probes@, trial_index, 0) is None <==> (sample_of(
        trial,
        0,
    ) matches Some(sample) && sample.valid_at == probe_instant(0) && sample.order@ == order_of(
        trial_index,
        0,
    )));
    assert(probe_fault(trial.probes@, trial_index, 1) is None <==> (sample_of(
        trial,
        1,
    ) matches Some(sample) && sample.valid_at == probe_instant(1) && sample.order@ == order_of(
        trial_index,
        1,
    )));
    assert(probe_fault(trial.probes@, trial_index, 2) is None <==> (sample_of(
        trial,
        2,
    ) matches Some(sample) && sample.valid_at == probe_instant(2) && sample.order@ == order_of(
        trial_index,
        2,
    )));
}

/// The names of a list are its texts in order, and the probes of a trial are
/// named in the order of its rotation: one further with every trial.
pub proof fn law_rotation_is_named(list: Seq<String>, trial_index: int, i: int)
    requires
        trial_index >= 0,
        0 <= i < 3,
    ensures
        names_of(list).len() == list.len(),
        forall|k: int| 0 <= k < list.len() ==> #[trigger] names_of(list)[k] == list[k]@,
        rotation_names(trial_index).len() == 3,
        rotation_names(trial_index)[i] == probe_name((trial_index + i) % 3),
{
}

/// A sample is exact when both projections gave the right count and the right
/// sum; it is the one that has the name of the probe.
pub proof fn law_exact_sample_has_four_right_figures<T>(
    trial: Trial<T>,
    sample: ProbeTrial<T>,
    probe_index: int,
    facts: u64,
    valid_at: i64,
)
    ensures
        sample_exact(sample, facts, valid_at) <==> (sample.source.count, sample.source.checksum)
            == (sample.decoded.count, sample.decoded.checksum) && sample.decoded.count
            == visible_count(facts as nat, valid_at) && sample.decoded.checksum == visible_sum(
            facts as nat,
            valid_at,
        ),
        sample_of(trial, probe_index) matches Some(found) ==> found.name@ == probe_name(probe_index)
            && trial.probes@.contains(found),
        sample_of(trial, probe_index) is None ==> forall|i: int|
            0 <= i < trial.probes@.len() ==> (#[trigger] trial.probes@[i]).name@ != probe_name(
                probe_index,
            ),
{
    law_first_probe_of_a_name_is_found(trial.probes@, 0, probe_name(probe_index));
    if sample_of(trial, probe_index) is Some {
        let place = probe_place(trial.probes@, 0, probe_name(probe_index))->0;
        assert(trial.probes@[place] == sample_of(trial, probe_index)->0);
    }
}

/// Rows are counted one by one: a row more counts if it relates the entity and
/// the value, and does not otherwise.
pub proof fn law_rows_are_counted(
    rows: Seq<(u128, RowValue)>,
    row: (u128, RowValue),
    entity: u128,
    value: RowValueView,
)
    ensures
        count_rows(Seq::empty(), 0, entity, value) == 0,
        row.0 == entity && row.1@ == value ==> count_rows(
            rows.push(row),
            rows.len() + 1,
            entity,
            value,
        ) == count_rows(rows, rows.len(), entity, value) + 1,
        row.0 != entity || row.1@ != value ==> count_rows(
            rows.push(row),
            rows.len() + 1,
            entity,
            value,
        ) == count_rows(rows, rows.len(), entity, value),
{
    lemma_count_of_prefix(rows, row, entity, value, rows.len());
}

proof fn lemma_count_of_prefix(
    rows: Seq<(u128, RowValue)>,
    row: (u128, RowValue),
    entity: u128,
    value: RowValueView,
    n: nat,
)
    requires
        n <= rows.len(),
    ensures
        count_rows(rows.push(row), n, entity, value) == count_rows(rows, n, entity, value),
    decreases n,
{
    if n > 0 {
        lemma_count_of_prefix(rows, row, entity, value, (n - 1) as nat);
    }
}

/// What the semantics check finds is what the rows show: nine facts of all seven
/// types at first, the reference among them; the asserted fact once it is
/// asserted; no retracted fact once it is retracted; no fact outside its window;
/// and an agreeing rebuild.
pub proof fn law_findings_say_what_the_rows_show(seen: SemanticObservations)
    ensures
        ({
            let found = semantic_findings(seen);
            let first = seen.initial@;
            &&& found.all_value_types <==> {
                &&& first.len() == 9
                &&& exists|i: int| 0 <= i < 9 && (#[trigger] first[i]).1 is Text
                &&& exists|i: int| 0 <= i < 9 && (#[trigger] first[i]).1 is Integer
                &&& exists|i: int| 0 <= i < 9 && (#[trigger] first[i]).1 is Float
                &&& exists|i: int| 0 <= i < 9 && (#[trigger] first[i]).1 is Boolean
                &&& exists|i: int| 0 <= i < 9 && (#[trigger] first[i]).1 is Ref
                &&& exists|i: int| 0 <= i < 9 && (#[trigger] first[i]).1 is Keyword
                &&& exists|i: int| 0 <= i < 9 && (#[trigger] first[i]).1 is Null
            }
            &&& found.ref_value <==> exists|i: int|
                0 <= i < first.len() && (#[trigger] first[i]).0 == 5 && first[i].1
                    == RowValue::Ref(10)
            &&& found.assert_refresh <==> exists|i: int|
                0 <= i < seen.after_assertion@.len() && (#[trigger] seen.after_assertion@[i]).0 == 8
                    && seen.after_assertion@[i].1 == RowValue::Integer(99)
            &&& found.scoped_retract <==> forall|i: int|
                0 <= i < seen.after_scoped_retraction@.len() ==> (
                #[trigger] seen.after_scoped_retraction@[i]).0 != 2
                    || seen.after_scoped_retraction@[i].1 != RowValue::Integer(42)
            &&& found.unscoped_retract <==> forall|i: int|
                0 <= i < seen.after_unscoped_retraction@.len() ==> (
                #[trigger] seen.after_unscoped_retraction@[i]).0 != 1
                    || seen.after_unscoped_retraction@[i].1@ != RowValueView::Text("vetch"@)
            &&& found.valid_window <==> forall|i: int|
                0 <= i < seen.after_outside_window@.len() ==> (
                #[trigger] seen.after_outside_window@[i]).0 != 9 || seen.after_outside_window@[i].1
                    != RowValue::Boolean(false)
            &&& found.stale_read_rejected == seen.stale_read_rejected
            &&& found.deterministic_rebuild <==> seen.rebuilt_rows_equal && seen.fingerprints.0
                == seen.fingerprints.1
        }),
{
    let found = semantic_findings(seen);
    let first = seen.initial@;
    lemma_typed(first);
    lemma_row(first, 5, RowValue::Ref(10));
    lemma_row(seen.after_assertion@, 8, RowValue::Integer(99));
    lemma_row(seen.after_scoped_retraction@, 2, RowValue::Integer(42));
    lemma_row(seen.after_outside_window@, 9, RowValue::Boolean(false));
}

proof fn lemma_typed(rows: Seq<(u128, RowValue)>)
    ensures
        has_type(rows, ValueType::Text) <==> exists|i: int|
            0 <= i < rows.len() && (#[trigger] rows[i]).1 is Text,
        has_type(rows, ValueType::Integer) <==> exists|i: int|
            0 <= i < rows.len() && (#[trigger] rows[i]).1 is Integer,
        has_type(rows, ValueType::Float) <==> exists|i: int|
            0 <= i < rows.len() && (#[trigger] rows[i]).1 is Float,
        has_type(rows, ValueType::Boolean) <==> exists|i: int|
            0 <= i < rows.len() && (#[trigger] rows[i]).1 is Boolean,
        has_type(rows, ValueType::Ref) <==> exists|i: int|
            0 <= i < rows.len() && (#[trigger] rows[i]).1 is Ref,
        has_type(rows, ValueType::Keyword) <==> exists|i: int|
            0 <= i < rows.len() && (#[trigger] rows[i]).1 is Keyword,
        has_type(rows, ValueType::Null) <==> exists|i: int|
            0 <= i < rows.len() && (#[trigger] rows[i]).1 is Null,
{
}

proof fn lemma_row(rows: Seq<(u128, RowValue)>, entity: u128, value: RowValue)
    requires
        value is Ref || value is Integer || value is Boolean,
    ensures
        has_row(rows, entity, value@) <==> exists|i: int|
            0 <= i < rows.len() && (#[trigger] rows[i]).0 == entity && rows[i].1 == value,
{
    if has_row(rows, entity, value@) {
        let i = choose|i: int|
            0 <= i < rows.len() && crate::bench::current_projection::row_is(
                #[trigger] rows[i],
                entity,
                value@,
            );
        assert(rows[i].0 == entity && rows[i].1 == value);
    }
    if exists|i: int| 0 <= i < rows.len() && (#[trigger] rows[i]).0 == entity && rows[i].1
        == value {
        let i = choose|i: int|
            0 <= i < rows.len() && (#[trigger] rows[i]).0 == entity && rows[i].1 == value;
        assert(crate::bench::current_projection::row_is(rows[i], entity, value@));
    }
}

/// Two overlapping windows are kept apart exactly when two rows, and no third
/// one, show the overlapping state.
pub proof fn law_overlapping_windows_are_two_rows(seen: SemanticObservations, i: int, j: int)
    requires
        ({
            let rows = seen.after_outside_window@;
            let overlap = RowValueView::Keyword(":state/overlap"@);
            &&& 0 <= i < j < rows.len()
            &&& rows[i].0 == 9 && rows[i].1@ == overlap
            &&& rows[j].0 == 9 && rows[j].1@ == overlap
        }),
    ensures
        semantic_findings(seen).overlapping_windows <==> forall|k: int|
            0 <= k < seen.after_outside_window@.len() && k != i && k != j ==> (
            #[trigger] seen.after_outside_window@[k]).0 != 9 || seen.after_outside_window@[k].1@
                != RowValueView::Keyword(":state/overlap"@),
{
    let rows = seen.after_outside_window@;
    let overlap = RowValueView::Keyword(":state/overlap"@);
    lemma_count_splits(rows, 9, overlap, i, j, rows.len());
}

proof fn lemma_count_splits(
    rows: Seq<(u128, RowValue)>,
    entity: u128,
    value: RowValueView,
    i: int,
    j: int,
    n: nat,
)
    requires
        0 <= i < j < rows.len(),
        n <= rows.len(),
        rows[i].0 == entity && rows[i].1@ == value,
        rows[j].0 == entity && rows[j].1@ == value,
    ensures
        ({
            let own: nat = if n <= i {
                0
            } else if n <= j {
                1
            } else {
                2
            };
            &&& count_rows(rows, n, entity, value) >= own
            &&& count_rows(rows, n, entity, value) == own <==> forall|k: int|
                0 <= k < n && k != i && k != j ==> (#[trigger] rows[k]).0 != entity || rows[k].1@
                    != value
        }),
    decreases n,
{
    if n > 0 {
        lemma_count_splits(rows, entity, value, i, j, (n - 1) as nat);
        let last = n - 1;
        assert(rows[last] == rows[n - 1]);
    }
}

/// A single overlapping row, or none, is not two.
pub proof fn law_one_window_is_not_two(seen: SemanticObservations, i: int)
    requires
        forall|k: int|
            0 <= k < seen.after_outside_window@.len() && k != i ==> (
            #[trigger] seen.after_outside_window@[k]).0 != 9 || seen.after_outside_window@[k].1@
                != RowValueView::Keyword(":state/overlap"@),
    ensures
        !semantic_findings(seen).overlapping_windows,
{
    lemma_count_at_most_one(
        seen.after_outside_window@,
        9,
        RowValueView::Keyword(":state/overlap"@),
        i,
        seen.after_outside_window@.len(),
    );
}

proof fn lemma_count_at_most_one(
    rows: Seq<(u128, RowValue)>,
    entity: u128,
    value: RowValueView,
    i: int,
    n: nat,
)
    requires
        n <= rows.len(),
        forall|k: int|
            0 <= k < rows.len() && k != i ==> (#[trigger] rows[k]).0 != entity || rows[k].1@
                != value,
    ensures
        count_rows(rows, n, entity, value) <= if n > i {
            1nat
        } else {
            0nat
        },
    decreases n,
{
    if n > 0 {
        lemma_count_at_most_one(rows, entity, value, i, (n - 1) as nat);
        assert(rows[n - 1] == rows[n - 1]);
    }
}

/// A command for a window shows the window's start and end, the entity and the
/// value, each in its place and with nothing else between the fixed words.
pub proof fn law_window_command_shows_its_parts(
    from: Seq<char>,
    to: Seq<char>,
    entity: u128,
    value: Seq<char>,
)
    ensures
        ({
            let command = window_command(from, to, entity, value);
            let name = entity_text(entity);
            let end = 24 + from.len() + 13;
            let subject = end + to.len() + 12;
            let object = subject + name.len() + 20;
            &&& stands_at(command, 24, from)
            &&& stands_at(command, end as int, to)
            &&& stands_at(command, subject as int, name)
            &&& stands_at(command, object as int, value)
            &&& command.len() == object + value.len() + 3
        }),
{
    let command = window_command(from, to, entity, value);
    let name = entity_text(entity);
    reveal_strlit("(transact {:valid-from \"");
    reveal_strlit("\" :valid-to \"");
    reveal_strlit("\"} [[#uuid \"");
    reveal_strlit("\" :projection/value ");
    reveal_strlit("]])");
    let end = (24 + from.len() + 13) as int;
    let subject = end + to.len() + 12;
    let object = subject + name.len() + 20;
    assert(command.subrange(24, 24 + from.len() as int) =~= from);
    assert(command.subrange(end, end + to.len()) =~= to);
    assert(command.subrange(subject, subject + name.len()) =~= name);
    assert(command.subrange(object, object + value.len()) =~= value);
}

/// A typed fact shows its entity and its value.
pub proof fn law_typed_fact_shows_its_value(entity: u128, value: Seq<char>)
    ensures
        ({
            let row = typed_row(entity, value);
            let name = entity_text(entity);
            let object = 8 + name.len() + 20;
            &&& stands_at(row, 8, name)
            &&& stands_at(row, object as int, value)
            &&& row.len() == object + value.len() + 1
        }),
{
    let row = typed_row(entity, value);
    let name = entity_text(entity);
    reveal_strlit("[#uuid \"");
    reveal_strlit("\" :projection/value ");
    reveal_strlit("]");
    let object = (8 + name.len() + 20) as int;
    assert(row.subrange(8, 8 + name.len() as int) =~= name);
    assert(row.subrange(object, object + value.len()) =~= value);
}

/// The commands of the semantics check write what is looked for afterwards: both
/// overlapping windows are about entity 9 and in the same state, the assertion is
/// of 99 for entity 8, and what lies outside its window is `false` for entity 9.
/// The retractions are about entities 2 and 1.
pub proof fn law_commands_write_what_is_looked_for()
    ensures
        ({
            let name = entity_text(9);
            let first = step_command(SemanticStep::FirstWindow);
            let second = step_command(SemanticStep::SecondWindow);
            &&& stands_at(first, 69, name) && stands_at(second, 69, name)
            &&& stands_at(first, (89 + name.len()) as int, ":state/overlap"@)
            &&& stands_at(second, (89 + name.len()) as int, ":state/overlap"@)
            &&& stands_at(step_command(SemanticStep::OutsideWindow), 69, name)
            &&& stands_at(
                step_command(SemanticStep::OutsideWindow),
                (89 + name.len()) as int,
                "false"@,
            )
        }),
        stands_at(step_command(SemanticStep::Assertion), 69, entity_text(8)),
        stands_at(
            step_command(SemanticStep::Assertion),
            (89 + entity_text(8).len()) as int,
            "99"@,
        ),
        stands_at(step_command(SemanticStep::ScopedRetraction), 18, entity_text(2)),
        stands_at(step_command(SemanticStep::UnscopedRetraction), 18, entity_text(1)),
{
    reveal_strlit("2020-01-01");
    reveal_strlit("2024-01-01");
    reveal_strlit("2027-01-01");
    reveal_strlit("2030-01-01");
    reveal_strlit("2031-01-01");
    reveal_strlit("2040-01-01");
    reveal_strlit("(retract [[#uuid \"");
    law_window_command_shows_its_parts("2020-01-01"@, "2027-01-01"@, 9, ":state/overlap"@);
    law_window_command_shows_its_parts("2024-01-01"@, "2030-01-01"@, 9, ":state/overlap"@);
    law_window_command_shows_its_parts("2031-01-01"@, "2040-01-01"@, 9, "false"@);
    law_window_command_shows_its_parts("2020-01-01"@, "2030-01-01"@, 8, "99"@);
    let scoped = step_command(SemanticStep::ScopedRetraction);
    let unscoped = step_command(SemanticStep::UnscopedRetraction);
    assert(scoped.subrange(18, 18 + entity_text(2).len() as int) =~= entity_text(2));
    assert(unscoped.subrange(18, 18 + entity_text(1).len() as int) =~= entity_text(1));
}

proof fn lemma_joined_parts(
    front: Seq<char>,
    first: Seq<char>,
    second: Seq<char>,
    back: Seq<char>,
    text: Seq<char>,
)
    requires
        text == front + first + second + back,
    ensures
        shows_before(text, first, second),
{
    let at: int = front.len() as int;
    let behind: int = at + first.len();
    assert(text.subrange(at, at + first.len()) =~= first);
    assert(text.subrange(behind, behind + second.len()) =~= second);
    assert(stands_at(text, at, first));
    assert(stands_at(text, behind, second));
}

proof fn lemma_seven_parts(
    head: Seq<char>,
    a: Seq<char>,
    b: Seq<char>,
    c: Seq<char>,
    d: Seq<char>,
    e: Seq<char>,
    f: Seq<char>,
    g: Seq<char>,
    tail: Seq<char>,
)
    ensures
        ({
            let text = head + a + b + c + d + e + f + g + tail;
            &&& shows_before(text, a, b)
            &&& shows_before(text, b, c)
            &&& shows_before(text, c, d)
            &&& shows_before(text, d, e)
            &&& shows_before(text, e, f)
            &&& shows_before(text, f, g)
        }),
{
    let text = head + a + b + c + d + e + f + g + tail;
    assert(text =~= head + a + b + (c + d + e + f + g + tail));
    lemma_joined_parts(head, a, b, c + d + e + f + g + tail, text);
    assert(text =~= (head + a) + b + c + (d + e + f + g + tail));
    lemma_joined_parts(head + a, b, c, d + e + f + g + tail, text);
    assert(text =~= (head + a + b) + c + d + (e + f + g + tail));
    lemma_joined_parts(head + a + b, c, d, e + f + g + tail, text);
    assert(text =~= (head + a + b + c) + d + e + (f + g + tail));
    lemma_joined_parts(head + a + b + c, d, e, f + g + tail, text);
    assert(text =~= (head + a + b + c + d) + e + f + (g + tail));
    lemma_joined_parts(head + a + b + c + d, e, f, g + tail, text);
    lemma_joined_parts(head + a + b + c + d + e, f, g, tail, text);
}

/// The first command of the semantics check writes seven facts, one after the
/// other: a string, an integer, a floating-point number, a truth value, a
/// reference to entity 10, a keyword and nothing, for the entities from 1 to 7.
pub proof fn law_first_command_writes_every_type()
    ensures
        ({
            let text = every_type_command();
            let reference = "#uuid \""@ + entity_text(10) + "\""@;
            &&& shows_before(text, typed_row(1, "\"vetch\""@), typed_row(2, "42"@))
            &&& shows_before(text, typed_row(2, "42"@), typed_row(3, "12.5"@))
            &&& shows_before(text, typed_row(3, "12.5"@), typed_row(4, "true"@))
            &&& shows_before(text, typed_row(4, "true"@), typed_row(5, reference))
            &&& shows_before(text, typed_row(5, reference), typed_row(6, ":state/ready"@))
            &&& shows_before(text, typed_row(6, ":state/ready"@), typed_row(7, "nil"@))
        }),
{
    let reference = "#uuid \""@ + entity_text(10) + "\""@;
    lemma_seven_parts(
        "(transact {:valid-from \"2020-01-01\" :valid-to \"2030-01-01\"} ["@,
        typed_row(1, "\"vetch\""@),
        typed_row(2, "42"@),
        typed_row(3, "12.5"@),
        typed_row(4, "true"@),
        typed_row(5, reference),
        typed_row(6, ":state/ready"@),
        typed_row(7, "nil"@),
        "])"@,
    );
}

} // verus!
