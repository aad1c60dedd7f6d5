//! What the benchmark programs write, expect and choose, said of the numbers
//! themselves.

use crate::bench::aggregate::{
    law_sum_closed_form, result_pair, AggregateError, AggregateProgram, QueryRows,
};
use crate::bench::aggregate_retention::{order_of as endpoint_order_of, retention_pair};
use crate::bench::checkpoint_construction::phase_of;
use crate::bench::fixture::{
    batches_from, graph_middle, graph_prefix, numbered_command, numbered_row, numbered_rows,
    projection_entity, projection_row, projection_rows, reference_row, reference_rows,
    source_entity, target_entity, NumberedGraph,
};
use crate::bench::leaf_read_path::{point_outcome, LeafError};
use crate::bench::pending_isolation::{
    expected_of, kind_attribute, kind_name, variant_label, variants_of, PendingKind,
};
use crate::bench::process_memory::ProcessMemory;
use crate::bench::profile::Profile;
use crate::bench::statistics::{
    capped_product, nearest, nearest_index, open_index, spread_index, summary_of,
};
use crate::bench::storage_layout::{
    answers, fill_list, lists_of, selectable, size_gate, unused_of, IndexSpace, JudgedFill, QuerySample,
};
use crate::entity::entity_text;
use crate::text::{decimal, stands_at};
use vstd::prelude::*;

verus! {

/// An aggregate is the count and the sum in the first two cells of the first
/// row, whatever follows them; only the routing program insists that nothing
/// does. A count is never negative.
pub proof fn law_aggregate_is_in_the_first_row(program: AggregateProgram, rows: Vec<Vec<Option<i64>>>)
    requires
        rows@.len() > 0,
    ensures
        ({
            let row = rows@[0]@;
            let pair = result_pair(program, QueryRows::Rows(rows));
            let exact = program == AggregateProgram::Routing ==> row.len() == 2;
            &&& pair matches Ok((count, checksum)) ==> exact && row.len() >= 2 && row[0] is Some
                && row[1] is Some && row[0]->0 == count && row[1]->0 == checksum
            &&& exact && row.len() >= 2 && row[0] is Some && row[1] is Some && row[0]->0 >= 0
                ==> pair is Ok
            &&& exact && row.len() >= 2 && row[0] is Some && row[1] is Some && row[0]->0 < 0
                ==> pair == Err::<(u64, i128), AggregateError>(AggregateError::CountNegative)
            &&& program != AggregateProgram::Routing && (row.len() == 0 || row[0] is None) ==> pair
                == Err::<(u64, i128), AggregateError>(AggregateError::CountMissing)
            &&& program != AggregateProgram::Routing && row.len() > 0 && row[0] is Some
                && row[0]->0 >= 0 && (row.len() == 1 || row[1] is None) ==> pair == Err::<
                (u64, i128),
                AggregateError,
            >(AggregateError::ChecksumMissing)
        }),
{
}

/// A result without rows has no aggregate, nor has anything but a query.
pub proof fn law_no_row_no_aggregate(program: AggregateProgram, rows: Vec<Vec<Option<i64>>>)
    requires
        rows@.len() == 0,
    ensures
        result_pair(program, QueryRows::Rows(rows)) == Err::<(u64, i128), AggregateError>(
            AggregateError::NoRow,
        ),
        result_pair(program, QueryRows::NotAQuery) == Err::<(u64, i128), AggregateError>(
            AggregateError::NotAQuery,
        ),
{
}

/// A retention graph holds as many facts as it was given, and their sum is half
/// the product of that number and its predecessor.
pub proof fn law_retention_graph_sums_its_numbers(facts: u64)
    requires
        facts * (facts - 1) <= i128::MAX,
    ensures
        retention_pair(facts).0 == facts,
        2 * retention_pair(facts).1 == facts * (facts - 1),
{
    law_sum_closed_form(facts as nat);
}

/// A pair runs one iteration and twenty, the single one first in the first pair
/// and in every other pair from there.
pub proof fn law_first_pair_starts_short(pair_index: usize)
    ensures
        pair_index % 2 == 0 ==> endpoint_order_of(pair_index) == seq![1usize, 20usize],
        pair_index % 2 == 1 ==> endpoint_order_of(pair_index) == seq![20usize, 1usize],
{
}

/// The peak of a phase is the higher one of what was sampled and what the system
/// recorded; its growth is counted from the start, that of the recorded peak from
/// the recorded peak then.
pub proof fn law_phase_peak_is_one_of_the_two(
    baseline: ProcessMemory,
    sampled_peak: u64,
    post: ProcessMemory,
    observations: u64,
)
    ensures
        ({
            let phase = phase_of(baseline, sampled_peak, post, observations);
            let peak = phase.conservative_peak_rss_bytes;
            &&& peak == sampled_peak || peak == post.hwm_bytes
            &&& peak >= sampled_peak && peak >= post.hwm_bytes
            &&& peak <= baseline.rss_bytes ==> phase.conservative_delta_rss_bytes == 0
            &&& peak > baseline.rss_bytes ==> baseline.rss_bytes
                + phase.conservative_delta_rss_bytes == peak
            &&& post.hwm_bytes > baseline.hwm_bytes ==> baseline.hwm_bytes + phase.hwm_growth_bytes
                == post.hwm_bytes
            &&& post.hwm_bytes <= baseline.hwm_bytes ==> phase.hwm_growth_bytes == 0
            &&& phase.baseline_rss_bytes == baseline.rss_bytes
            &&& phase.baseline_hwm_bytes == baseline.hwm_bytes
            &&& phase.sampled_peak_rss_bytes == sampled_peak
            &&& phase.post_rss_bytes == post.rss_bytes
            &&& phase.post_hwm_bytes == post.hwm_bytes
            &&& phase.sampler_observations == observations
        }),
{
}

/// A point read is right exactly when the first cell of its first row holds the
/// expected number.
pub proof fn law_point_read_finds_the_number(rows: Vec<Vec<Option<i64>>>, expected: u64)
    ensures
        point_outcome(QueryRows::Rows(rows), expected) is Ok <==> rows@.len() > 0 && rows@[0]@.len()
            > 0 && rows@[0]@[0] is Some && rows@[0]@[0]->0 == expected,
        rows@.len() == 0 ==> point_outcome(QueryRows::Rows(rows), expected) == Err::<(), LeafError>(
            LeafError::NoInteger,
        ),
        rows@.len() > 0 && rows@[0]@.len() > 0 && rows@[0]@[0] is Some && expected <= i64::MAX
            && rows@[0]@[0]->0 != expected ==> point_outcome(QueryRows::Rows(rows), expected)
            == Err::<(), LeafError>(LeafError::PointMismatch),
        point_outcome(QueryRows::NotAQuery, expected) == Err::<(), LeafError>(LeafError::NotAQuery),
{
}

/// The median of sorted samples is the middle one, the lower of the two middle
/// ones where there are two; 95 percent of the samples lie at or below the next
/// figure, and not with one sample less; the last sample is the largest; and the
/// deviations have their own median.
pub proof fn law_summary_ranks_the_samples<T>(sorted: Seq<T>, deviations: Seq<T>)
    requires
        0 < sorted.len(),
        0 < deviations.len(),
        sorted.len() * 100 + 99 <= usize::MAX,
        deviations.len() * 100 + 99 <= usize::MAX,
    ensures
        summary_of(sorted, deviations) matches Some(summary) && {
            &&& summary.p50 == sorted[(sorted.len() as int + 1) / 2 - 1]
            &&& summary.max == sorted[sorted.len() - 1]
            &&& summary.mad == deviations[(deviations.len() as int + 1) / 2 - 1]
            &&& exists|i: int|
                0 <= i < sorted.len() && summary.p95 == #[trigger] sorted[i] && 100 * i < 95
                    * sorted.len() <= 100 * (i + 1)
        },
{
    let len = sorted.len() as usize;
    assert(nearest_index(len, 95) == (95 * len + 99) / 100 - 1);
    let i = nearest_index(len, 95);
    assert(nearest(sorted, 95) == Some(sorted[i]));
    assert(nearest(sorted, 50) == Some(sorted[(sorted.len() as int + 1) / 2 - 1]));
    assert(nearest(deviations, 50) == Some(deviations[(deviations.len() as int + 1) / 2 - 1]));
}

/// There is a sample of nearest rank exactly at the percentages from 1 to 100 of
/// at least one sample, and it is one of them.
pub proof fn law_ranks_are_taken_at_percentages<T>(sorted: Seq<T>, percent: usize)
    requires
        sorted.len() * 100 + 99 <= usize::MAX,
    ensures
        nearest(sorted, percent) is Some <==> sorted.len() > 0 && 1 <= percent <= 100,
        nearest(sorted, percent) matches Some(sample) ==> sorted.contains(sample),
{
    if sorted.len() > 0 && 1 <= percent <= 100 {
        let len = sorted.len() as usize;
        assert(len * percent <= len * 100) by (nonlinear_arith)
            requires
                percent <= 100,
        ;
        crate::bench::statistics::law_nearest_rank_covers_percentage(len, percent);
        assert(sorted[nearest_index(len, percent)] == nearest(sorted, percent)->0);
    }
}

/// The spread takes the first sample that lies at least the asked percentage of
/// the way from the first to the last one; the open rank takes the first sample
/// for no percentage at all. Products are exact up to the largest count.
pub proof fn law_spread_is_a_share_of_the_way(len: usize, percent: usize)
    requires
        len > 0,
        percent <= 100,
        len * percent + 99 <= usize::MAX,
    ensures
        100 * spread_index(len, percent) >= (len - 1) * percent,
        100 * (spread_index(len, percent) - 1) < (len - 1) * percent,
        open_index(len, 0) == 0,
        capped_product(len, percent) == len * percent,
{
    assert(0 <= (len - 1) * percent <= len * percent) by (nonlinear_arith)
        requires
            len > 0,
            percent >= 0,
    ;
    assert(len * 0 == 0);
}

/// Every batch but the last one holds a thousand values.
pub proof fn law_batches_hold_a_thousand(start: u64, end: u64)
    ensures
        ({
            let list = batches_from(start, end);
            forall|i: int|
                0 <= i < list.len() - 1 ==> (#[trigger] list[i]).1 - list[i].0 == 1000
        }),
    decreases end - start,
{
    if start < end {
        let batch = crate::bench::fixture::batch_from(start, end)->0;
        let rest = batches_from(batch.1, end);
        law_batches_hold_a_thousand(batch.1, end);
        crate::bench::fixture::law_batches_cover_values(batch.1, end);
        let list = batches_from(start, end);
        assert(list =~= seq![batch] + rest);
        assert forall|i: int| 0 <= i < list.len() - 1 implies (#[trigger] list[i]).1 - list[i].0
            == 1000 by {
            if i > 0 {
                assert(list[i] == rest[i - 1]);
            }
        }
    }
}

/// A numbered fact shows its number twice: behind the prefix, as its entity, and
/// behind the middle, as its value. Nothing else is in it but the closing bracket.
pub proof fn law_numbered_fact_shows_its_number(
    prefix: Seq<char>,
    middle: Seq<char>,
    value: u64,
)
    ensures
        ({
            let row = numbered_row(prefix, middle, value);
            let numeral = decimal(value as nat);
            let second = (prefix.len() + numeral.len() + middle.len()) as int;
            &&& stands_at(row, 0, prefix)
            &&& stands_at(row, prefix.len() as int, numeral)
            &&& stands_at(row, (prefix.len() + numeral.len()) as int, middle)
            &&& stands_at(row, second, numeral)
            &&& row.len() == second + numeral.len() + 1
            &&& row.last() == ']'
        }),
        value < u64::MAX ==> numbered_rows(prefix, middle, value, value + 1) == numbered_row(
            prefix,
            middle,
            value,
        ),
        numbered_rows(prefix, middle, value, value as int) == Seq::<char>::empty(),
{
    let row = numbered_row(prefix, middle, value);
    let numeral = decimal(value as nat);
    let at = (prefix.len() + numeral.len()) as int;
    let second = (prefix.len() + numeral.len() + middle.len()) as int;
    reveal_strlit("]");
    assert(row.subrange(0, prefix.len() as int) =~= prefix);
    assert(row.subrange(prefix.len() as int, at) =~= numeral);
    assert(row.subrange(at, second) =~= middle);
    assert(row.subrange(second, second + numeral.len()) =~= numeral);
    assert(numbered_rows(prefix, middle, value, value as int) =~= Seq::<char>::empty());
    assert(numbered_rows(prefix, middle, value, value + 1) =~= row);
}

/// A command writes its facts, all of them and nothing else, between the words
/// of a transaction.
pub proof fn law_command_writes_its_facts(
    prefix: Seq<char>,
    middle: Seq<char>,
    start: u64,
    end: u64,
)
    ensures
        ({
            let command = numbered_command(prefix, middle, start, end);
            let facts = numbered_rows(prefix, middle, start, end as int);
            &&& stands_at(command, 0, "(transact ["@)
            &&& stands_at(command, 11, facts)
            &&& command.skip(11 + facts.len() as int) == "])"@
        }),
{
    let command = numbered_command(prefix, middle, start, end);
    let facts = numbered_rows(prefix, middle, start, end as int);
    reveal_strlit("(transact [");
    reveal_strlit("])");
    assert(command.subrange(0, 11) =~= "(transact ["@);
    assert(command.subrange(11, 11 + facts.len() as int) =~= facts);
    assert(command.skip((11 + facts.len()) as int) =~= "])"@);
}

/// The entities and the values of a graph belong to one namespace: that of the
/// graph.
pub proof fn law_graphs_have_their_namespace(graph: NumberedGraph)
    ensures
        ({
            let namespace = match graph {
                NumberedGraph::Retention => ":retention/"@,
                NumberedGraph::CheckpointBase | NumberedGraph::CheckpointPending => ":checkpoint/"@,
                NumberedGraph::Leaf => ":leaf/"@,
                NumberedGraph::Layout => ":layout/"@,
            };
            &&& stands_at(graph_prefix(graph), 1, namespace)
            &&& stands_at(graph_middle(graph), 1, namespace)
            &&& graph_prefix(graph)[0] == '['
            &&& graph_prefix(graph).len() == namespace.len() + 2
            &&& graph_middle(graph)[0] == ' '
            &&& graph_middle(graph).last() == ' '
        }),
        graph_prefix(NumberedGraph::CheckpointBase) != graph_prefix(
            NumberedGraph::CheckpointPending,
        ),
        graph_middle(NumberedGraph::CheckpointBase) != graph_middle(
            NumberedGraph::CheckpointPending,
        ),
{
    reveal_strlit(":retention/");
    reveal_strlit(":checkpoint/");
    reveal_strlit(":leaf/");
    reveal_strlit(":layout/");
    reveal_strlit("[:retention/e");
    reveal_strlit("[:checkpoint/e");
    reveal_strlit("[:checkpoint/p");
    reveal_strlit("[:leaf/e");
    reveal_strlit("[:layout/e");
    reveal_strlit(" :retention/value ");
    reveal_strlit(" :checkpoint/value ");
    reveal_strlit(" :checkpoint/pending ");
    reveal_strlit(" :leaf/value ");
    reveal_strlit(" :layout/value ");
    assert("[:retention/e"@.subrange(1, 12) =~= ":retention/"@);
    assert(" :retention/value "@.subrange(1, 12) =~= ":retention/"@);
    assert("[:checkpoint/e"@.subrange(1, 13) =~= ":checkpoint/"@);
    assert("[:checkpoint/p"@.subrange(1, 13) =~= ":checkpoint/"@);
    assert(" :checkpoint/value "@.subrange(1, 13) =~= ":checkpoint/"@);
    assert(" :checkpoint/pending "@.subrange(1, 13) =~= ":checkpoint/"@);
    assert("[:leaf/e"@.subrange(1, 7) =~= ":leaf/"@);
    assert(" :leaf/value "@.subrange(1, 7) =~= ":leaf/"@);
    assert("[:layout/e"@.subrange(1, 9) =~= ":layout/"@);
    assert(" :layout/value "@.subrange(1, 9) =~= ":layout/"@);
    assert("[:checkpoint/e"@[13] != "[:checkpoint/p"@[13]);
    assert(" :checkpoint/value "@.len() != " :checkpoint/pending "@.len());
}

/// A projection fact shows its entity, the one after its number, and its number.
pub proof fn law_projection_fact_shows_its_number(value: u64)
    ensures
        projection_entity(value) == value + 1,
        ({
            let row = projection_row(value);
            let entity = entity_text((value + 1) as u128);
            let numeral = decimal(value as nat);
            &&& stands_at(row, 8, entity)
            &&& stands_at(row, (8 + entity.len() + 20) as int, numeral)
            &&& row.len() == 8 + entity.len() + 20 + numeral.len() + 1
        }),
        value < u64::MAX ==> projection_rows(value, value + 1) == projection_row(value),
        projection_rows(value, value as int) == Seq::<char>::empty(),
{
    let row = projection_row(value);
    let entity = entity_text((value + 1) as u128);
    let numeral = decimal(value as nat);
    reveal_strlit("[#uuid \"");
    reveal_strlit("\" :projection/value ");
    reveal_strlit("]");
    assert(row.subrange(8, 8 + entity.len() as int) =~= entity);
    let at = (8 + entity.len() + 20) as int;
    assert(row.subrange(at, at + numeral.len()) =~= numeral);
    assert(projection_rows(value, value as int) =~= Seq::<char>::empty());
    assert(projection_rows(value, value + 1) =~= row);
}

/// Writing two adjoining ranges of projection facts writes those of the joined
/// range.
pub proof fn law_projection_ranges_join(start: u64, split: u64, end: u64)
    requires
        start <= split <= end,
    ensures
        projection_rows(start, split as int) + projection_rows(split, end as int)
            == projection_rows(start, end as int),
    decreases end - split,
{
    if split < end {
        law_projection_ranges_join(start, split, (end - 1) as u64);
    }
    assert(projection_rows(start, split as int) + projection_rows(split, end as int)
        =~= projection_rows(start, end as int));
}

/// A reference fact shows its source, the entity after its number, and the
/// target, which is the source with the highest bit set.
pub proof fn law_reference_fact_shows_both_ends(index: usize)
    ensures
        source_entity(index) == index + 1,
        target_entity(index) == source_entity(index) + 0x8000_0000_0000_0000_0000_0000_0000_0000,
        ({
            let row = reference_row(index);
            let source = entity_text(source_entity(index));
            let target = entity_text(target_entity(index));
            &&& stands_at(row, 8, source)
            &&& stands_at(row, (8 + source.len() + 20) as int, target)
            &&& row.len() == 8 + source.len() + 20 + target.len() + 2
        }),
        index < usize::MAX ==> reference_rows(index, index + 1) == reference_row(index),
        reference_rows(index, index as int) == Seq::<char>::empty(),
{
    let row = reference_row(index);
    let source = entity_text(source_entity(index));
    let target = entity_text(target_entity(index));
    reveal_strlit("[#uuid \"");
    reveal_strlit("\" :bench/ref #uuid \"");
    reveal_strlit("\"]");
    assert(row.subrange(8, 8 + source.len() as int) =~= source);
    let at = (8 + source.len() + 20) as int;
    assert(row.subrange(at, at + target.len()) =~= target);
    assert(reference_rows(index, index as int) =~= Seq::<char>::empty());
    assert(reference_rows(index, index + 1) =~= row);
}

/// Writing two adjoining ranges of reference facts writes those of the joined
/// range.
pub proof fn law_reference_ranges_join(start: usize, split: usize, end: usize)
    requires
        start <= split <= end,
    ensures
        reference_rows(start, split as int) + reference_rows(split, end as int) == reference_rows(
            start,
            end as int,
        ),
    decreases end - split,
{
    if split < end {
        law_reference_ranges_join(start, split, (end - 1) as usize);
    }
    assert(reference_rows(start, split as int) + reference_rows(split, end as int)
        =~= reference_rows(start, end as int));
}

/// The label of a variant is its kind and its count. The two kinds have
/// attributes of their own.
pub proof fn law_variants_are_labelled_by_kind_and_count(kind: PendingKind, count: u64)
    ensures
        variant_label(kind, count) == kind_name(kind) + seq!['-'] + decimal(count as nat),
        kind_attribute(PendingKind::Unrelated) != kind_attribute(PendingKind::SelectedControl),
{
    reveal_strlit("unrelated");
    reveal_strlit("selected-control");
    reveal_strlit("unrelated-");
    reveal_strlit("selected-control-");
    reveal_strlit(":bench/unrelated");
    reveal_strlit(":bench/selected");
    assert(":bench/unrelated"@.len() != ":bench/selected"@.len());
    assert("unrelated-"@ =~= "unrelated"@ + seq!['-']);
    assert("selected-control-"@ =~= "selected-control"@ + seq!['-']);
    assert(variant_label(kind, count) =~= kind_name(kind) + seq!['-'] + decimal(count as nat));
}

/// A run has five variants: four sets of unrelated facts, from none at all to
/// the largest one, each larger than the one before, and at last the control of
/// ten thousand.
pub proof fn law_variants_grow_up_to_the_control(profile: Profile)
    ensures
        variants_of(profile).len() == 5,
        variants_of(profile)[0] == (PendingKind::Unrelated, 0u64),
        forall|i: int| 0 <= i < 4 ==> (#[trigger] variants_of(profile)[i]).0 is Unrelated,
        forall|i: int, j: int|
            0 <= i < j < 4 ==> (#[trigger] variants_of(profile)[i]).1 < (
            #[trigger] variants_of(profile)[j]).1,
        variants_of(profile)[3].1 == match profile {
            Profile::Smoke => 10_000u64,
            Profile::Full => 1_000_000u64,
        },
        variants_of(profile)[4] == (PendingKind::SelectedControl, 10_000u64),
{
}

/// The aggregate of an isolation run is that of a million facts that are numbered
/// from zero; facts of the control add their number and their sum to it.
pub proof fn law_control_adds_to_the_aggregate(pending: u64)
    requires
        pending <= 1_000_000_000,
    ensures
        expected_of(PendingKind::Unrelated, pending).0 == 1_000_000,
        2 * expected_of(PendingKind::Unrelated, pending).1 == 1_000_000 * 999_999,
        expected_of(PendingKind::SelectedControl, pending).0 == 1_000_000 + pending,
        2 * expected_of(PendingKind::SelectedControl, pending).1 == 1_000_000 * 999_999 + pending
            * (pending - 1),
{
    law_sum_closed_form(1_000_000);
    law_sum_closed_form(pending as nat);
    assert(pending * (pending - 1) <= 1_000_000_000 * 1_000_000_000) by (nonlinear_arith)
        requires
            0 <= pending <= 1_000_000_000,
    ;
}

/// Five fills are compared, each fuller than the one before: from the one that
/// the others are compared with to full pages.
pub proof fn law_fills_rise_from_the_baseline()
    ensures
        fill_list().len() == 5,
        forall|i: int, j: int|
            0 <= i < j < 5 ==> #[trigger] fill_list()[i] < #[trigger] fill_list()[j],
        fill_list()[0] == 75,
        fill_list()[1] == 85,
        fill_list()[2] == 90,
        fill_list()[3] == 95,
        fill_list()[4] == 100,
{
}

/// A graph file is small enough when it takes at most nine tenths of the other
/// one. Where nine times the other one cannot be counted, every file is.
pub proof fn law_size_gate_asks_for_a_tenth(graph_bytes: u64, baseline_bytes: u64)
    ensures
        9 * baseline_bytes <= u64::MAX ==> (size_gate(graph_bytes, baseline_bytes) <==> 10
            * graph_bytes <= 9 * baseline_bytes),
        9 * baseline_bytes > u64::MAX ==> size_gate(graph_bytes, baseline_bytes),
{
}

/// Only a fill above 75 percent that passed its gates can be chosen. Rounds of
/// queries agree when both their count and their sum do. The unused bytes of an
/// index are those of its leaves and of its inner pages.
pub proof fn law_layout_judges_by_its_figures<E>(
    candidate: JudgedFill,
    sample: QuerySample<E>,
    count: u64,
    checksum: i128,
    index: IndexSpace,
)
    ensures
        selectable(candidate) <==> candidate.fill_percent >= 76 && candidate.gates.passed,
        answers(sample, count, checksum) <==> !(sample.count != count || sample.checksum
            != checksum),
        index.leaf_unused_bytes + index.internal_unused_bytes <= u64::MAX ==> unused_of(index)
            == index.leaf_unused_bytes + index.internal_unused_bytes,
        index.leaf_unused_bytes + index.internal_unused_bytes > u64::MAX ==> unused_of(index)
            == u64::MAX,
{
}

/// A list of orders is read order by order.
pub proof fn law_orders_are_read_one_by_one(orders: Seq<Vec<u8>>, i: int)
    ensures
        lists_of(orders).len() == orders.len(),
        0 <= i < orders.len() ==> lists_of(orders)[i] == orders[i]@,
{
}

} // verus!
