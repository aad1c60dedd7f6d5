//! The facts that benchmark graphs are filled with, batch by batch.

use crate::entity::{entity_text, render_entity_id};
use crate::text::{decimal, push_decimal};
use vstd::prelude::*;
use vstd::string::*;

verus! {

/// Facts that one command writes.
pub const WRITE_BATCH: u64 = 1_000;

/// One batch of values: from the first up to, but not including, the second.
pub open spec fn batch_from(next: u64, end: u64) -> Option<(u64, u64)> {
    if next >= end {
        None
    } else if next + WRITE_BATCH >= end {
        Some((next, end))
    } else {
        Some((next, (next + WRITE_BATCH) as u64))
    }
}

/// The batches from the value `next` on.
pub open spec fn batches_from(next: u64, end: u64) -> Seq<(u64, u64)>
    decreases end - next,
{
    match batch_from(next, end) {
        None => Seq::empty(),
        Some(batch) => seq![batch] + batches_from(batch.1, end),
    }
}

/// A walk over the batches of a range of values.
#[derive(Clone, Copy, Debug, PartialEq, Eq, Structural)]
pub struct BatchWalk {
    next: u64,
    end: u64,
}

impl BatchWalk {
    /// The batches that are left.
    pub closed spec fn remaining(self) -> Seq<(u64, u64)> {
        batches_from(self.next, self.end)
    }

    /// Walk over `facts` values from `start` on, as far as numbers go.
    pub fn new(start: u64, facts: u64) -> (walk: Self)
        ensures
            walk.remaining() == batches_from(start, start.saturating_add(facts)),
    {
        BatchWalk { next: start, end: start.saturating_add(facts) }
    }

    /// The next batch.
    pub fn next_batch(&mut self) -> (batch: Option<(u64, u64)>)
        ensures
            match batch {
                None => old(self).remaining().len() == 0 && *final(self) == *old(self),
                Some(batch) => {
                    &&& old(self).remaining().len() > 0
                    &&& batch == old(self).remaining()[0]
                    &&& final(self).remaining() == old(self).remaining().skip(1)
                },
            },
    {
        if self.next >= self.end {
            return None;
        }
        let start: u64 = self.next;
        let sum: u64 = start.saturating_add(WRITE_BATCH);
        let stop: u64 = if sum < self.end {
            sum
        } else {
            self.end
        };
        assert(batch_from(start, self.end) == Some((start, stop)));
        assert((seq![(start, stop)] + batches_from(stop, self.end)).skip(1) =~= batches_from(
            stop,
            self.end,
        ));
        self.next = stop;
        Some((start, stop))
    }
}

/// The batches of a range follow one another without gap or overlap from its
/// start to its end, none is empty, and none is larger than one command takes.
pub proof fn law_batches_cover_values(start: u64, end: u64)
    ensures
        ({
            let list = batches_from(start, end);
            &&& list.len() == 0 <==> start >= end
            &&& list.len() > 0 ==> list[0].0 == start && list.last().1 == end
            &&& forall|i: int|
                0 <= i < list.len() ==> (#[trigger] list[i]).0 < list[i].1 && list[i].1 - list[i].0
                    <= WRITE_BATCH
            &&& forall|i: int, j: int|
                0 <= i < list.len() && j == i + 1 && j < list.len() ==> (#[trigger] list[j]).0 == (
                #[trigger] list[i]).1
        }),
    decreases end - start,
{
    if start < end {
        let batch = batch_from(start, end)->0;
        let rest = batches_from(batch.1, end);
        law_batches_cover_values(batch.1, end);
        let list = batches_from(start, end);
        assert(list =~= seq![batch] + rest);
        assert forall|i: int| 0 <= i < list.len() implies (#[trigger] list[i]).0 < list[i].1
            && list[i].1 - list[i].0 <= WRITE_BATCH by {
            if i > 0 {
                assert(list[i] == rest[i - 1]);
            }
        }
        assert forall|i: int, j: int|
            0 <= i < list.len() && j == i + 1 && j < list.len() implies (#[trigger] list[j]).0 == (
        #[trigger] list[i]).1 by {
            assert(list[j] == rest[j - 1]);
            if i > 0 {
                assert(list[i] == rest[i - 1]);
            }
        }
        if rest.len() > 0 {
            assert(list.last() == rest.last());
        }
    }
}

/// A fact whose entity and value are named after one number.
pub open spec fn numbered_row(prefix: Seq<char>, middle: Seq<char>, value: u64) -> Seq<char> {
    prefix + decimal(value as nat) + middle + decimal(value as nat) + "]"@
}

/// The facts of a range of numbers, one after the other.
pub open spec fn numbered_rows(
    prefix: Seq<char>,
    middle: Seq<char>,
    start: u64,
    end: int,
) -> Seq<char>
    decreases end - start,
{
    if end <= start {
        Seq::empty()
    } else {
        numbered_rows(prefix, middle, start, end - 1) + numbered_row(
            prefix,
            middle,
            (end - 1) as u64,
        )
    }
}

/// The command that writes the facts of a range of numbers.
pub open spec fn numbered_command(
    prefix: Seq<char>,
    middle: Seq<char>,
    start: u64,
    end: u64,
) -> Seq<char> {
    "(transact ["@ + numbered_rows(prefix, middle, start, end as int) + "])"@
}

fn write_numbered(prefix: &str, middle: &str, start: u64, end: u64) -> (command: String)
    ensures
        command@ == numbered_command(prefix@, middle@, start, end),
{
    let mut command = String::new();
    command.append("(transact [");
    let mut value: u64 = start;
    assert(command@ =~= "(transact ["@ + numbered_rows(prefix@, middle@, start, start as int));
    while value < end
        invariant
            start <= value,
            value <= end || value == start,
            command@ == "(transact ["@ + numbered_rows(prefix@, middle@, start, value as int),
        decreases end - value,
    {
        let ghost before = command@;
        command.append(prefix);
        push_decimal(&mut command, value);
        command.append(middle);
        push_decimal(&mut command, value);
        command.append("]");
        assert(command@ =~= before + numbered_row(prefix@, middle@, value));
        assert(command@ =~= "(transact ["@ + numbered_rows(prefix@, middle@, start, value + 1));
        value = value + 1;
    }
    assert(numbered_rows(prefix@, middle@, start, value as int) =~= numbered_rows(
        prefix@,
        middle@,
        start,
        end as int,
    ));
    command.append("])");
    command
}

/// The graphs whose facts are named after numbers.
#[derive(Clone, Copy, Debug, PartialEq, Eq, Structural)]
pub enum NumberedGraph {
    /// Memory retention.
    Retention,
    /// Checkpoint construction: the committed facts.
    CheckpointBase,
    /// Checkpoint construction: the pending facts.
    CheckpointPending,
    /// Leaf reads.
    Leaf,
    /// Storage layout.
    Layout,
}

/// What stands in front of the first number of a fact.
pub open spec fn graph_prefix(graph: NumberedGraph) -> Seq<char> {
    match graph {
        NumberedGraph::Retention => "[:retention/e"@,
        NumberedGraph::CheckpointBase => "[:checkpoint/e"@,
        NumberedGraph::CheckpointPending => "[:checkpoint/p"@,
        NumberedGraph::Leaf => "[:leaf/e"@,
        NumberedGraph::Layout => "[:layout/e"@,
    }
}

/// What stands between the numbers of a fact.
pub open spec fn graph_middle(graph: NumberedGraph) -> Seq<char> {
    match graph {
        NumberedGraph::Retention => " :retention/value "@,
        NumberedGraph::CheckpointBase => " :checkpoint/value "@,
        NumberedGraph::CheckpointPending => " :checkpoint/pending "@,
        NumberedGraph::Leaf => " :leaf/value "@,
        NumberedGraph::Layout => " :layout/value "@,
    }
}

/// Write the command for one batch of a graph.
pub fn graph_command(graph: NumberedGraph, start: u64, end: u64) -> (command: String)
    ensures
        command@ == numbered_command(graph_prefix(graph), graph_middle(graph), start, end),
{
    match graph {
        NumberedGraph::Retention => write_numbered(
            "[:retention/e",
            " :retention/value ",
            start,
            end,
        ),
        NumberedGraph::CheckpointBase => write_numbered(
            "[:checkpoint/e",
            " :checkpoint/value ",
            start,
            end,
        ),
        NumberedGraph::CheckpointPending => write_numbered(
            "[:checkpoint/p",
            " :checkpoint/pending ",
            start,
            end,
        ),
        NumberedGraph::Leaf => write_numbered("[:leaf/e", " :leaf/value ", start, end),
        NumberedGraph::Layout => write_numbered("[:layout/e", " :layout/value ", start, end),
    }
}

/// Write the command for one batch of an isolation graph: entities of a
/// namespace, values of an attribute.
pub fn isolation_command(namespace: &str, attribute: &str, start: u64, end: u64) -> (command:
    String)
    ensures
        command@ == numbered_command(
            "[:iso/"@ + namespace@,
            " "@ + attribute@ + " "@,
            start,
            end,
        ),
{
    let mut prefix = String::new();
    prefix.append("[:iso/");
    prefix.append(namespace);
    assert(prefix@ =~= "[:iso/"@ + namespace@);
    let mut middle = String::new();
    middle.append(" ");
    middle.append(attribute);
    middle.append(" ");
    assert(middle@ =~= " "@ + attribute@ + " "@);
    write_numbered(prefix.as_str(), middle.as_str(), start, end)
}

/// Writing two adjoining ranges writes the facts of the joined range.
pub proof fn law_ranges_join(
    prefix: Seq<char>,
    middle: Seq<char>,
    start: u64,
    split: u64,
    end: u64,
)
    requires
        start <= split <= end,
    ensures
        numbered_rows(prefix, middle, start, split as int) + numbered_rows(
            prefix,
            middle,
            split,
            end as int,
        ) == numbered_rows(prefix, middle, start, end as int),
    decreases end - split,
{
    if split == end {
        assert(numbered_rows(prefix, middle, start, split as int) + numbered_rows(
            prefix,
            middle,
            split,
            end as int,
        ) =~= numbered_rows(prefix, middle, start, end as int));
    } else {
        law_ranges_join(prefix, middle, start, split, (end - 1) as u64);
        assert(numbered_rows(prefix, middle, start, split as int) + numbered_rows(
            prefix,
            middle,
            split,
            end as int,
        ) =~= numbered_rows(prefix, middle, start, end as int));
    }
}

/// The entity of a projection fact.
pub open spec fn projection_entity(value: u64) -> u128 {
    (value + 1) as u128
}

/// A projection fact: an identified entity with a number.
pub open spec fn projection_row(value: u64) -> Seq<char> {
    "[#uuid \""@ + entity_text(projection_entity(value)) + "\" :projection/value "@ + decimal(
        value as nat,
    ) + "]"@
}

/// The projection facts of a range of numbers.
pub open spec fn projection_rows(start: u64, end: int) -> Seq<char>
    decreases end - start,
{
    if end <= start {
        Seq::empty()
    } else {
        projection_rows(start, end - 1) + projection_row((end - 1) as u64)
    }
}

/// Write the command for one batch of a projection graph.
pub fn projection_command(start: u64, end: u64) -> (command: String)
    ensures
        command@ == "(transact ["@ + projection_rows(start, end as int) + "])"@,
{
    let mut command = String::new();
    command.append("(transact [");
    let mut value: u64 = start;
    assert(command@ =~= "(transact ["@ + projection_rows(start, start as int));
    while value < end
        invariant
            start <= value,
            value <= end || value == start,
            command@ == "(transact ["@ + projection_rows(start, value as int),
        decreases end - value,
    {
        let ghost before = command@;
        let entity: u128 = value as u128 + 1;
        command.append("[#uuid \"");
        command.append(render_entity_id(entity).as_str());
        command.append("\" :projection/value ");
        push_decimal(&mut command, value);
        command.append("]");
        assert(command@ =~= before + projection_row(value));
        assert(command@ =~= "(transact ["@ + projection_rows(start, value + 1));
        value = value + 1;
    }
    assert(projection_rows(start, value as int) =~= projection_rows(start, end as int));
    command.append("])");
    command
}

/// The identifier of the source entity number `index`.
pub open spec fn source_entity(index: usize) -> u128 {
    (index + 1) as u128
}

/// The identifier of the target entity number `index`: the source's, with the
/// highest bit set.
pub open spec fn target_entity(index: usize) -> u128 {
    (0x8000_0000_0000_0000_0000_0000_0000_0000 + index + 1) as u128
}

/// The identifier of a source entity.
pub fn source_id(index: usize) -> (id: u128)
    ensures
        id == source_entity(index),
{
    index as u128 + 1
}

/// The identifier of a target entity.
pub fn target_id(index: usize) -> (id: u128)
    ensures
        id == target_entity(index),
        id == (1u128 << 127u32) | source_entity(index),
{
    let low: u128 = index as u128 + 1;
    let id: u128 = 0x8000_0000_0000_0000_0000_0000_0000_0000 + low;
    assert(0x8000_0000_0000_0000_0000_0000_0000_0000u128 + low == (1u128 << 127u32) | low)
        by (bit_vector)
        requires
            low <= 0x1_0000_0000_0000_0000u128,
    ;
    id
}

/// No two entities of a reference graph share an identifier.
pub proof fn law_reference_entities_are_distinct(i: usize, j: usize)
    ensures
        i != j ==> source_entity(i) != source_entity(j),
        i != j ==> target_entity(i) != target_entity(j),
        source_entity(i) != target_entity(j),
{
}

/// A reference fact: a source entity that refers to its target.
pub open spec fn reference_row(index: usize) -> Seq<char> {
    "[#uuid \""@ + entity_text(source_entity(index)) + "\" :bench/ref #uuid \""@ + entity_text(
        target_entity(index),
    ) + "\"]"@
}

/// The reference facts of a range of numbers.
pub open spec fn reference_rows(start: usize, end: int) -> Seq<char>
    decreases end - start,
{
    if end <= start {
        Seq::empty()
    } else {
        reference_rows(start, end - 1) + reference_row((end - 1) as usize)
    }
}

/// Write the command for one batch of a reference graph.
pub fn reference_command(start: usize, end: usize) -> (command: String)
    ensures
        command@ == "(transact ["@ + reference_rows(start, end as int) + "])"@,
{
    let mut command = String::new();
    command.append("(transact [");
    let mut index: usize = start;
    assert(command@ =~= "(transact ["@ + reference_rows(start, start as int));
    while index < end
        invariant
            start <= index,
            index <= end || index == start,
            command@ == "(transact ["@ + reference_rows(start, index as int),
        decreases end - index,
    {
        let ghost before = command@;
        command.append("[#uuid \"");
        command.append(render_entity_id(source_id(index)).as_str());
        command.append("\" :bench/ref #uuid \"");
        command.append(render_entity_id(target_id(index)).as_str());
        command.append("\"]");
        assert(command@ =~= before + reference_row(index));
        assert(command@ =~= "(transact ["@ + reference_rows(start, index + 1));
        index = index + 1;
    }
    assert(reference_rows(start, index as int) =~= reference_rows(start, end as int));
    command.append("])");
    command
}

} // verus!
