//! How full pages should be: what is compared, in which order, and which fill
//! is chosen. `E` is a measured duration and `L` a layout report: both are
//! carried along and never looked at.

use vstd::prelude::*;

verus! {

/// Number of fills that are compared.
pub const FILL_COUNT: usize = 5;

/// The fill that the others are compared with.
pub const BASELINE_FILL: u8 = 75;

/// The fills that are compared, in percent.
pub open spec fn fill_list() -> Seq<u8> {
    seq![75u8, 85, 90, 95, 100]
}

/// The fills that are compared, in percent.
pub fn fills() -> (list: [u8; 5])
    ensures
        list@ == fill_list(),
{
    [75, 85, 90, 95, 100]
}

/// The fills of one repetition, in the order in which they run.
pub open spec fn rotated_fills(repetition: int) -> Seq<u8> {
    Seq::new(FILL_COUNT as nat, |offset: int| fill_list()[(repetition + offset) % 5])
}

/// The lists of a list.
pub open spec fn lists_of(orders: Seq<Vec<u8>>) -> Seq<Seq<u8>> {
    Seq::new(orders.len(), |i: int| orders[i]@)
}

/// The orders of all repetitions.
pub fn rotated_orders(repetitions: usize) -> (orders: Vec<Vec<u8>>)
    ensures
        lists_of(orders@) == Seq::new(repetitions as nat, |i: int| rotated_fills(i)),
{
    let list = fills();
    let mut orders: Vec<Vec<u8>> = Vec::new();
    let mut repetition: usize = 0;
    while repetition < repetitions
        invariant
            repetition <= repetitions,
            list@ == fill_list(),
            orders@.len() == repetition,
            forall|i: int| 0 <= i < repetition ==> (#[trigger] orders@[i])@ == rotated_fills(i),
        decreases repetitions - repetition,
    {
        let start: usize = repetition % 5;
        let mut order: Vec<u8> = Vec::new();
        let mut offset: usize = 0;
        while offset < FILL_COUNT
            invariant
                offset <= FILL_COUNT,
                start == repetition % 5,
                list@ == fill_list(),
                order@.len() == offset,
                forall|i: int|
                    0 <= i < offset ==> #[trigger] order@[i] == fill_list()[(repetition + i) % 5],
            decreases FILL_COUNT - offset,
        {
            assert((start + offset) % 5 == (repetition + offset) % 5);
            order.push(list[(start + offset) % 5]);
            offset += 1;
        }
        assert(order@ =~= rotated_fills(repetition as int));
        orders.push(order);
        repetition += 1;
    }
    assert(lists_of(orders@) =~= Seq::new(repetitions as nat, |i: int| rotated_fills(i)));
    orders
}

/// Every repetition runs each fill once, and starts one further than the
/// repetition before.
pub proof fn law_order_rotates_once_per_repetition(repetition: int)
    requires
        repetition >= 0,
    ensures
        rotated_fills(repetition).len() == FILL_COUNT,
        rotated_fills(repetition)[0] == fill_list()[repetition % 5],
        forall|fill: u8|
            fill_list().contains(fill) <==> #[trigger] rotated_fills(repetition).contains(fill),
        rotated_fills(repetition).no_duplicates(),
        rotated_fills(repetition + 1) == rotated_fills(repetition).skip(1).push(
            rotated_fills(repetition)[0],
        ),
{
    let order = rotated_fills(repetition);
    let list = fill_list();
    assert forall|fill: u8| list.contains(fill) <==> #[trigger] order.contains(fill) by {
        if list.contains(fill) {
            let k = choose|k: int| 0 <= k < 5 && list[k] == fill;
            let offset = (k - repetition) % 5;
            assert((repetition + offset) % 5 == k);
            assert(order[offset] == fill);
        }
        if order.contains(fill) {
            let offset = choose|offset: int| 0 <= offset < 5 && order[offset] == fill;
            assert(list[(repetition + offset) % 5] == fill);
        }
    }
    assert forall|i: int, j: int| 0 <= i < j < 5 implies order[i] != order[j] by {
        assert((repetition + i) % 5 != (repetition + j) % 5);
    }
    let next = rotated_fills(repetition + 1);
    assert((repetition + 5) % 5 == repetition % 5);
    assert forall|i: int| 0 <= i < 5 implies next[i] == order.skip(1).push(order[0])[i] by {
        if i < 4 {
            assert(repetition + 1 + i == repetition + (i + 1));
        }
    }
    assert(next =~= order.skip(1).push(order[0]));
}

/// Why a comparison was given up.
#[derive(Clone, Copy, Debug, PartialEq, Eq, Structural)]
pub enum LayoutError {
    /// The fill is none of those that are compared.
    UnknownFill,
    /// A fill has no checkpoint samples.
    CheckpointSampleMissing,
    /// The checkpoints of one fill differ in size.
    GraphSizesDiffer,
    /// A fill has no query samples.
    QuerySampleMissing,
    /// The queries of one fill differ in their answers.
    QueryResultsDiffer,
    /// The fill to compare with is missing.
    BaselineMissing,
}

impl LayoutError {
    /// Render this error for a caller.
    pub fn message(&self) -> (text: &'static str)
        ensures
            text@ == match *self {
                LayoutError::UnknownFill => "unknown fill candidate"@,
                LayoutError::CheckpointSampleMissing => "missing checkpoint sample"@,
                LayoutError::GraphSizesDiffer =>
                    "checkpoint samples produced different graph sizes"@,
                LayoutError::QuerySampleMissing => "missing query sample"@,
                LayoutError::QueryResultsDiffer => "query samples produced different results"@,
                LayoutError::BaselineMissing => "missing fill-75 baseline"@,
            },
    {
        match self {
            LayoutError::UnknownFill => "unknown fill candidate",
            LayoutError::CheckpointSampleMissing => "missing checkpoint sample",
            LayoutError::GraphSizesDiffer => "checkpoint samples produced different graph sizes",
            LayoutError::QuerySampleMissing => "missing query sample",
            LayoutError::QueryResultsDiffer => "query samples produced different results",
            LayoutError::BaselineMissing => "missing fill-75 baseline",
        }
    }
}

/// The place of a fill among those that are compared.
pub fn fill_index(fill: u8) -> (result: Result<usize, LayoutError>)
    ensures
        match result {
            Ok(place) => place < FILL_COUNT && fill_list()[place as int] == fill,
            Err(error) => error == LayoutError::UnknownFill && !fill_list().contains(fill),
        },
{
    let list = fills();
    let mut place: usize = 0;
    while place < FILL_COUNT
        invariant
            place <= FILL_COUNT,
            list@ == fill_list(),
            forall|i: int| 0 <= i < place ==> fill_list()[i] != fill,
        decreases FILL_COUNT - place,
    {
        if list[place] == fill {
            return Ok(place);
        }
        place += 1;
    }
    Err(LayoutError::UnknownFill)
}

/// Samples by fill, each fill's in the order in which they were taken.
pub struct SampleTable<S> {
    groups: Vec<Vec<S>>,
}

impl<S> View for SampleTable<S> {
    type V = Seq<Seq<S>>;

    closed spec fn view(&self) -> Seq<Seq<S>> {
        Seq::new(self.groups@.len(), |i: int| self.groups@[i]@)
    }
}

impl<S> SampleTable<S> {
    /// No samples yet.
    pub fn new() -> (table: Self)
        ensures
            table@ == Seq::new(FILL_COUNT as nat, |i: int| Seq::<S>::empty()),
    {
        let mut groups: Vec<Vec<S>> = Vec::new();
        groups.push(Vec::new());
        groups.push(Vec::new());
        groups.push(Vec::new());
        groups.push(Vec::new());
        groups.push(Vec::new());
        let table = SampleTable { groups };
        assert(table@ =~= Seq::new(FILL_COUNT as nat, |i: int| Seq::<S>::empty()));
        table
    }

    /// Add a sample of a fill. One of an unknown fill is refused.
    pub fn add(&mut self, fill: u8, sample: S) -> (result: Result<(), LayoutError>)
        requires
            old(self)@.len() == FILL_COUNT,
        ensures
            match result {
                Ok(_) => exists|place: int|
                    0 <= place < FILL_COUNT && fill_list()[place] == fill && final(self)@ == (
                    #[trigger] old(self)@.update(place, old(self)@[place].push(sample))),
                Err(error) => {
                    &&& error == LayoutError::UnknownFill
                    &&& !fill_list().contains(fill)
                    &&& final(self)@ == old(self)@
                },
            },
            final(self)@.len() == FILL_COUNT,
    {
        let place: usize = match fill_index(fill) {
            Ok(place) => place,
            Err(error) => return Err(error),
        };
        let mut group = self.groups.remove(place);
        group.push(sample);
        self.groups.insert(place, group);
        assert(self@ =~= old(self)@.update(place as int, old(self)@[place as int].push(sample)));
        Ok(())
    }

    /// Hand the samples out, fill by fill.
    pub fn into_groups(self) -> (groups: Vec<Vec<S>>)
        ensures
            groups@.len() == self@.len(),
            forall|i: int| 0 <= i < self@.len() ==> (#[trigger] groups@[i])@ == self@[i],
    {
        self.groups
    }
}

/// What one checkpoint recorded.
#[derive(Debug)]
pub struct CheckpointSample<E, L> {
    /// How long it took.
    pub elapsed: E,
    /// Resident memory before.
    pub baseline_rss_bytes: u64,
    /// Its peak.
    pub peak_rss_bytes: u64,
    /// How far the peak lies above the start.
    pub delta_rss_bytes: u64,
    /// Bytes of the graph file.
    pub graph_bytes: u64,
    /// Layout of the graph file.
    pub layout: L,
}

/// What the checkpoints of one fill recorded.
#[derive(Debug)]
pub struct CheckpointMeasurement<E, L> {
    /// Durations.
    pub elapsed_samples: Vec<E>,
    /// Resident memory before each.
    pub baseline_rss_samples_bytes: Vec<u64>,
    /// Its peaks.
    pub peak_rss_samples_bytes: Vec<u64>,
    /// How far each peak lies above its start.
    pub delta_rss_samples_bytes: Vec<u64>,
    /// Bytes of the graph file.
    pub graph_bytes: u64,
    /// Layout of the last graph file.
    pub layout: L,
}

/// Join the checkpoints of one fill. All have to give files of one size; the
/// layout is that of the last one.
pub fn combine_checkpoint_samples<E, L>(samples: Vec<CheckpointSample<E, L>>) -> (result: Result<
    CheckpointMeasurement<E, L>,
    LayoutError,
>)
    ensures
        match result {
            Ok(joined) => {
                &&& samples@.len() > 0
                &&& joined.elapsed_samples@ == Seq::new(
                    samples@.len(),
                    |i: int| samples@[i].elapsed,
                )
                &&& joined.baseline_rss_samples_bytes@ == Seq::new(
                    samples@.len(),
                    |i: int| samples@[i].baseline_rss_bytes,
                )
                &&& joined.peak_rss_samples_bytes@ == Seq::new(
                    samples@.len(),
                    |i: int| samples@[i].peak_rss_bytes,
                )
                &&& joined.delta_rss_samples_bytes@ == Seq::new(
                    samples@.len(),
                    |i: int| samples@[i].delta_rss_bytes,
                )
                &&& joined.graph_bytes == samples@.last().graph_bytes
                &&& joined.layout == samples@.last().layout
                &&& forall|i: int|
                    0 <= i < samples@.len() ==> (#[trigger] samples@[i]).graph_bytes
                        == samples@.last().graph_bytes
            },
            Err(LayoutError::CheckpointSampleMissing) => samples@.len() == 0,
            Err(error) => {
                &&& error == LayoutError::GraphSizesDiffer
                &&& exists|i: int|
                    0 <= i < samples@.len() && (#[trigger] samples@[i]).graph_bytes
                        != samples@.last().graph_bytes
            },
        },
{
    let mut rest = samples;
    let last = match rest.pop() {
        Some(last) => last,
        None => return Err(LayoutError::CheckpointSampleMissing),
    };
    assert(last == samples@.last());
    let mut elapsed_samples: Vec<E> = Vec::new();
    let mut baseline_rss_samples_bytes: Vec<u64> = Vec::new();
    let mut peak_rss_samples_bytes: Vec<u64> = Vec::new();
    let mut delta_rss_samples_bytes: Vec<u64> = Vec::new();
    let ghost front = rest@;
    for sample in it: rest
        invariant
            it.seq() == front,
            front == samples@.drop_last(),
            samples@.len() > 0,
            last == samples@.last(),
            elapsed_samples@ == Seq::new(it.index() as nat, |i: int| samples@[i].elapsed),
            baseline_rss_samples_bytes@ == Seq::new(
                it.index() as nat,
                |i: int| samples@[i].baseline_rss_bytes,
            ),
            peak_rss_samples_bytes@ == Seq::new(
                it.index() as nat,
                |i: int| samples@[i].peak_rss_bytes,
            ),
            delta_rss_samples_bytes@ == Seq::new(
                it.index() as nat,
                |i: int| samples@[i].delta_rss_bytes,
            ),
            forall|i: int|
                0 <= i < it.index() ==> (#[trigger] samples@[i]).graph_bytes == last.graph_bytes,
    {
        assert(sample == samples@[it.index()]);
        if sample.graph_bytes != last.graph_bytes {
            assert(samples@[it.index()].graph_bytes != samples@.last().graph_bytes);
            return Err(LayoutError::GraphSizesDiffer);
        }
        let ghost n = it.index();
        elapsed_samples.push(sample.elapsed);
        baseline_rss_samples_bytes.push(sample.baseline_rss_bytes);
        peak_rss_samples_bytes.push(sample.peak_rss_bytes);
        delta_rss_samples_bytes.push(sample.delta_rss_bytes);
        assert(elapsed_samples@ =~= Seq::new((n + 1) as nat, |i: int| samples@[i].elapsed));
        assert(baseline_rss_samples_bytes@ =~= Seq::new(
            (n + 1) as nat,
            |i: int| samples@[i].baseline_rss_bytes,
        ));
        assert(peak_rss_samples_bytes@ =~= Seq::new(
            (n + 1) as nat,
            |i: int| samples@[i].peak_rss_bytes,
        ));
        assert(delta_rss_samples_bytes@ =~= Seq::new(
            (n + 1) as nat,
            |i: int| samples@[i].delta_rss_bytes,
        ));
    }
    elapsed_samples.push(last.elapsed);
    baseline_rss_samples_bytes.push(last.baseline_rss_bytes);
    peak_rss_samples_bytes.push(last.peak_rss_bytes);
    delta_rss_samples_bytes.push(last.delta_rss_bytes);
    assert(elapsed_samples@ =~= Seq::new(samples@.len(), |i: int| samples@[i].elapsed));
    assert(baseline_rss_samples_bytes@ =~= Seq::new(
        samples@.len(),
        |i: int| samples@[i].baseline_rss_bytes,
    ));
    assert(peak_rss_samples_bytes@ =~= Seq::new(
        samples@.len(),
        |i: int| samples@[i].peak_rss_bytes,
    ));
    assert(delta_rss_samples_bytes@ =~= Seq::new(
        samples@.len(),
        |i: int| samples@[i].delta_rss_bytes,
    ));
    Ok(
        CheckpointMeasurement {
            elapsed_samples,
            baseline_rss_samples_bytes,
            peak_rss_samples_bytes,
            delta_rss_samples_bytes,
            graph_bytes: last.graph_bytes,
            layout: last.layout,
        },
    )
}

/// What one round of queries recorded.
#[derive(Debug)]
pub struct QuerySample<E> {
    /// How long the point query took.
    pub point: E,
    /// How long the aggregate took.
    pub aggregate: E,
    /// Facts counted.
    pub count: u64,
    /// Sum of their values.
    pub checksum: i128,
    /// Resident memory before.
    pub baseline_rss_bytes: u64,
    /// Its peak.
    pub peak_rss_bytes: u64,
    /// How far the peak lies above the start.
    pub delta_rss_bytes: u64,
}

/// What the queries of one fill recorded.
#[derive(Debug)]
pub struct QueryMeasurement<E> {
    /// Durations of the point queries.
    pub point_samples: Vec<E>,
    /// Durations of the aggregates.
    pub aggregate_samples: Vec<E>,
    /// Facts counted.
    pub count: u64,
    /// Sum of their values.
    pub checksum: i128,
    /// Resident memory before each.
    pub baseline_rss_samples_bytes: Vec<u64>,
    /// Its peaks.
    pub peak_rss_samples_bytes: Vec<u64>,
    /// How far each peak lies above its start.
    pub delta_rss_samples_bytes: Vec<u64>,
}

/// Whether a round of queries gave an answer.
pub open spec fn answers<E>(sample: QuerySample<E>, count: u64, checksum: i128) -> bool {
    sample.count == count && sample.checksum == checksum
}

/// Join the queries of one fill. All have to give the same answer.
pub fn combine_query_samples<E>(samples: Vec<QuerySample<E>>) -> (result: Result<
    QueryMeasurement<E>,
    LayoutError,
>)
    ensures
        match result {
            Ok(joined) => {
                &&& samples@.len() > 0
                &&& forall|i: int|
                    0 <= i < samples@.len() ==> answers(
                        #[trigger] samples@[i],
                        joined.count,
                        joined.checksum,
                    )
                &&& joined.point_samples@ == Seq::new(samples@.len(), |i: int| samples@[i].point)
                &&& joined.aggregate_samples@ == Seq::new(
                    samples@.len(),
                    |i: int| samples@[i].aggregate,
                )
                &&& joined.baseline_rss_samples_bytes@ == Seq::new(
                    samples@.len(),
                    |i: int| samples@[i].baseline_rss_bytes,
                )
                &&& joined.peak_rss_samples_bytes@ == Seq::new(
                    samples@.len(),
                    |i: int| samples@[i].peak_rss_bytes,
                )
                &&& joined.delta_rss_samples_bytes@ == Seq::new(
                    samples@.len(),
                    |i: int| samples@[i].delta_rss_bytes,
                )
            },
            Err(LayoutError::QuerySampleMissing) => samples@.len() == 0,
            Err(error) => {
                &&& error == LayoutError::QueryResultsDiffer
                &&& exists|i: int|
                    0 <= i < samples@.len() && !answers(
                        #[trigger] samples@[i],
                        samples@[0].count,
                        samples@[0].checksum,
                    )
            },
        },
{
    if samples.len() == 0 {
        return Err(LayoutError::QuerySampleMissing);
    }
    let count: u64 = samples[0].count;
    let checksum: i128 = samples[0].checksum;
    let ghost all = samples@;
    let mut point_samples: Vec<E> = Vec::new();
    let mut aggregate_samples: Vec<E> = Vec::new();
    let mut baseline_rss_samples_bytes: Vec<u64> = Vec::new();
    let mut peak_rss_samples_bytes: Vec<u64> = Vec::new();
    let mut delta_rss_samples_bytes: Vec<u64> = Vec::new();
    for sample in it: samples
        invariant
            it.seq() == all,
            all == samples@,
            all.len() > 0,
            count == all[0].count,
            checksum == all[0].checksum,
            point_samples@ == Seq::new(it.index() as nat, |i: int| all[i].point),
            aggregate_samples@ == Seq::new(it.index() as nat, |i: int| all[i].aggregate),
            baseline_rss_samples_bytes@ == Seq::new(
                it.index() as nat,
                |i: int| all[i].baseline_rss_bytes,
            ),
            peak_rss_samples_bytes@ == Seq::new(it.index() as nat, |i: int| all[i].peak_rss_bytes),
            delta_rss_samples_bytes@ == Seq::new(
                it.index() as nat,
                |i: int| all[i].delta_rss_bytes,
            ),
            forall|i: int|
                0 <= i < it.index() ==> answers(#[trigger] all[i], count, checksum),
    {
        assert(sample == all[it.index()]);
        if sample.count != count || sample.checksum != checksum {
            assert(!answers(all[it.index()], all[0].count, all[0].checksum));
            return Err(LayoutError::QueryResultsDiffer);
        }
        let ghost n = it.index();
        point_samples.push(sample.point);
        aggregate_samples.push(sample.aggregate);
        baseline_rss_samples_bytes.push(sample.baseline_rss_bytes);
        peak_rss_samples_bytes.push(sample.peak_rss_bytes);
        delta_rss_samples_bytes.push(sample.delta_rss_bytes);
        assert(point_samples@ =~= Seq::new((n + 1) as nat, |i: int| all[i].point));
        assert(aggregate_samples@ =~= Seq::new((n + 1) as nat, |i: int| all[i].aggregate));
        assert(baseline_rss_samples_bytes@ =~= Seq::new(
            (n + 1) as nat,
            |i: int| all[i].baseline_rss_bytes,
        ));
        assert(peak_rss_samples_bytes@ =~= Seq::new((n + 1) as nat, |i: int| all[i].peak_rss_bytes));
        assert(delta_rss_samples_bytes@ =~= Seq::new(
            (n + 1) as nat,
            |i: int| all[i].delta_rss_bytes,
        ));
    }
    Ok(
        QueryMeasurement {
            point_samples,
            aggregate_samples,
            count,
            checksum,
            baseline_rss_samples_bytes,
            peak_rss_samples_bytes,
            delta_rss_samples_bytes,
        },
    )
}

/// The gates of one fill.
#[derive(Clone, Copy, Debug, PartialEq, Eq, Structural)]
pub struct CandidateGates {
    /// The graph file is at least a tenth smaller.
    pub size: bool,
    /// Checkpoints are about as fast.
    pub checkpoint: bool,
    /// Point queries are about as fast.
    pub point: bool,
    /// Aggregates are about as fast.
    pub aggregate: bool,
    /// Memory is about the same.
    pub rss: bool,
    /// All of these hold.
    pub passed: bool,
}

/// Every gate shut.
pub fn empty_gates() -> (gates: CandidateGates)
    ensures
        gates == (CandidateGates {
            size: false,
            checkpoint: false,
            point: false,
            aggregate: false,
            rss: false,
            passed: false,
        }),
{
    CandidateGates {
        size: false,
        checkpoint: false,
        point: false,
        aggregate: false,
        rss: false,
        passed: false,
    }
}

/// A multiple that stops at the largest number.
pub open spec fn capped_multiple(bytes: u64, factor: int) -> u64 {
    if bytes * factor > u64::MAX {
        u64::MAX
    } else {
        (bytes * factor) as u64
    }
}

/// Whether a graph file is at least a tenth smaller than the one it is
/// compared with.
pub open spec fn size_gate(graph_bytes: u64, baseline_bytes: u64) -> bool {
    capped_multiple(graph_bytes, 10) <= capped_multiple(baseline_bytes, 9)
}

fn multiple(bytes: u64, factor: u64) -> (product: u64)
    ensures
        product == capped_multiple(bytes, factor as int),
{
    match bytes.checked_mul(factor) {
        Some(product) => product,
        None => 0xFFFF_FFFF_FFFF_FFFF,
    }
}

/// Judge one fill. `latency` is the judgement on the durations of checkpoints,
/// point queries and aggregates, `rss` the one on memory.
pub fn judge_candidate(
    graph_bytes: u64,
    baseline_bytes: u64,
    latency: (bool, bool, bool),
    rss: bool,
) -> (gates: CandidateGates)
    ensures
        gates == (CandidateGates {
            size: size_gate(graph_bytes, baseline_bytes),
            checkpoint: latency.0,
            point: latency.1,
            aggregate: latency.2,
            rss,
            passed: size_gate(graph_bytes, baseline_bytes) && latency.0 && latency.1 && latency.2
                && rss,
        }),
{
    let size = multiple(graph_bytes, 10) <= multiple(baseline_bytes, 9);
    let (checkpoint, point, aggregate) = latency;
    CandidateGates {
        size,
        checkpoint,
        point,
        aggregate,
        rss,
        passed: size && checkpoint && point && aggregate && rss,
    }
}

/// Find the fill that the others are compared with.
pub fn baseline_index(fill_percents: &Vec<u8>) -> (result: Result<usize, LayoutError>)
    ensures
        match result {
            Ok(place) => {
                &&& place < fill_percents@.len()
                &&& fill_percents@[place as int] == BASELINE_FILL
                &&& forall|i: int| 0 <= i < place ==> fill_percents@[i] != BASELINE_FILL
            },
            Err(error) => error == LayoutError::BaselineMissing && !fill_percents@.contains(
                BASELINE_FILL,
            ),
        },
{
    let mut place: usize = 0;
    while place < fill_percents.len()
        invariant
            place <= fill_percents.len(),
            forall|i: int| 0 <= i < place ==> fill_percents@[i] != BASELINE_FILL,
        decreases fill_percents.len() - place,
    {
        if fill_percents[place] == BASELINE_FILL {
            return Ok(place);
        }
        place += 1;
    }
    Err(LayoutError::BaselineMissing)
}

/// A judged fill.
#[derive(Clone, Copy, Debug, PartialEq, Eq, Structural)]
pub struct JudgedFill {
    /// The fill.
    pub fill_percent: u8,
    /// Its gates.
    pub gates: CandidateGates,
}

/// Whether a fill can be chosen: it is fuller than the one it is compared
/// with, and passed.
pub open spec fn selectable(candidate: JudgedFill) -> bool {
    candidate.fill_percent > BASELINE_FILL && candidate.gates.passed
}

/// Choose the fullest fill that passed.
pub fn select_fill(candidates: &Vec<JudgedFill>) -> (selected: Option<u8>)
    ensures
        match selected {
            Some(fill) => {
                &&& exists|i: int|
                    0 <= i < candidates@.len() && selectable(#[trigger] candidates@[i])
                        && candidates@[i].fill_percent == fill
                &&& forall|i: int|
                    0 <= i < candidates@.len() && selectable(#[trigger] candidates@[i])
                        ==> candidates@[i].fill_percent <= fill
            },
            None => forall|i: int|
                0 <= i < candidates@.len() ==> !selectable(#[trigger] candidates@[i]),
        },
{
    let mut selected: Option<u8> = None;
    let mut i: usize = 0;
    while i < candidates.len()
        invariant
            i <= candidates.len(),
            match selected {
                Some(fill) => {
                    &&& exists|j: int|
                        0 <= j < i && selectable(#[trigger] candidates@[j])
                            && candidates@[j].fill_percent == fill
                    &&& forall|j: int|
                        0 <= j < i && selectable(#[trigger] candidates@[j])
                            ==> candidates@[j].fill_percent <= fill
                },
                None => forall|j: int| 0 <= j < i ==> !selectable(#[trigger] candidates@[j]),
            },
        decreases candidates.len() - i,
    {
        let candidate = candidates[i];
        if candidate.fill_percent > BASELINE_FILL && candidate.gates.passed {
            assert(selectable(candidates@[i as int]));
            let higher = match selected {
                Some(fill) => candidate.fill_percent > fill,
                None => true,
            };
            if higher {
                selected = Some(candidate.fill_percent);
            }
        }
        i += 1;
    }
    selected
}

/// Unused bytes of one index.
#[derive(Clone, Copy, Debug, PartialEq, Eq, Structural)]
pub struct IndexSpace {
    /// In its leaves.
    pub leaf_unused_bytes: u64,
    /// In its inner pages.
    pub internal_unused_bytes: u64,
}

/// The unused bytes of one index together.
pub open spec fn unused_of(index: IndexSpace) -> int {
    index.leaf_unused_bytes.saturating_add(index.internal_unused_bytes) as int
}

/// Add up the unused bytes of the four indexes of a graph.
pub fn index_unused(eavt: IndexSpace, aevt: IndexSpace, avet: IndexSpace, vaet: IndexSpace) -> (
    unused: u64)
    requires
        unused_of(eavt) + unused_of(aevt) + unused_of(avet) + unused_of(vaet) <= u64::MAX,
    ensures
        unused == unused_of(eavt) + unused_of(aevt) + unused_of(avet) + unused_of(vaet),
{
    eavt.leaf_unused_bytes.saturating_add(eavt.internal_unused_bytes)
        + aevt.leaf_unused_bytes.saturating_add(aevt.internal_unused_bytes)
        + avet.leaf_unused_bytes.saturating_add(avet.internal_unused_bytes)
        + vaet.leaf_unused_bytes.saturating_add(vaet.internal_unused_bytes)
}

} // verus!
