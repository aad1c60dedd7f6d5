//! Write transactions: stamping facts, admitting atomic batches, and the
//! receipts that writes return.

use crate::json::{
    json_text, new_object, no_fields, object_text, put_null, put_number, put_text, put_truth,
    JsonField,
};
use crate::text::{decimal, push_decimal};
use vstd::prelude::*;
use vstd::string::*;

verus! {

/// What the growth of the delta lineage calls for.
#[derive(Clone, Copy, Debug, PartialEq, Eq, Structural)]
pub enum DeltaMaintenanceDecision {
    /// Nothing.
    ContinueDeltaAppend,
    /// A recompaction when there is time.
    ScheduleBackgroundRecompact,
    /// Fewer checkpoints until a recompaction has run.
    MaintenanceBackpressure,
}

/// The advice that a write reports.
pub open spec fn write_advice(decision: DeltaMaintenanceDecision) -> Seq<char> {
    match decision {
        DeltaMaintenanceDecision::ContinueDeltaAppend => "none"@,
        DeltaMaintenanceDecision::ScheduleBackgroundRecompact => "schedule_idle_maintenance"@,
        DeltaMaintenanceDecision::MaintenanceBackpressure => "reduce_checkpoint_cadence"@,
    }
}

/// The advice that a write reports.
pub fn browser_write_advice(decision: DeltaMaintenanceDecision) -> (advice: &'static str)
    ensures
        advice@ == write_advice(decision),
{
    match decision {
        DeltaMaintenanceDecision::ContinueDeltaAppend => "none",
        DeltaMaintenanceDecision::ScheduleBackgroundRecompact => "schedule_idle_maintenance",
        DeltaMaintenanceDecision::MaintenanceBackpressure => "reduce_checkpoint_cadence",
    }
}

fn maintenance_pending(decision: DeltaMaintenanceDecision) -> (pending: bool)
    ensures
        pending == (decision != DeltaMaintenanceDecision::ContinueDeltaAppend),
{
    match decision {
        DeltaMaintenanceDecision::ContinueDeltaAppend => false,
        _ => true,
    }
}

/// One fact of a transaction. `body` is what stamping leaves alone.
#[derive(Debug, PartialEq, Eq)]
pub struct Fact<B> {
    /// Entity, attribute, value and the other parts of the fact.
    pub body: B,
    /// Start of the valid-time window.
    pub valid_from: i64,
    /// Wall-clock id of the transaction.
    pub tx_id: u64,
    /// Position of the transaction.
    pub tx_count: u64,
}

/// A number's bits read as a signed number.
pub open spec fn signed_bits(n: u64) -> int {
    if n <= i64::MAX {
        n as int
    } else {
        n - 0x1_0000_0000_0000_0000
    }
}

/// Read a number's bits as a signed number.
pub fn cast_signed(n: u64) -> (signed: i64)
    ensures
        signed == signed_bits(n),
{
    if n <= 0x7FFF_FFFF_FFFF_FFFF {
        n as i64
    } else {
        let below: u64 = 0xFFFF_FFFF_FFFF_FFFF - n;
        -(below as i64) - 1
    }
}

/// The stamp that one transaction puts on its facts.
#[derive(Clone, Copy, Debug, PartialEq, Eq, Structural)]
pub struct TransactionStamp {
    /// Wall-clock id of the transaction.
    pub tx_id: u64,
    /// Position of the transaction.
    pub tx_count: u64,
    /// The `valid_from` that stands for the transaction's own time.
    pub use_tx_time: i64,
}

/// A fact as the transaction records it.
pub open spec fn stamped<B>(fact: Fact<B>, stamp: TransactionStamp) -> Fact<B> {
    Fact {
        body: fact.body,
        valid_from: if fact.valid_from == stamp.use_tx_time {
            signed_bits(stamp.tx_id) as i64
        } else {
            fact.valid_from
        },
        tx_id: stamp.tx_id,
        tx_count: stamp.tx_count,
    }
}

/// A valid-time closure as the transaction records it.
pub open spec fn stamped_closure<B>(fact: Fact<B>, stamp: TransactionStamp) -> Fact<B> {
    Fact { tx_id: stamp.tx_id, tx_count: stamp.tx_count, ..fact }
}

/// Stamp every fact of one transaction. An open `valid_from` becomes the time
/// of the transaction.
pub fn stamp_facts<B>(facts: Vec<Fact<B>>, stamp: TransactionStamp) -> (result: Vec<Fact<B>>)
    ensures
        result@.len() == facts@.len(),
        forall|i: int| 0 <= i < facts@.len() ==> #[trigger] result@[i] == stamped(facts@[i], stamp),
{
    let mut result: Vec<Fact<B>> = Vec::new();
    for fact in it: facts
        invariant
            it.seq() == facts@,
            result@.len() == it.index(),
            forall|i: int|
                0 <= i < it.index() ==> #[trigger] result@[i] == stamped(facts@[i], stamp),
    {
        assert(fact == facts@[it.index()]);
        let valid_from: i64 = if fact.valid_from == stamp.use_tx_time {
            cast_signed(stamp.tx_id)
        } else {
            fact.valid_from
        };
        result.push(
            Fact { body: fact.body, valid_from, tx_id: stamp.tx_id, tx_count: stamp.tx_count },
        );
    }
    result
}

/// Stamp the closures of a forget. Their valid-time windows are already fixed.
pub fn stamp_closures<B>(facts: Vec<Fact<B>>, stamp: TransactionStamp) -> (result: Vec<Fact<B>>)
    ensures
        result@.len() == facts@.len(),
        forall|i: int|
            0 <= i < facts@.len() ==> #[trigger] result@[i] == stamped_closure(facts@[i], stamp),
{
    let mut result: Vec<Fact<B>> = Vec::new();
    for fact in it: facts
        invariant
            it.seq() == facts@,
            result@.len() == it.index(),
            forall|i: int|
                0 <= i < it.index() ==> #[trigger] result@[i] == stamped_closure(facts@[i], stamp),
    {
        assert(fact == facts@[it.index()]);
        result.push(
            Fact {
                body: fact.body,
                valid_from: fact.valid_from,
                tx_id: stamp.tx_id,
                tx_count: stamp.tx_count,
            },
        );
    }
    result
}

/// Every fact of one transaction carries the transaction's id and position,
/// and nothing but an open `valid_from` changes besides.
pub proof fn law_transaction_metadata_is_shared<B>(
    facts: Seq<Fact<B>>,
    stamp: TransactionStamp,
    i: int,
    j: int,
)
    requires
        0 <= i < facts.len(),
        0 <= j < facts.len(),
    ensures
        stamped(facts[i], stamp).tx_id == stamped(facts[j], stamp).tx_id,
        stamped(facts[i], stamp).tx_count == stamped(facts[j], stamp).tx_count,
        stamped(facts[i], stamp).body == facts[i].body,
        facts[i].valid_from != stamp.use_tx_time ==> stamped(facts[i], stamp).valid_from
            == facts[i].valid_from,
{
}

/// An open `valid_from` becomes the time of the transaction itself: the number
/// that is the transaction's id, for every id that is a time at all. Ids beyond
/// the largest time keep their bits. The placeholder is the only `valid_from`
/// that is replaced, and every fact carries the stamp of its transaction.
pub proof fn law_open_valid_time_is_the_transaction_time<B>(
    fact: Fact<B>,
    stamp: TransactionStamp,
)
    ensures
        fact.valid_from == stamp.use_tx_time && stamp.tx_id <= i64::MAX ==> stamped(
            fact,
            stamp,
        ).valid_from == stamp.tx_id,
        fact.valid_from == stamp.use_tx_time && stamp.tx_id > i64::MAX ==> stamped(
            fact,
            stamp,
        ).valid_from + 0x1_0000_0000_0000_0000 == stamp.tx_id,
        fact.valid_from != stamp.use_tx_time ==> stamped(fact, stamp).valid_from
            == fact.valid_from,
        stamped(fact, stamp).body == fact.body,
        stamped(fact, stamp).tx_id == stamp.tx_id,
        stamped(fact, stamp).tx_count == stamp.tx_count,
{
}

/// A closure keeps its fact and the window that was fixed for it, and carries
/// the stamp of the transaction that closes it.
pub proof fn law_closure_keeps_its_window<B>(fact: Fact<B>, stamp: TransactionStamp)
    ensures
        stamped_closure(fact, stamp).body == fact.body,
        stamped_closure(fact, stamp).valid_from == fact.valid_from,
        stamped_closure(fact, stamp).tx_id == stamp.tx_id,
        stamped_closure(fact, stamp).tx_count == stamp.tx_count,
{
}

/// Reading bits as a signed number keeps every number that is not too large,
/// stays within the signed range and confuses no two numbers.
pub proof fn law_signed_bits_are_faithful(a: u64, b: u64)
    ensures
        a <= i64::MAX ==> signed_bits(a) == a,
        i64::MIN <= signed_bits(a) <= i64::MAX,
        signed_bits(a) == signed_bits(b) ==> a == b,
        (signed_bits(a) - a) % 0x1_0000_0000_0000_0000 == 0,
{
}

/// The next transaction takes the position right after the current one.
pub proof fn law_next_position_follows(current: u64)
    ensures
        current < u64::MAX ==> next_tx_count(current) == current + 1,
        current == u64::MAX ==> next_tx_count(current) == u64::MAX,
{
}

/// The position that the next transaction takes.
pub open spec fn next_tx_count(current: u64) -> u64 {
    if current == u64::MAX {
        current
    } else {
        (current + 1) as u64
    }
}

/// Why an atomic batch was refused.
#[derive(Clone, Copy, Debug, PartialEq, Eq, Structural)]
pub enum AtomicWriteError {
    /// A fact does not fit into one slot.
    FactTooLarge { index: usize, size: usize, limit: usize },
    /// Another transaction was recorded meanwhile.
    CounterChanged,
}

impl AtomicWriteError {
    /// The text reported for this error.
    pub open spec fn text(self) -> Seq<char> {
        match self {
            AtomicWriteError::FactTooLarge { index, size, limit } => "executeAtomic fact "@
                + decimal(index as nat) + " serialised size "@ + decimal(size as nat)
                + " bytes exceeds maximum slot size "@ + decimal(limit as nat) + " bytes"@,
            AtomicWriteError::CounterChanged =>
                "executeAtomic transaction counter changed while the mutation guard was held"@,
        }
    }

    /// Render this error for a caller.
    pub fn message(&self) -> (text: String)
        ensures
            text@ == self.text(),
    {
        let mut out = String::new();
        match self {
            AtomicWriteError::FactTooLarge { index, size, limit } => {
                out.append("executeAtomic fact ");
                push_decimal(&mut out, *index as u64);
                out.append(" serialised size ");
                push_decimal(&mut out, *size as u64);
                out.append(" bytes exceeds maximum slot size ");
                push_decimal(&mut out, *limit as u64);
                out.append(" bytes");
            },
            AtomicWriteError::CounterChanged => out.append(
                "executeAtomic transaction counter changed while the mutation guard was held",
            ),
        }
        assert(out@ =~= self.text());
        out
    }
}

/// A fully materialized mixed batch that has not touched the database.
#[derive(Debug)]
pub struct MaterializedAtomicWrite<B> {
    /// Every fact of the batch, in order.
    pub facts: Vec<Fact<B>>,
    /// Number of commands.
    pub command_count: usize,
    /// Facts asserted.
    pub transacted_fact_count: usize,
    /// Facts retracted.
    pub retracted_fact_count: usize,
}

/// Stamp an atomic batch for the transaction after the current one. Nothing is
/// claimed yet.
pub fn stamp_atomic_write<B>(
    facts: Vec<Fact<B>>,
    tx_id: u64,
    current_tx_count: u64,
    use_tx_time: i64,
) -> (result: (Vec<Fact<B>>, u64))
    ensures
        result.1 == next_tx_count(current_tx_count),
        result.0@.len() == facts@.len(),
        forall|i: int|
            0 <= i < facts@.len() ==> #[trigger] result.0@[i] == stamped(
                facts@[i],
                (TransactionStamp { tx_id, tx_count: next_tx_count(current_tx_count), use_tx_time }),
            ),
{
    let tx_count: u64 = current_tx_count.saturating_add(1);
    let stamp = TransactionStamp { tx_id, tx_count, use_tx_time };
    (stamp_facts(facts, stamp), tx_count)
}

/// Accept a batch whose stamped facts all fit into one slot each. The first
/// that does not is reported.
pub fn admit_fact_sizes(sizes: &Vec<usize>, limit: usize) -> (result: Result<(), AtomicWriteError>)
    ensures
        match result {
            Ok(_) => forall|i: int| 0 <= i < sizes@.len() ==> #[trigger] sizes@[i] <= limit,
            Err(fault) => exists|i: int|
                0 <= i < sizes@.len() && #[trigger] sizes@[i] > limit && fault == (
                AtomicWriteError::FactTooLarge { index: i as usize, size: sizes@[i], limit })
                    && forall|j: int| 0 <= j < i ==> #[trigger] sizes@[j] <= limit,
        },
{
    let mut i: usize = 0;
    while i < sizes.len()
        invariant
            i <= sizes.len(),
            forall|j: int| 0 <= j < i ==> #[trigger] sizes@[j] <= limit,
        decreases sizes.len() - i,
    {
        if sizes[i] > limit {
            assert(sizes@[i as int] > limit);
            return Err(AtomicWriteError::FactTooLarge { index: i, size: sizes[i], limit });
        }
        i += 1;
    }
    Ok(())
}

/// Accept the transaction position that was claimed, if it is the one that the
/// facts were stamped with.
pub fn admit_claimed_position(claimed: u64, stamped_with: u64) -> (result: Result<
    (),
    AtomicWriteError,
>)
    ensures
        result == if claimed == stamped_with {
            Ok::<(), AtomicWriteError>(())
        } else {
            Err(AtomicWriteError::CounterChanged)
        },
{
    if claimed != stamped_with {
        return Err(AtomicWriteError::CounterChanged);
    }
    Ok(())
}

/// Where a successful write can be read back from.
pub open spec fn durability_text(persistent: bool) -> Seq<char> {
    if persistent {
        "published"@
    } else {
        "memory"@
    }
}

fn durability(persistent: bool) -> (text: &'static str)
    ensures
        text@ == durability_text(persistent),
{
    if persistent {
        "published"
    } else {
        "memory"
    }
}

/// The outcome part that every write receipt has.
pub open spec fn outcome_fields(
    fields: Map<Seq<char>, JsonField>,
    persistent: bool,
    decision: DeltaMaintenanceDecision,
) -> Map<Seq<char>, JsonField> {
    fields.insert("durability"@, JsonField::Text(durability_text(persistent))).insert(
        "maintenance_pending"@,
        JsonField::Truth(decision != DeltaMaintenanceDecision::ContinueDeltaAppend),
    ).insert("advice"@, JsonField::Text(write_advice(decision)))
}

/// The fields of the receipt of a transact or retract.
pub open spec fn write_receipt_fields(
    is_retract: bool,
    tx_id: u64,
    tx_count: u64,
    persistent: bool,
    decision: DeltaMaintenanceDecision,
) -> Map<Seq<char>, JsonField> {
    let key = if is_retract {
        "retracted"@
    } else {
        "transacted"@
    };
    outcome_fields(
        no_fields().insert("tx_id"@, JsonField::Number(tx_id as int)).insert(
            "tx_count"@,
            JsonField::Number(tx_count as int),
        ),
        persistent,
        decision,
    ).insert(key, JsonField::Number(tx_id as int))
}

/// Render the receipt of a transact or retract.
pub fn write_receipt(
    is_retract: bool,
    tx_id: u64,
    tx_count: u64,
    persistent: bool,
    decision: DeltaMaintenanceDecision,
) -> (text: String)
    ensures
        text@ == json_text(
            write_receipt_fields(is_retract, tx_id, tx_count, persistent, decision),
        ),
{
    let mut object = new_object();
    put_number(&mut object, "tx_id", tx_id);
    put_number(&mut object, "tx_count", tx_count);
    put_text(&mut object, "durability", durability(persistent));
    put_truth(&mut object, "maintenance_pending", maintenance_pending(decision));
    put_text(&mut object, "advice", browser_write_advice(decision));
    if is_retract {
        put_number(&mut object, "retracted", tx_id);
    } else {
        put_number(&mut object, "transacted", tx_id);
    }
    object_text(object)
}

/// What an atomic batch did.
#[derive(Clone, Copy, Debug, PartialEq, Eq, Structural)]
pub struct AtomicWriteSummary {
    /// Number of commands.
    pub command_count: usize,
    /// Facts asserted.
    pub transacted_fact_count: usize,
    /// Facts retracted.
    pub retracted_fact_count: usize,
    /// Wall-clock id of the transaction.
    pub tx_id: u64,
    /// Position of the transaction.
    pub tx_count: u64,
}

/// The number of facts of an atomic batch.
pub open spec fn atomic_fact_count(summary: AtomicWriteSummary) -> usize {
    summary.transacted_fact_count.saturating_add(summary.retracted_fact_count)
}

/// The fields of the receipt of an atomic batch.
pub open spec fn atomic_receipt_fields(
    summary: AtomicWriteSummary,
    persistent: bool,
    decision: DeltaMaintenanceDecision,
) -> Map<Seq<char>, JsonField> {
    outcome_fields(
        no_fields().insert("atomic"@, JsonField::Truth(true)).insert(
            "command_count"@,
            JsonField::Number(summary.command_count as int),
        ).insert("fact_count"@, JsonField::Number(atomic_fact_count(summary) as int)).insert(
            "transacted_fact_count"@,
            JsonField::Number(summary.transacted_fact_count as int),
        ).insert(
            "retracted_fact_count"@,
            JsonField::Number(summary.retracted_fact_count as int),
        ).insert("tx_id"@, JsonField::Number(summary.tx_id as int)).insert(
            "tx_count"@,
            JsonField::Number(summary.tx_count as int),
        ).insert("transacted"@, JsonField::Number(summary.tx_id as int)),
        persistent,
        decision,
    )
}

/// Render the receipt of an atomic batch.
pub fn atomic_receipt(
    summary: AtomicWriteSummary,
    persistent: bool,
    decision: DeltaMaintenanceDecision,
) -> (text: String)
    ensures
        text@ == json_text(atomic_receipt_fields(summary, persistent, decision)),
{
    let fact_count: usize = summary.transacted_fact_count.saturating_add(
        summary.retracted_fact_count,
    );
    let mut object = new_object();
    put_truth(&mut object, "atomic", true);
    put_number(&mut object, "command_count", summary.command_count as u64);
    put_number(&mut object, "fact_count", fact_count as u64);
    put_number(&mut object, "transacted_fact_count", summary.transacted_fact_count as u64);
    put_number(&mut object, "retracted_fact_count", summary.retracted_fact_count as u64);
    put_number(&mut object, "tx_id", summary.tx_id);
    put_number(&mut object, "tx_count", summary.tx_count);
    put_number(&mut object, "transacted", summary.tx_id);
    put_text(&mut object, "durability", durability(persistent));
    put_truth(&mut object, "maintenance_pending", maintenance_pending(decision));
    put_text(&mut object, "advice", browser_write_advice(decision));
    object_text(object)
}

/// The fields of the receipt of a forget.
pub open spec fn forget_receipt_fields(
    count: usize,
    tx_id: u64,
    tx_count: u64,
    persistent: bool,
    decision: DeltaMaintenanceDecision,
) -> Map<Seq<char>, JsonField> {
    outcome_fields(
        no_fields().insert("forgotten"@, JsonField::Number(count as int)).insert(
            "tx_id"@,
            JsonField::Number(tx_id as int),
        ).insert("tx_count"@, JsonField::Number(tx_count as int)),
        persistent,
        decision,
    )
}

/// Render the receipt of a forget that closed at least one fact.
pub fn forget_receipt(
    count: usize,
    tx_id: u64,
    tx_count: u64,
    persistent: bool,
    decision: DeltaMaintenanceDecision,
) -> (text: String)
    ensures
        text@ == json_text(forget_receipt_fields(count, tx_id, tx_count, persistent, decision)),
{
    let mut object = new_object();
    put_number(&mut object, "forgotten", count as u64);
    put_number(&mut object, "tx_id", tx_id);
    put_number(&mut object, "tx_count", tx_count);
    put_text(&mut object, "durability", durability(persistent));
    put_truth(&mut object, "maintenance_pending", maintenance_pending(decision));
    put_text(&mut object, "advice", browser_write_advice(decision));
    object_text(object)
}

/// The fields of the receipt of a forget that matched nothing.
pub open spec fn empty_forget_fields() -> Map<Seq<char>, JsonField> {
    no_fields().insert("forgotten"@, JsonField::Number(0)).insert("tx_id"@, JsonField::Null).insert(
        "tx_count"@,
        JsonField::Null,
    ).insert("durability"@, JsonField::Text("noop"@)).insert(
        "maintenance_pending"@,
        JsonField::Truth(false),
    ).insert("advice"@, JsonField::Text("none"@))
}

/// Render the receipt of a forget that matched nothing: no transaction was
/// recorded and nothing has to be flushed.
pub fn empty_forget_receipt() -> (text: String)
    ensures
        text@ == json_text(empty_forget_fields()),
{
    let mut object = new_object();
    put_number(&mut object, "forgotten", 0);
    put_null(&mut object, "tx_id");
    put_null(&mut object, "tx_count");
    put_text(&mut object, "durability", "noop");
    put_truth(&mut object, "maintenance_pending", false);
    put_text(&mut object, "advice", "none");
    object_text(object)
}

/// Where the valid time of a forgotten fact ends: at the given instant, or at
/// the time of the forgetting transaction.
pub fn closure_time(valid_to: Option<i64>, tx_id: u64) -> (time: i64)
    ensures
        time == match valid_to {
            Some(valid_to) => valid_to as int,
            None => signed_bits(tx_id),
        },
{
    match valid_to {
        Some(valid_to) => valid_to,
        None => cast_signed(tx_id),
    }
}

} // verus!
