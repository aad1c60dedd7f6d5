//! What the receipts and reports of a handle say, field by field.

use crate::browser::maintenance::{maintenance_fields, run_fields};
use crate::browser::projection_rebuild::{rebuild_fields, RebuildReceipt};
use crate::browser::read_view::{query_fields, QueryResult};
use crate::browser::write::{
    atomic_receipt_fields, empty_forget_fields, forget_receipt_fields, write_receipt_fields,
    AtomicWriteSummary, DeltaMaintenanceDecision,
};
use crate::json::{JsonField, JsonItem};
use vstd::prelude::*;

verus! {

proof fn lemma_keys_differ()
    ensures
        "tx_id"@ != "delta"@,
        "durability"@ != "transacted"@,
        "durability"@ != "fact_count"@,
        "durability"@ != "checkpoint"@,
        "durability"@ != "generation"@,
        "maintenance_pending"@ != "manifest_generation"@,
        "advice"@ != "atomic"@,
        "retracted"@ != "forgotten"@,
        "retracted"@ != "row_count"@,
        "retracted"@ != "variables"@,
        "transacted"@ != "fact_count"@,
        "transacted"@ != "checkpoint"@,
        "transacted"@ != "generation"@,
        "fact_count"@ != "checkpoint"@,
        "fact_count"@ != "generation"@,
        "forgotten"@ != "row_count"@,
        "forgotten"@ != "variables"@,
        "checkpoint"@ != "generation"@,
        "before_pages"@ != "arena_reused"@,
        "base_generation"@ != "attribute_count"@,
        "valid_time_floor"@ != "projection_bytes"@,
        "row_count"@ != "variables"@,
        "tx_id"@.len() == 5,
        "tx_count"@.len() == 8,
        "durability"@.len() == 10,
        "maintenance_pending"@.len() == 19,
        "advice"@.len() == 6,
        "retracted"@.len() == 9,
        "transacted"@.len() == 10,
        "atomic"@.len() == 6,
        "command_count"@.len() == 13,
        "fact_count"@.len() == 10,
        "transacted_fact_count"@.len() == 21,
        "retracted_fact_count"@.len() == 20,
        "forgotten"@.len() == 9,
        "checkpoint"@.len() == 10,
        "delta"@.len() == 5,
        "before_pages"@.len() == 12,
        "after_pages"@.len() == 11,
        "generation"@.len() == 10,
        "base_generation"@.len() == 15,
        "manifest_generation"@.len() == 19,
        "valid_time_floor"@.len() == 16,
        "attribute_count"@.len() == 15,
        "row_count"@.len() == 9,
        "projection_bytes"@.len() == 16,
        "arena_reused"@.len() == 12,
        "ok"@.len() == 2,
        "variables"@.len() == 9,
        "results"@.len() == 7,
{
    reveal_strlit("tx_id");
    reveal_strlit("tx_count");
    reveal_strlit("durability");
    reveal_strlit("maintenance_pending");
    reveal_strlit("advice");
    reveal_strlit("retracted");
    reveal_strlit("transacted");
    reveal_strlit("atomic");
    reveal_strlit("command_count");
    reveal_strlit("fact_count");
    reveal_strlit("transacted_fact_count");
    reveal_strlit("retracted_fact_count");
    reveal_strlit("forgotten");
    reveal_strlit("checkpoint");
    reveal_strlit("delta");
    reveal_strlit("before_pages");
    reveal_strlit("after_pages");
    reveal_strlit("generation");
    reveal_strlit("base_generation");
    reveal_strlit("manifest_generation");
    reveal_strlit("valid_time_floor");
    reveal_strlit("attribute_count");
    reveal_strlit("row_count");
    reveal_strlit("projection_bytes");
    reveal_strlit("arena_reused");
    reveal_strlit("ok");
    reveal_strlit("variables");
    reveal_strlit("results");
    assert("tx_id"@[0] != "delta"@[0]);
    assert("durability"@[0] != "transacted"@[0]);
    assert("durability"@[0] != "fact_count"@[0]);
    assert("durability"@[0] != "checkpoint"@[0]);
    assert("durability"@[0] != "generation"@[0]);
    assert("maintenance_pending"@[2] != "manifest_generation"@[2]);
    assert("advice"@[1] != "atomic"@[1]);
    assert("retracted"@[0] != "forgotten"@[0]);
    assert("retracted"@[1] != "row_count"@[1]);
    assert("retracted"@[0] != "variables"@[0]);
    assert("transacted"@[0] != "fact_count"@[0]);
    assert("transacted"@[0] != "checkpoint"@[0]);
    assert("transacted"@[0] != "generation"@[0]);
    assert("fact_count"@[0] != "checkpoint"@[0]);
    assert("fact_count"@[0] != "generation"@[0]);
    assert("forgotten"@[0] != "row_count"@[0]);
    assert("forgotten"@[0] != "variables"@[0]);
    assert("checkpoint"@[0] != "generation"@[0]);
    assert("before_pages"@[0] != "arena_reused"@[0]);
    assert("base_generation"@[0] != "attribute_count"@[0]);
    assert("valid_time_floor"@[0] != "projection_bytes"@[0]);
    assert("row_count"@[0] != "variables"@[0]);
}

/// The advice of a write: nothing while the delta lineage may grow, maintenance
/// when there is time, and fewer checkpoints under backpressure.
pub open spec fn says_of_growth(
    fields: Map<Seq<char>, JsonField>,
    decision: DeltaMaintenanceDecision,
) -> bool {
    &&& decision is ContinueDeltaAppend ==> fields["maintenance_pending"@] == JsonField::Truth(
        false,
    ) && fields["advice"@] == JsonField::Text("none"@)
    &&& decision is ScheduleBackgroundRecompact ==> fields["maintenance_pending"@]
        == JsonField::Truth(true) && fields["advice"@] == JsonField::Text(
        "schedule_idle_maintenance"@,
    )
    &&& decision is MaintenanceBackpressure ==> fields["maintenance_pending"@] == JsonField::Truth(
        true,
    ) && fields["advice"@] == JsonField::Text("reduce_checkpoint_cadence"@)
}

/// A persistent database says that a write is published, and one in memory that
/// it is held in memory alone.
pub open spec fn says_of_durability(fields: Map<Seq<char>, JsonField>, persistent: bool) -> bool {
    &&& persistent ==> fields["durability"@] == JsonField::Text("published"@)
    &&& !persistent ==> fields["durability"@] == JsonField::Text("memory"@)
}

/// The receipt of a write names the transaction, under the word for what it did,
/// its position, where it can be read back and what the growth asks for, and
/// says nothing else.
pub proof fn law_write_receipt_names_the_transaction(
    is_retract: bool,
    tx_id: u64,
    tx_count: u64,
    persistent: bool,
    decision: DeltaMaintenanceDecision,
)
    ensures
        ({
            let fields = write_receipt_fields(is_retract, tx_id, tx_count, persistent, decision);
            &&& fields["tx_id"@] == JsonField::Number(tx_id as int)
            &&& fields["tx_count"@] == JsonField::Number(tx_count as int)
            &&& is_retract ==> fields["retracted"@] == JsonField::Number(tx_id as int)
            &&& !is_retract ==> fields["transacted"@] == JsonField::Number(tx_id as int)
            &&& says_of_growth(fields, decision)
            &&& says_of_durability(fields, persistent)
            &&& fields.dom() == set![
                "tx_id"@,
                "tx_count"@,
                "durability"@,
                "maintenance_pending"@,
                "advice"@,
                if is_retract { "retracted"@ } else { "transacted"@ },
            ]
        }),
{
    lemma_keys_differ();
    let fields = write_receipt_fields(is_retract, tx_id, tx_count, persistent, decision);
    assert(fields.dom() =~= set![
        "tx_id"@,
        "tx_count"@,
        "durability"@,
        "maintenance_pending"@,
        "advice"@,
        if is_retract { "retracted"@ } else { "transacted"@ },
    ]);
}

/// The receipt of an atomic batch counts its commands and its facts, all of
/// them, the asserted and the retracted ones, names the one transaction that
/// they are, and says nothing else.
pub proof fn law_atomic_receipt_counts_the_batch(
    summary: AtomicWriteSummary,
    persistent: bool,
    decision: DeltaMaintenanceDecision,
)
    ensures
        ({
            let fields = atomic_receipt_fields(summary, persistent, decision);
            let facts = summary.transacted_fact_count + summary.retracted_fact_count;
            &&& fields["atomic"@] == JsonField::Truth(true)
            &&& fields["command_count"@] == JsonField::Number(summary.command_count as int)
            &&& facts <= usize::MAX ==> fields["fact_count"@] == JsonField::Number(facts)
            &&& facts > usize::MAX ==> fields["fact_count"@] == JsonField::Number(usize::MAX as int)
            &&& fields["transacted_fact_count"@] == JsonField::Number(
                summary.transacted_fact_count as int,
            )
            &&& fields["retracted_fact_count"@] == JsonField::Number(
                summary.retracted_fact_count as int,
            )
            &&& fields["tx_id"@] == JsonField::Number(summary.tx_id as int)
            &&& fields["tx_count"@] == JsonField::Number(summary.tx_count as int)
            &&& fields["transacted"@] == JsonField::Number(summary.tx_id as int)
            &&& says_of_growth(fields, decision)
            &&& says_of_durability(fields, persistent)
            &&& fields.dom() == set![
                "atomic"@,
                "command_count"@,
                "fact_count"@,
                "transacted_fact_count"@,
                "retracted_fact_count"@,
                "tx_id"@,
                "tx_count"@,
                "transacted"@,
                "durability"@,
                "maintenance_pending"@,
                "advice"@,
            ]
        }),
{
    lemma_keys_differ();
    let fields = atomic_receipt_fields(summary, persistent, decision);
    assert(fields.dom() =~= set![
        "atomic"@,
        "command_count"@,
        "fact_count"@,
        "transacted_fact_count"@,
        "retracted_fact_count"@,
        "tx_id"@,
        "tx_count"@,
        "transacted"@,
        "durability"@,
        "maintenance_pending"@,
        "advice"@,
    ]);
}

/// The receipt of a forget counts what it closed and names its transaction; one
/// that closed nothing names none and asks for nothing.
pub proof fn law_forget_receipt_counts_the_closures(
    count: usize,
    tx_id: u64,
    tx_count: u64,
    persistent: bool,
    decision: DeltaMaintenanceDecision,
)
    ensures
        ({
            let fields = forget_receipt_fields(count, tx_id, tx_count, persistent, decision);
            &&& fields["forgotten"@] == JsonField::Number(count as int)
            &&& fields["tx_id"@] == JsonField::Number(tx_id as int)
            &&& fields["tx_count"@] == JsonField::Number(tx_count as int)
            &&& says_of_growth(fields, decision)
            &&& says_of_durability(fields, persistent)
            &&& fields.dom() == set![
                "forgotten"@,
                "tx_id"@,
                "tx_count"@,
                "durability"@,
                "maintenance_pending"@,
                "advice"@,
            ]
        }),
        ({
            let fields = empty_forget_fields();
            &&& fields["forgotten"@] == JsonField::Number(0)
            &&& fields["tx_id"@] == JsonField::Null
            &&& fields["tx_count"@] == JsonField::Null
            &&& fields["durability"@] == JsonField::Text("noop"@)
            &&& fields["maintenance_pending"@] == JsonField::Truth(false)
            &&& fields["advice"@] == JsonField::Text("none"@)
            &&& fields.dom() == set![
                "forgotten"@,
                "tx_id"@,
                "tx_count"@,
                "durability"@,
                "maintenance_pending"@,
                "advice"@,
            ]
        }),
{
    lemma_keys_differ();
    let keys = set![
        "forgotten"@,
        "tx_id"@,
        "tx_count"@,
        "durability"@,
        "maintenance_pending"@,
        "advice"@,
    ];
    assert(forget_receipt_fields(count, tx_id, tx_count, persistent, decision).dom() =~= keys);
    assert(empty_forget_fields().dom() =~= keys);
}

/// The report of a maintenance run says whether the delta lineage was
/// recompacted, and how many pages there were before and are now: as many where
/// nothing was done. Only backpressure asks for fewer checkpoints.
pub proof fn law_maintenance_report_counts_the_pages(
    decision: DeltaMaintenanceDecision,
    before_pages: u64,
    compacted: Option<u64>,
)
    ensures
        ({
            let fields = run_fields(decision, before_pages, compacted);
            &&& fields["checkpoint"@] == JsonField::Text("noop"@)
            &&& fields["before_pages"@] == JsonField::Number(before_pages as int)
            &&& compacted matches Some(pages) ==> fields["delta"@] == JsonField::Text(
                "recompacted"@,
            ) && fields["after_pages"@] == JsonField::Number(pages as int)
            &&& compacted is None ==> fields["delta"@] == JsonField::Text("noop"@)
                && fields["after_pages"@] == JsonField::Number(before_pages as int)
            &&& decision is MaintenanceBackpressure ==> fields["advice"@] == JsonField::Text(
                "reduce_checkpoint_cadence"@,
            )
            &&& decision !is MaintenanceBackpressure ==> fields["advice"@] == JsonField::Text(
                "none"@,
            )
            &&& fields.dom() == set![
                "checkpoint"@,
                "delta"@,
                "advice"@,
                "before_pages"@,
                "after_pages"@,
            ]
        }),
{
    lemma_keys_differ();
    assert(run_fields(decision, before_pages, compacted).dom() =~= set![
        "checkpoint"@,
        "delta"@,
        "advice"@,
        "before_pages"@,
        "after_pages"@,
    ]);
}

/// A maintenance report says every figure and every word under its own name.
pub proof fn law_maintenance_report_says_every_figure(
    checkpoint: Seq<char>,
    delta: Seq<char>,
    advice: Seq<char>,
    before_pages: u64,
    after_pages: u64,
)
    ensures
        ({
            let fields = maintenance_fields(checkpoint, delta, advice, before_pages, after_pages);
            &&& fields["checkpoint"@] == JsonField::Text(checkpoint)
            &&& fields["delta"@] == JsonField::Text(delta)
            &&& fields["advice"@] == JsonField::Text(advice)
            &&& fields["before_pages"@] == JsonField::Number(before_pages as int)
            &&& fields["after_pages"@] == JsonField::Number(after_pages as int)
        }),
{
    lemma_keys_differ();
}

/// The receipt of a projection rebuild says every figure under its own name.
pub proof fn law_rebuild_receipt_says_every_figure(receipt: RebuildReceipt)
    ensures
        ({
            let fields = rebuild_fields(receipt);
            &&& fields["checkpoint"@] == JsonField::Text("noop"@)
            &&& fields["generation"@] == JsonField::Number(receipt.generation as int)
            &&& fields["base_generation"@] == JsonField::Number(receipt.base_generation as int)
            &&& fields["manifest_generation"@] == JsonField::Number(
                receipt.manifest_generation as int,
            )
            &&& fields["tx_count"@] == JsonField::Number(receipt.tx_count as int)
            &&& fields["valid_time_floor"@] == JsonField::Number(receipt.valid_time_floor as int)
            &&& fields["attribute_count"@] == JsonField::Number(receipt.attribute_count as int)
            &&& fields["row_count"@] == JsonField::Number(receipt.row_count as int)
            &&& fields["projection_bytes"@] == JsonField::Number(receipt.projection_bytes as int)
            &&& fields["before_pages"@] == JsonField::Number(receipt.before_pages as int)
            &&& fields["after_pages"@] == JsonField::Number(receipt.after_pages as int)
            &&& fields["arena_reused"@] == JsonField::Truth(receipt.arena_reused)
            &&& fields.dom() == set![
                "checkpoint"@,
                "generation"@,
                "base_generation"@,
                "manifest_generation"@,
                "tx_count"@,
                "valid_time_floor"@,
                "attribute_count"@,
                "row_count"@,
                "projection_bytes"@,
                "before_pages"@,
                "after_pages"@,
                "arena_reused"@,
            ]
        }),
{
    lemma_keys_differ();
    assert(rebuild_fields(receipt).dom() =~= set![
        "checkpoint"@,
        "generation"@,
        "base_generation"@,
        "manifest_generation"@,
        "tx_count"@,
        "valid_time_floor"@,
        "attribute_count"@,
        "row_count"@,
        "projection_bytes"@,
        "before_pages"@,
        "after_pages"@,
        "arena_reused"@,
    ]);
}

/// A query result shows every variable and every row, each row with every cell,
/// in their order; other results name what they recorded.
pub proof fn law_query_result_shows_every_cell(result: QueryResult)
    ensures
        result matches QueryResult::QueryResults { vars, results } ==> {
            let fields = query_fields(result);
            &&& fields.dom() == set!["variables"@, "results"@]
            &&& fields["variables"@] matches JsonField::List(shown) && {
                &&& shown.len() == vars@.len()
                &&& forall|i: int|
                    0 <= i < vars@.len() ==> #[trigger] shown[i] == JsonItem::Text(vars@[i]@)
            }
            &&& fields["results"@] matches JsonField::List(shown) && {
                &&& shown.len() == results@.len()
                &&& forall|i: int|
                    0 <= i < results@.len() ==> #[trigger] shown[i] == JsonItem::Row(results@[i]@)
            }
        },
        result matches QueryResult::Transacted(tx_id) ==> query_fields(result) == map![
            "transacted"@ => JsonField::Number(tx_id as int)
        ],
        result matches QueryResult::Retracted(tx_id) ==> query_fields(result) == map![
            "retracted"@ => JsonField::Number(tx_id as int)
        ],
        result matches QueryResult::Forgotten { tx_id, count } ==> {
            let fields = query_fields(result);
            &&& fields.dom() == set!["forgotten"@, "tx_id"@]
            &&& fields["forgotten"@] == JsonField::Number(count as int)
            &&& tx_id matches Some(tx_id) ==> fields["tx_id"@] == JsonField::Number(tx_id as int)
            &&& tx_id is None ==> fields["tx_id"@] == JsonField::Null
        },
        result is Accepted ==> query_fields(result) == map!["ok"@ => JsonField::Truth(true)],
{
    lemma_keys_differ();
    let fields = query_fields(result);
    match result {
        QueryResult::QueryResults { .. } => {
            assert(fields.dom() =~= set!["variables"@, "results"@]);
        },
        QueryResult::Forgotten { .. } => {
            assert(fields.dom() =~= set!["forgotten"@, "tx_id"@]);
        },
        QueryResult::Transacted(tx_id) => {
            assert(fields =~= map!["transacted"@ => JsonField::Number(tx_id as int)]);
        },
        QueryResult::Retracted(tx_id) => {
            assert(fields =~= map!["retracted"@ => JsonField::Number(tx_id as int)]);
        },
        QueryResult::Accepted => {
            assert(fields =~= map!["ok"@ => JsonField::Truth(true)]);
        },
    }
}

} // verus!
