//! Idle maintenance: when to recompact, what to make live, and what to report.

use crate::browser::buffer::{evicted, BrowserBufferBackend, BufferView};
use crate::browser::buffer_error::BufferError;
use crate::browser::paging::{authority_accepts, authority_fault, configure_sparse_authority};
use crate::browser::write::DeltaMaintenanceDecision;
use crate::json::{json_text, new_object, no_fields, object_text, put_number, put_text, JsonField};
use std::collections::HashSet;
use vstd::prelude::*;

verus! {

/// The advice that maintenance reports.
pub open spec fn advice_text(decision: DeltaMaintenanceDecision) -> Seq<char> {
    match decision {
        DeltaMaintenanceDecision::MaintenanceBackpressure => "reduce_checkpoint_cadence"@,
        _ => "none"@,
    }
}

/// The advice that maintenance reports.
pub fn maintenance_advice(decision: DeltaMaintenanceDecision) -> (advice: &'static str)
    ensures
        advice@ == advice_text(decision),
{
    match decision {
        DeltaMaintenanceDecision::MaintenanceBackpressure => "reduce_checkpoint_cadence",
        DeltaMaintenanceDecision::ContinueDeltaAppend
        | DeltaMaintenanceDecision::ScheduleBackgroundRecompact => "none",
    }
}

/// Whether maintenance has anything to do: a persistent database whose delta
/// lineage has grown, or that is forced.
pub fn maintenance_due(persistent: bool, force: bool, decision: DeltaMaintenanceDecision) -> (due:
    bool)
    ensures
        due == (persistent && (force || decision != DeltaMaintenanceDecision::ContinueDeltaAppend)),
{
    if !persistent {
        return false;
    }
    if force {
        return true;
    }
    match decision {
        DeltaMaintenanceDecision::ContinueDeltaAppend => false,
        _ => true,
    }
}

/// The fields of a maintenance report.
pub open spec fn maintenance_fields(
    checkpoint: Seq<char>,
    delta: Seq<char>,
    advice: Seq<char>,
    before_pages: u64,
    after_pages: u64,
) -> Map<Seq<char>, JsonField> {
    no_fields().insert("checkpoint"@, JsonField::Text(checkpoint)).insert(
        "delta"@,
        JsonField::Text(delta),
    ).insert("advice"@, JsonField::Text(advice)).insert(
        "before_pages"@,
        JsonField::Number(before_pages as int),
    ).insert("after_pages"@, JsonField::Number(after_pages as int))
}

/// Render a maintenance report.
pub fn maintenance_json(
    checkpoint: &str,
    delta: &str,
    advice: &str,
    before_pages: u64,
    after_pages: u64,
) -> (text: String)
    ensures
        text@ == json_text(
            maintenance_fields(checkpoint@, delta@, advice@, before_pages, after_pages),
        ),
{
    let mut object = new_object();
    put_text(&mut object, "checkpoint", checkpoint);
    put_text(&mut object, "delta", delta);
    put_text(&mut object, "advice", advice);
    put_number(&mut object, "before_pages", before_pages);
    put_number(&mut object, "after_pages", after_pages);
    object_text(object)
}

/// The fields of the report of a run with or without a recompaction.
pub open spec fn run_fields(
    decision: DeltaMaintenanceDecision,
    before_pages: u64,
    compacted: Option<u64>,
) -> Map<Seq<char>, JsonField> {
    match compacted {
        None => maintenance_fields(
            "noop"@,
            "noop"@,
            advice_text(decision),
            before_pages,
            before_pages,
        ),
        Some(after_pages) => maintenance_fields(
            "noop"@,
            "recompacted"@,
            advice_text(decision),
            before_pages,
            after_pages,
        ),
    }
}

/// Render the report of one maintenance run. `compacted` is the page count of
/// the replacement image, where one was published.
pub fn run_report(
    decision: DeltaMaintenanceDecision,
    before_pages: u64,
    compacted: Option<u64>,
) -> (text: String)
    ensures
        text@ == json_text(run_fields(decision, before_pages, compacted)),
{
    match compacted {
        None => maintenance_json(
            "noop",
            "noop",
            maintenance_advice(decision),
            before_pages,
            before_pages,
        ),
        Some(after_pages) => maintenance_json(
            "noop",
            "recompacted",
            maintenance_advice(decision),
            before_pages,
            after_pages,
        ),
    }
}

/// Ready a compact candidate for a paged handle before its pages are
/// published: its pages count as flushed, its authority is pinned, and the rest
/// is given up.
pub fn ready_paged_candidate(candidate: &mut BrowserBufferBackend, pins: HashSet<u64>) -> (result:
    Result<(), BufferError>)
    ensures
        ({
            let drained = BufferView { dirty: Set::empty(), ..old(candidate)@ };
            match result {
                Ok(_) => {
                    &&& authority_accepts(drained, pins@)
                    &&& evicted(
                        (BufferView { pinned: pins@, sparse: true, ..drained }),
                        0,
                        final(candidate)@,
                    )
                },
                Err(fault) => {
                    &&& !authority_accepts(drained, pins@)
                    &&& authority_fault(drained, pins@, fault)
                    &&& final(candidate)@ == drained
                },
            }
        }),
        old(candidate)@.wf() ==> final(candidate)@.wf(),
{
    let _flushed = candidate.take_dirty();
    if let Err(fault) = configure_sparse_authority(candidate, pins) {
        return Err(fault);
    }
    let _removed = candidate.evict_all_clean_unpinned();
    Ok(())
}

} // verus!
