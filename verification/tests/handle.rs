use std::collections::{HashMap, HashSet};
use vicia_browser::browser::buffer::BrowserBufferBackend;
use vicia_browser::browser::buffer_error::BufferError;
use vicia_browser::browser::command::{
    command_route, missing_source_message, read_plan, CommandKind, CommandRoute, ReadPlan,
    SourceUse,
};
use vicia_browser::browser::db::{
    js_value_message, take_dirty_pages, BrowserDb, ReadViewError, ValidAt,
};
use vicia_browser::browser::guard::{BrowserOpenMode, GuardError, HandleGuard};
use vicia_browser::browser::maintenance::{
    maintenance_advice, maintenance_due, ready_paged_candidate, run_report,
};
use vicia_browser::browser::mutation::{
    AtomicBatch, Collected, ForgetStart, PendingReceipt, PublicationOutcome,
};
use vicia_browser::browser::projection_rebuild::{
    admit_images, rebuild_receipt, require_persistent, valid_time_floor, ImageSize,
    ProjectionTotals, RebuildError, RebuildReceipt,
};
use vicia_browser::browser::replacement::{MaintenanceStart, PendingReplacement};
use vicia_browser::browser::write::{
    admit_claimed_position, admit_fact_sizes, atomic_receipt, browser_write_advice, cast_signed,
    closure_time, empty_forget_receipt, forget_receipt, stamp_atomic_write, stamp_closures,
    stamp_facts, write_receipt, AtomicWriteError, AtomicWriteSummary, DeltaMaintenanceDecision,
    Fact, MaterializedAtomicWrite, TransactionStamp,
};
use vicia_browser::storage::PAGE_SIZE;

fn page(byte: u8) -> Vec<u8> {
    vec![byte; PAGE_SIZE]
}

fn page_zero(page_count: u64) -> Vec<u8> {
    let mut bytes = b"MGRF".to_vec();
    bytes.extend_from_slice(&12u32.to_le_bytes());
    bytes.extend_from_slice(&page_count.to_le_bytes());
    bytes.resize(PAGE_SIZE, 0);
    bytes
}

fn eager_buffer() -> BrowserBufferBackend {
    BrowserBufferBackend::load_pages(HashMap::from([(0, page_zero(1))]))
}

fn paged_db() -> BrowserDb {
    let buffer = BrowserBufferBackend::load_sparse_page_zero(page_zero(4)).unwrap();
    BrowserDb::open_from_idb_mode(buffer, BrowserOpenMode::Paged, true)
}

#[test]
fn mutations_and_paged_reads_exclude_each_other() {
    let mut guard = HandleGuard::new(BrowserOpenMode::Paged, true);
    assert_eq!(guard.begin_paged_read(), Ok(true));
    assert_eq!(guard.begin_mutation(), Err(GuardError::PagedReadBlocksMutation));
    assert_eq!(guard.begin_paged_read(), Err(GuardError::OperationInProgress));
    assert_eq!(guard.ensure_usable(), Err(GuardError::PagedReadAwaitingPages));
    guard.finish_paged_read();
    assert_eq!(guard.begin_mutation(), Ok(()));
    assert_eq!(guard.begin_mutation(), Err(GuardError::MutationInProgress));
    assert_eq!(guard.begin_paged_read(), Err(GuardError::OperationInProgress));
    assert_eq!(
        guard.ensure_usable().unwrap_err().message(),
        "BrowserDb mutation is awaiting durability; await it before querying or exporting from \
         this handle"
    );
    guard.finish_mutation(true);
    assert_eq!(guard.ensure_usable(), Ok(()));
    assert_eq!(
        HandleGuard::new(BrowserOpenMode::EagerCompatibility, false).begin_paged_read(),
        Ok(false)
    );
    assert!(BrowserOpenMode::Paged.is_paged());
}

#[test]
fn failed_publication_poisons_unless_rolled_back() {
    let mut guard = HandleGuard::new(BrowserOpenMode::Paged, true);
    guard.begin_mutation().unwrap();
    guard.advance_mutation();
    guard.roll_back_mutation(true);
    guard.finish_mutation(true);
    assert_eq!(guard.ensure_usable(), Ok(()));
    guard.begin_mutation().unwrap();
    guard.advance_mutation();
    guard.finish_mutation(true);
    assert_eq!(guard.ensure_usable(), Err(GuardError::DurabilityUncertain));
    assert_eq!(guard.begin_mutation(), Err(GuardError::DurabilityUncertain));
    assert_eq!(guard.begin_paged_read(), Err(GuardError::DurabilityUncertain));
}

#[test]
fn read_views_are_pinned_to_the_past() {
    let db = BrowserDb::open_in_memory(page_zero(1));
    assert!(!db.is_persistent());
    assert_eq!(db.buffer().resident_page_count(), 1);
    let view = db.create_read_view(None, 7, ValidAt::Timestamp(5)).unwrap();
    assert_eq!(view.tx_cursor(), 7);
    let view = db.create_read_view(Some(3), 7, ValidAt::AnyValidTime).unwrap();
    assert_eq!((view.tx_cursor(), view.valid_at), (3, ValidAt::AnyValidTime));
    assert_eq!(
        db.create_read_view(Some(8), 7, ValidAt::AnyValidTime).unwrap_err().message(),
        "read-view as_of 8 is newer than current transaction 7"
    );
    let mut db = db;
    db.begin_mutation().unwrap();
    assert_eq!(
        db.create_read_view(None, 7, ValidAt::AnyValidTime),
        Err(ReadViewError::Guard(GuardError::MutationAwaitingDurability))
    );
}

#[test]
fn paged_read_gives_its_staged_pages_up() {
    let mut db = paged_db();
    assert_eq!(db.begin_paged_read(), Ok(true));
    db.buffer_mut().stage_clean_pages(vec![(1, page(1)), (2, page(2))]).unwrap();
    assert_eq!(db.buffer().resident_page_count(), 3);
    db.evict_aggregate_staging();
    assert_eq!(db.buffer().resident_page_count(), 3);
    db.finish_paged_read();
    assert_eq!(db.buffer().resident_page_count(), 1);
    assert_eq!(db.ensure_usable(), Ok(()));
}

const OPEN: i64 = i64::MIN;
const GROWING: DeltaMaintenanceDecision = DeltaMaintenanceDecision::ContinueDeltaAppend;

fn batch() -> MaterializedAtomicWrite<&'static str> {
    MaterializedAtomicWrite {
        facts: vec![fact("a", OPEN), fact("b", 7)],
        command_count: 2,
        transacted_fact_count: 1,
        retracted_fact_count: 1,
    }
}

/// Start a write on a handle and change one page.
fn pending_receipt(db: &mut BrowserDb) -> PendingReceipt {
    db.begin_mutation().unwrap();
    let claim = db.start_write(vec![fact("a", OPEN)], false, 50, OPEN);
    let (_, recorded) = claim.claimed(4).unwrap();
    let page_zero = db.buffer().read_page(0).unwrap();
    db.buffer_mut().write_page(0, &page_zero).unwrap();
    match recorded.saved(db, Ok(HashSet::from([0])), GROWING).unwrap() {
        Collected::Publish { receipt, .. } => receipt,
        Collected::Done(_) => panic!("a dirty page has to be published"),
    }
}

#[test]
fn published_write_leaves_a_clean_usable_handle() {
    let mut db = paged_db();
    db.begin_mutation().unwrap();
    let batch = AtomicBatch::new(batch(), 50, 3, OPEN);
    assert_eq!(batch.facts()[0], Fact { body: "a", valid_from: 50, tx_id: 50, tx_count: 4 });
    assert_eq!(batch.facts()[1], Fact { body: "b", valid_from: 7, tx_id: 50, tx_count: 4 });
    let claim = batch.measured(&mut db, &vec![10, 20], 20).unwrap();
    let (facts, recorded) = claim.claimed(4).unwrap();
    assert_eq!(facts.len(), 2);
    assert_eq!(facts[1], Fact { body: "b", valid_from: 7, tx_id: 50, tx_count: 4 });
    let buffer = db.buffer_mut();
    buffer.stage_clean_pages(vec![(1, page(1)), (2, page(2)), (3, page(3))]).unwrap();
    buffer.write_page(1, &page(9)).unwrap();
    buffer.write_page(0, &page_zero(4)).unwrap();
    let collected = recorded.saved(&mut db, Ok(HashSet::from([0])), GROWING).unwrap();
    let Collected::Publish { mut pages, receipt } = collected else {
        panic!("dirty pages have to be published")
    };
    pages.sort();
    assert_eq!(pages, vec![(0, page_zero(4)), (1, page(9))]);
    assert_eq!(
        receipt.settle(&mut db, PublicationOutcome::Published).unwrap(),
        concat_receipt("published")
    );
    db.finish_mutation(false);
    assert_eq!(db.ensure_usable(), Ok(()));
    assert_eq!(db.buffer().dirty_page_count(), 0);
    assert_eq!(db.buffer().resident_page_count(), 1);
}

fn concat_receipt(durability: &str) -> String {
    let summary = AtomicWriteSummary {
        command_count: 2,
        transacted_fact_count: 1,
        retracted_fact_count: 1,
        tx_id: 50,
        tx_count: 4,
    };
    atomic_receipt(summary, durability == "published", GROWING)
}

#[test]
fn refused_batch_does_not_poison() {
    let mut db = paged_db();
    db.begin_mutation().unwrap();
    let stamped = AtomicBatch::new(batch(), 50, 3, OPEN);
    let refused = stamped.measured(&mut db, &vec![10, 21], 20).err().unwrap();
    assert_eq!(refused, AtomicWriteError::FactTooLarge { index: 1, size: 21, limit: 20 });
    assert_eq!(
        refused.message(),
        "executeAtomic fact 1 serialised size 21 bytes exceeds maximum slot size 20 bytes"
    );
    assert!(!db.guard().mutation_advanced);
    db.finish_mutation(true);
    assert_eq!(db.ensure_usable(), Ok(()));

    db.begin_mutation().unwrap();
    let stamped = AtomicBatch::new(batch(), 50, 3, OPEN);
    let claim = stamped.measured(&mut db, &vec![10, 20], 20).unwrap();
    assert!(matches!(claim.claimed(5), Err(AtomicWriteError::CounterChanged)));
    db.finish_mutation(true);
    assert_eq!(db.ensure_usable(), Err(GuardError::DurabilityUncertain));
}

#[test]
fn forgetting_nothing_claims_nothing() {
    let mut db = paged_db();
    db.begin_mutation().unwrap();
    match db.start_forget::<u8>(vec![], 0, 50) {
        ForgetStart::Noop(receipt) => assert_eq!(receipt, empty_forget_receipt()),
        ForgetStart::Claim(_) => panic!("nothing matched"),
    }
    assert!(!db.guard().mutation_advanced);
    match db.start_forget(vec![fact("a", OPEN)], 1, 50) {
        ForgetStart::Noop(_) => panic!("one fact matched"),
        ForgetStart::Claim(claim) => {
            let (facts, _) = claim.claimed(9).unwrap();
            assert_eq!(facts, vec![Fact { body: "a", valid_from: OPEN, tx_id: 50, tx_count: 9 }]);
        }
    }
    assert!(db.guard().mutation_advanced);
}

#[test]
fn failed_flush_restores_or_poisons() {
    let mut db = paged_db();
    let receipt = pending_receipt(&mut db);
    let failed = PublicationOutcome::Failed {
        write_error: "quota".to_owned(),
        reopened: Ok((eager_buffer(), false)),
    };
    assert_eq!(receipt.settle(&mut db, failed), Err("quota".to_owned()));
    db.finish_mutation(true);
    assert_eq!(db.ensure_usable(), Ok(()));
    assert!(!db.guard().paged);
    assert!(!db.buffer().is_sparse());

    let receipt = pending_receipt(&mut db);
    let failed = PublicationOutcome::Failed {
        write_error: "quota".to_owned(),
        reopened: Err("gone".to_owned()),
    };
    assert_eq!(
        receipt.settle(&mut db, failed).unwrap_err(),
        "IndexedDB write failed and previous durable graph could not be reopened: write=quota; \
         reopen=gone"
    );
    db.finish_mutation(true);
    assert_eq!(db.ensure_usable(), Err(GuardError::DurabilityUncertain));
}

#[test]
fn in_memory_write_has_nothing_to_publish() {
    let mut db = BrowserDb::open_in_memory(page_zero(1));
    db.begin_mutation().unwrap();
    let claim = db.start_write(vec![fact("a", OPEN)], true, 50, OPEN);
    let (facts, recorded) = claim.claimed(4).unwrap();
    assert_eq!(facts, vec![Fact { body: "a", valid_from: 50, tx_id: 50, tx_count: 4 }]);
    db.buffer_mut().write_page(0, &page_zero(1)).unwrap();
    match recorded.saved(&mut db, Err("not asked for".to_owned()), GROWING).unwrap() {
        Collected::Done(receipt) => {
            assert_eq!(receipt, write_receipt(true, 50, 4, false, GROWING));
        }
        Collected::Publish { .. } => panic!("there is no page store"),
    }
    db.finish_mutation(false);
    assert_eq!(db.buffer().resident_page_count(), 1);
    assert_eq!(db.buffer().dirty_page_count(), 0);
    let refused: Result<(), &str> = Err("quota");
    assert_eq!(db.install(refused, eager_buffer(), true), Err("quota"));
    assert!(!db.guard().paged);
    assert_eq!(db.install::<&str>(Ok(()), eager_buffer(), true), Ok(()));
    assert!(db.guard().paged);
}

#[test]
fn clean_checkpoint_has_no_receipt() {
    let mut db = paged_db();
    db.begin_mutation().unwrap();
    let recorded = db.start_checkpoint();
    assert!(db.guard().mutation_advanced);
    match recorded.saved(&mut db, Ok(HashSet::from([0])), GROWING).unwrap() {
        Collected::Done(receipt) => assert_eq!(receipt, ""),
        Collected::Publish { .. } => panic!("no page is dirty"),
    }
}

#[test]
fn unpinnable_authority_stops_a_publication() {
    let mut db = paged_db();
    let recorded = db.start_checkpoint();
    assert_eq!(
        recorded.saved(&mut db, Ok(HashSet::from([3])), GROWING).err().unwrap(),
        BufferError::PinNotResident { page_id: 3 }.message()
    );
    let recorded = db.start_checkpoint();
    assert_eq!(
        recorded.saved(&mut db, Err("no manifest".to_owned()), GROWING).err().unwrap(),
        "no manifest"
    );
    let mut buffer = eager_buffer();
    buffer.write_page(1, &page(1)).unwrap();
    assert_eq!(take_dirty_pages(&mut buffer).unwrap(), vec![(1, page(1))]);
    assert_eq!(buffer.dirty_page_count(), 0);
    assert_eq!(js_value_message(Some("x".to_owned())), "x");
    assert_eq!(js_value_message(None), "non-string JavaScript error");
}

#[test]
fn recompaction_replaces_the_image_once_it_is_durable() {
    let mut db = paged_db();
    match db.start_maintenance(GROWING, false) {
        MaintenanceStart::Noop(report) => assert_eq!(report, run_report(GROWING, 4, None)),
        MaintenanceStart::Recompact(_) => panic!("the lineage has not grown"),
    }
    let due = DeltaMaintenanceDecision::ScheduleBackgroundRecompact;
    for durable in [false, true] {
        let MaintenanceStart::Recompact(pending) = db.start_maintenance(due, false) else {
            panic!("the lineage has grown")
        };
        let candidate = BrowserBufferBackend::load_pages_all_dirty(HashMap::from([
            (0, page_zero(2)),
            (1, page(7)),
        ]));
        let pins = Ok(HashSet::from([0]));
        let (pages, replacement) =
            pending.built(BrowserOpenMode::Paged, candidate, pins).unwrap();
        assert_eq!(pages, vec![(0, page_zero(2)), (1, page(7))]);
        let outcome = if durable { Ok(()) } else { Err("quota".to_owned()) };
        let settled = replacement.settle(&mut db, outcome);
        if durable {
            assert_eq!(settled.unwrap(), run_report(due, 4, Some(2)));
            assert_eq!(db.buffer().page_count_raw(), Ok(2));
            assert_eq!(db.buffer().resident_page_count(), 1);
            assert!(db.guard().paged);
        } else {
            assert_eq!(settled.unwrap_err(), "quota");
            assert_eq!(db.buffer().page_count_raw(), Ok(4));
        }
    }
    let MaintenanceStart::Recompact(pending) = db.start_maintenance(GROWING, true) else {
        panic!("forced maintenance runs")
    };
    let refused = pending.built(
        BrowserOpenMode::Paged,
        BrowserBufferBackend::new(),
        Err("no manifest".to_owned()),
    );
    assert_eq!(refused.err().unwrap(), "no manifest");
    let reopened = PendingReplacement::reopened(eager_buffer(), false, "done".to_owned());
    assert_eq!(reopened.settle(&mut db, Ok(())).unwrap(), "done");
    assert!(!db.guard().paged);
}

#[test]
fn commands_take_their_routes() {
    assert_eq!(command_route(CommandKind::Query), CommandRoute::Read);
    assert_eq!(command_route(CommandKind::Rule), CommandRoute::Read);
    assert_eq!(
        command_route(CommandKind::Transact),
        CommandRoute::Write { is_retract: false }
    );
    assert_eq!(
        command_route(CommandKind::Retract),
        CommandRoute::Write { is_retract: true }
    );
    assert_eq!(command_route(CommandKind::Forget), CommandRoute::ResolveThenClose);
    assert_eq!(read_plan(None), ReadPlan { prefetch: false, batch_pages: 1 });
    assert_eq!(
        read_plan(Some((true, 32))),
        ReadPlan { prefetch: true, batch_pages: 32 }
    );
    assert_eq!(
        missing_source_message(SourceUse::Scan),
        "paged scan is missing its IndexedDB source"
    );
}

fn fact(body: &'static str, valid_from: i64) -> Fact<&'static str> {
    Fact { body, valid_from, tx_id: 0, tx_count: 0 }
}

#[test]
fn facts_of_one_transaction_share_its_stamp() {
    let stamp = TransactionStamp { tx_id: 1_000, tx_count: 5, use_tx_time: i64::MIN };
    let stamped = stamp_facts(vec![fact("a", i64::MIN), fact("b", 7)], stamp);
    assert_eq!(
        stamped,
        vec![
            Fact { body: "a", valid_from: 1_000, tx_id: 1_000, tx_count: 5 },
            Fact { body: "b", valid_from: 7, tx_id: 1_000, tx_count: 5 },
        ]
    );
    let closures = stamp_closures(vec![fact("c", i64::MIN)], stamp);
    assert_eq!(closures[0].valid_from, i64::MIN);
    let (stamped, tx_count) = stamp_atomic_write(vec![fact("d", 1)], 9, 4, i64::MIN);
    assert_eq!((tx_count, stamped[0].tx_count, stamped[0].tx_id), (5, 5, 9));
    assert_eq!(stamp_atomic_write::<()>(vec![], 9, u64::MAX, 0).1, u64::MAX);
    assert_eq!(cast_signed(u64::MAX), -1);
    assert_eq!(cast_signed(1 << 63), i64::MIN);
    assert_eq!(closure_time(Some(3), 9), 3);
    assert_eq!(closure_time(None, 9), 9);
    assert_eq!(admit_fact_sizes(&vec![], 0), Ok(()));
    assert_eq!(admit_claimed_position(5, 5), Ok(()));
    assert_eq!(
        admit_claimed_position(6, 5).unwrap_err().message(),
        "executeAtomic transaction counter changed while the mutation guard was held"
    );
}

#[test]
fn receipts_are_rendered() {
    let quiet = DeltaMaintenanceDecision::ContinueDeltaAppend;
    let soft = DeltaMaintenanceDecision::ScheduleBackgroundRecompact;
    let hard = DeltaMaintenanceDecision::MaintenanceBackpressure;
    assert_eq!(browser_write_advice(soft), "schedule_idle_maintenance");
    assert_eq!(
        write_receipt(false, 9, 2, true, quiet),
        r#"{"advice":"none","durability":"published","maintenance_pending":false,"transacted":9,"tx_count":2,"tx_id":9}"#
    );
    assert_eq!(
        write_receipt(true, 9, 2, false, soft),
        r#"{"advice":"schedule_idle_maintenance","durability":"memory","maintenance_pending":true,"retracted":9,"tx_count":2,"tx_id":9}"#
    );
    let summary = AtomicWriteSummary {
        command_count: 2,
        transacted_fact_count: 3,
        retracted_fact_count: 4,
        tx_id: 9,
        tx_count: 2,
    };
    assert_eq!(
        atomic_receipt(summary, true, hard),
        r#"{"advice":"reduce_checkpoint_cadence","atomic":true,"command_count":2,"durability":"published","fact_count":7,"maintenance_pending":true,"retracted_fact_count":4,"transacted":9,"transacted_fact_count":3,"tx_count":2,"tx_id":9}"#
    );
    assert_eq!(
        forget_receipt(1, 9, 2, true, quiet),
        r#"{"advice":"none","durability":"published","forgotten":1,"maintenance_pending":false,"tx_count":2,"tx_id":9}"#
    );
    assert_eq!(
        empty_forget_receipt(),
        r#"{"advice":"none","durability":"noop","forgotten":0,"maintenance_pending":false,"tx_count":null,"tx_id":null}"#
    );
}

#[test]
fn maintenance_is_due_under_pressure() {
    let quiet = DeltaMaintenanceDecision::ContinueDeltaAppend;
    let hard = DeltaMaintenanceDecision::MaintenanceBackpressure;
    assert!(maintenance_due(true, false, hard) && maintenance_due(true, true, quiet));
    assert!(!maintenance_due(true, false, quiet) && !maintenance_due(false, true, hard));
    assert_eq!(maintenance_advice(hard), "reduce_checkpoint_cadence");
    assert_eq!(
        run_report(quiet, 7, None),
        r#"{"advice":"none","after_pages":7,"before_pages":7,"checkpoint":"noop","delta":"noop"}"#
    );
    assert_eq!(
        run_report(hard, 7, Some(5)),
        r#"{"advice":"reduce_checkpoint_cadence","after_pages":5,"before_pages":7,"checkpoint":"noop","delta":"recompacted"}"#
    );
    let pages = HashMap::from([(0, page_zero(2)), (1, page(1))]);
    let mut candidate = BrowserBufferBackend::load_pages_all_dirty(pages);
    ready_paged_candidate(&mut candidate, HashSet::from([0])).unwrap();
    assert_eq!(candidate.resident_page_count(), 1);
    assert!(ready_paged_candidate(&mut candidate, HashSet::from([1])).is_err());
}

#[test]
fn projection_rebuild_keeps_its_budget() {
    let image = |padded_bytes, row_count| ImageSize { padded_bytes, row_count };
    assert_eq!(
        admit_images(&vec![image(4096, 3), image(8192, 4)], 12_288),
        Ok(ProjectionTotals { bytes: 12_288, rows: 7 })
    );
    assert_eq!(
        admit_images(&vec![image(4096, 3), image(8192, 4)], 12_287).unwrap_err().message(),
        "current projection images require 12288 bytes, exceeding the 12287-byte maintenance budget"
    );
    assert_eq!(
        admit_images(&vec![image(u64::MAX, 0), image(1, 0)], u64::MAX),
        Err(RebuildError::ByteCountOverflow)
    );
    assert_eq!(
        admit_images(&vec![image(0, u64::MAX), image(0, 1)], 9),
        Err(RebuildError::RowCountOverflow)
    );
    assert_eq!(valid_time_floor(5), Ok(5));
    assert_eq!(valid_time_floor(1 << 63), Err(RebuildError::FloorOverflow));
    assert_eq!(require_persistent(true), Ok(()));
    assert_eq!(
        require_persistent(false).unwrap_err().message(),
        "current projection rebuild requires a persistent maintenance ledger"
    );
    assert_eq!(
        rebuild_receipt(RebuildReceipt {
            generation: 1,
            base_generation: 2,
            manifest_generation: 3,
            tx_count: 4,
            valid_time_floor: -5,
            attribute_count: 6,
            row_count: 7,
            projection_bytes: 8,
            before_pages: 9,
            after_pages: 10,
            arena_reused: true,
        }),
        r#"{"after_pages":10,"arena_reused":true,"attribute_count":6,"base_generation":2,"before_pages":9,"checkpoint":"noop","generation":1,"manifest_generation":3,"projection_bytes":8,"row_count":7,"tx_count":4,"valid_time_floor":-5}"#
    );
}
