//! The course of one mutation, from its facts to its receipt.
//!
//! Every stage is a value that the next stage consumes, so the stages can be
//! passed in one order only: a mutation starts, claims its place in the ledger,
//! records its facts, is saved, and has its pages published. The receipt comes
//! out of the last stage.

use crate::browser::buffer::{evicted, read_outcome, BrowserBufferBackend, BufferView};
use crate::browser::buffer_error::BufferError;
use crate::browser::db::{restore_failure_text, BrowserDb, BrowserDbView, DirtyPageError};
use crate::browser::guard::HandleGuard;
use crate::browser::paging::{authority_accepts, authority_fault};
use crate::browser::receipt_laws::{
    law_atomic_receipt_counts_the_batch, law_forget_receipt_counts_the_closures,
    law_write_receipt_names_the_transaction, says_of_durability, says_of_growth,
};
use crate::browser::write::{
    admit_claimed_position, admit_fact_sizes, atomic_receipt, atomic_receipt_fields,
    empty_forget_fields, empty_forget_receipt, forget_receipt, forget_receipt_fields,
    next_tx_count, stamp_atomic_write, stamp_closures, stamp_facts, stamped, stamped_closure,
    write_receipt, write_receipt_fields, AtomicWriteError, AtomicWriteSummary,
    DeltaMaintenanceDecision, Fact, MaterializedAtomicWrite, TransactionStamp,
};
use crate::json::{json_text, JsonField};
use std::collections::HashSet;
use vstd::prelude::*;

verus! {

/// What a mutation does.
#[derive(Clone, Copy, Debug, PartialEq, Eq, Structural)]
pub enum MutationKind {
    /// Asserts or retracts facts.
    Write { is_retract: bool },
    /// Records a mixed batch as one transaction.
    Atomic { command_count: usize, transacted_fact_count: usize, retracted_fact_count: usize },
    /// Closes valid-time windows.
    Forget { count: usize },
    /// Publishes what is already recorded.
    Checkpoint,
}

/// What the receipt of an atomic batch is about.
pub open spec fn atomic_summary(kind: MutationKind, tx_id: u64, tx_count: u64) -> AtomicWriteSummary
    recommends
        kind is Atomic,
{
    AtomicWriteSummary {
        command_count: kind->command_count,
        transacted_fact_count: kind->transacted_fact_count,
        retracted_fact_count: kind->retracted_fact_count,
        tx_id,
        tx_count,
    }
}

/// The receipt of a mutation. A checkpoint has none: its text is empty.
pub open spec fn receipt_text(
    recorded: RecordedView,
    persistent: bool,
    decision: DeltaMaintenanceDecision,
) -> Seq<char> {
    let (tx_id, tx_count) = (recorded.tx_id, recorded.tx_count);
    match recorded.kind {
        MutationKind::Write { is_retract } => json_text(
            write_receipt_fields(is_retract, tx_id, tx_count, persistent, decision),
        ),
        MutationKind::Atomic { .. } => json_text(
            atomic_receipt_fields(
                atomic_summary(recorded.kind, tx_id, tx_count),
                persistent,
                decision,
            ),
        ),
        MutationKind::Forget { count } => json_text(
            forget_receipt_fields(count, tx_id, tx_count, persistent, decision),
        ),
        MutationKind::Checkpoint => Seq::empty(),
    }
}

/// The state of a handle whose mutation has started to change live state.
pub open spec fn advanced(view: BrowserDbView) -> BrowserDbView {
    BrowserDbView { guard: HandleGuard { mutation_advanced: true, ..view.guard }, ..view }
}

/// How the facts of a mutation take their place in the ledger.
#[derive(Clone, Copy, Debug, PartialEq, Eq, Structural)]
pub enum StampRule {
    /// A `valid_from` that stands for the transaction's own time is filled in.
    OpenWindows { use_tx_time: i64 },
    /// The valid-time windows are fixed.
    FixedWindows,
    /// The facts are stamped for this position.
    Stamped { position: u64 },
}

/// A mutation that has started to change live state and has to claim its place
/// in the ledger.
pub struct PendingClaim<B> {
    kind: MutationKind,
    facts: Vec<Fact<B>>,
    tx_id: u64,
    rule: StampRule,
}

/// A mutation that has to claim its place.
#[verifier::ext_equal]
pub struct PendingClaimView<B> {
    /// What it does.
    pub kind: MutationKind,
    /// Its facts.
    pub facts: Seq<Fact<B>>,
    /// Wall-clock id of the transaction.
    pub tx_id: u64,
    /// How the facts take their place.
    pub rule: StampRule,
}

impl<B> View for PendingClaim<B> {
    type V = PendingClaimView<B>;

    closed spec fn view(&self) -> PendingClaimView<B> {
        PendingClaimView {
            kind: self.kind,
            facts: self.facts@,
            tx_id: self.tx_id,
            rule: self.rule,
        }
    }
}

/// A fact as it is recorded at position `tx_count`.
pub open spec fn recorded_fact<B>(
    fact: Fact<B>,
    tx_id: u64,
    rule: StampRule,
    tx_count: u64,
) -> Fact<B> {
    match rule {
        StampRule::OpenWindows { use_tx_time } => stamped(
            fact,
            TransactionStamp { tx_id, tx_count, use_tx_time },
        ),
        StampRule::FixedWindows => stamped_closure(
            fact,
            TransactionStamp { tx_id, tx_count, use_tx_time: 0 },
        ),
        StampRule::Stamped { .. } => fact,
    }
}

/// A mutation whose facts are recorded in live state and have to be saved.
pub struct Recorded {
    kind: MutationKind,
    tx_id: u64,
    tx_count: u64,
}

/// A recorded mutation.
pub struct RecordedView {
    /// What it does.
    pub kind: MutationKind,
    /// Wall-clock id of the transaction.
    pub tx_id: u64,
    /// Position of the transaction.
    pub tx_count: u64,
}

impl View for Recorded {
    type V = RecordedView;

    closed spec fn view(&self) -> RecordedView {
        RecordedView { kind: self.kind, tx_id: self.tx_id, tx_count: self.tx_count }
    }
}

/// How a forget starts.
pub enum ForgetStart<B> {
    /// Nothing matched. This is the receipt.
    Noop(String),
    /// The closures have to claim their place.
    Claim(PendingClaim<B>),
}

impl BrowserDb {
    /// Start to assert or retract facts.
    pub fn start_write<B>(
        &mut self,
        facts: Vec<Fact<B>>,
        is_retract: bool,
        tx_id: u64,
        use_tx_time: i64,
    ) -> (claim: PendingClaim<B>)
        ensures
            final(self)@ == advanced(old(self)@),
            claim@ == (PendingClaimView {
                kind: MutationKind::Write { is_retract },
                facts: facts@,
                tx_id,
                rule: StampRule::OpenWindows { use_tx_time },
            }),
    {
        self.advance_mutation();
        PendingClaim {
            kind: MutationKind::Write { is_retract },
            facts,
            tx_id,
            rule: StampRule::OpenWindows { use_tx_time },
        }
    }

    /// Start to close valid-time windows. Where nothing matched, nothing
    /// changes and no position is claimed.
    pub fn start_forget<B>(&mut self, facts: Vec<Fact<B>>, count: usize, tx_id: u64) -> (start:
        ForgetStart<B>)
        ensures
            match start {
                ForgetStart::Noop(receipt) => {
                    &&& facts@.len() == 0
                    &&& receipt@ == json_text(empty_forget_fields())
                    &&& final(self)@ == old(self)@
                },
                ForgetStart::Claim(claim) => {
                    &&& facts@.len() > 0
                    &&& claim@ == (PendingClaimView {
                        kind: MutationKind::Forget { count },
                        facts: facts@,
                        tx_id,
                        rule: StampRule::FixedWindows,
                    })
                    &&& final(self)@ == advanced(old(self)@)
                },
            },
    {
        if facts.len() == 0 {
            return ForgetStart::Noop(empty_forget_receipt());
        }
        self.advance_mutation();
        ForgetStart::Claim(
            PendingClaim {
                kind: MutationKind::Forget { count },
                facts,
                tx_id,
                rule: StampRule::FixedWindows,
            },
        )
    }

    /// Start a checkpoint. It records nothing of its own.
    pub fn start_checkpoint(&mut self) -> (recorded: Recorded)
        ensures
            final(self)@ == advanced(old(self)@),
            recorded@ == (RecordedView { kind: MutationKind::Checkpoint, tx_id: 0, tx_count: 0 }),
    {
        self.advance_mutation();
        Recorded { kind: MutationKind::Checkpoint, tx_id: 0, tx_count: 0 }
    }

    /// Cross the boundary of an atomic batch: where every stamped fact fits
    /// into its slot, live state starts to advance. A refused batch changes
    /// nothing.
    fn enter_atomic_write(&mut self, sizes: &Vec<usize>, limit: usize) -> (result: Result<
        (),
        AtomicWriteError,
    >)
        ensures
            match result {
                Ok(_) => {
                    &&& forall|i: int| 0 <= i < sizes@.len() ==> #[trigger] sizes@[i] <= limit
                    &&& final(self)@ == (BrowserDbView {
                        guard: HandleGuard { mutation_advanced: true, ..old(self)@.guard },
                        ..old(self)@
                    })
                },
                Err(fault) => {
                    &&& exists|i: int|
                        0 <= i < sizes@.len() && #[trigger] sizes@[i] > limit && fault == (
                        AtomicWriteError::FactTooLarge { index: i as usize, size: sizes@[i], limit })
                            && forall|j: int| 0 <= j < i ==> #[trigger] sizes@[j] <= limit
                    &&& final(self)@ == old(self)@
                },
            },
    {
        match admit_fact_sizes(sizes, limit) {
            Ok(_) => {
                self.advance_mutation();
                Ok(())
            },
            Err(fault) => Err(fault),
        }
    }

}

/// An atomic batch that is stamped but has not touched live state.
pub struct AtomicBatch<B> {
    kind: MutationKind,
    facts: Vec<Fact<B>>,
    tx_id: u64,
    position: u64,
}

/// A stamped atomic batch.
#[verifier::ext_equal]
pub struct AtomicBatchView<B> {
    /// What it does.
    pub kind: MutationKind,
    /// The stamped facts.
    pub facts: Seq<Fact<B>>,
    /// Wall-clock id of the transaction.
    pub tx_id: u64,
    /// The position that the facts are stamped with.
    pub position: u64,
}

impl<B> View for AtomicBatch<B> {
    type V = AtomicBatchView<B>;

    closed spec fn view(&self) -> AtomicBatchView<B> {
        AtomicBatchView {
            kind: self.kind,
            facts: self.facts@,
            tx_id: self.tx_id,
            position: self.position,
        }
    }
}

impl<B> AtomicBatch<B> {
    /// Stamp a batch for the position after the current one.
    pub fn new(
        write: MaterializedAtomicWrite<B>,
        tx_id: u64,
        current_tx_count: u64,
        use_tx_time: i64,
    ) -> (batch: Self)
        ensures
            batch@.kind == (MutationKind::Atomic {
                command_count: write.command_count,
                transacted_fact_count: write.transacted_fact_count,
                retracted_fact_count: write.retracted_fact_count,
            }),
            batch@.tx_id == tx_id,
            batch@.position == next_tx_count(current_tx_count),
            batch@.facts.len() == write.facts@.len(),
            forall|i: int|
                0 <= i < write.facts@.len() ==> #[trigger] batch@.facts[i] == stamped(
                    write.facts@[i],
                    (TransactionStamp {
                        tx_id,
                        tx_count: next_tx_count(current_tx_count),
                        use_tx_time,
                    }),
                ),
    {
        let kind = MutationKind::Atomic {
            command_count: write.command_count,
            transacted_fact_count: write.transacted_fact_count,
            retracted_fact_count: write.retracted_fact_count,
        };
        let (facts, position) = stamp_atomic_write(
            write.facts,
            tx_id,
            current_tx_count,
            use_tx_time,
        );
        AtomicBatch { kind, facts, tx_id, position }
    }

    /// The stamped facts, whose encoded sizes decide whether the batch starts.
    pub fn facts(&self) -> (facts: &Vec<Fact<B>>)
        ensures
            facts@ == self@.facts,
    {
        &self.facts
    }

    /// Start the batch, where every fact fits into its slot. A refused batch
    /// changes nothing.
    pub fn measured(self, db: &mut BrowserDb, sizes: &Vec<usize>, limit: usize) -> (result: Result<
        PendingClaim<B>,
        AtomicWriteError,
    >)
        requires
            sizes@.len() == self@.facts.len(),
        ensures
            match result {
                Ok(claim) => {
                    &&& forall|i: int| 0 <= i < sizes@.len() ==> #[trigger] sizes@[i] <= limit
                    &&& claim@ == (PendingClaimView {
                        kind: self@.kind,
                        facts: self@.facts,
                        tx_id: self@.tx_id,
                        rule: StampRule::Stamped { position: self@.position },
                    })
                    &&& final(db)@ == advanced(old(db)@)
                },
                Err(fault) => {
                    &&& exists|i: int|
                        0 <= i < sizes@.len() && #[trigger] sizes@[i] > limit && fault == (
                        AtomicWriteError::FactTooLarge { index: i as usize, size: sizes@[i], limit })
                            && forall|j: int| 0 <= j < i ==> #[trigger] sizes@[j] <= limit
                    &&& final(db)@ == old(db)@
                },
            },
    {
        match db.enter_atomic_write(sizes, limit) {
            Ok(_) => Ok(
                PendingClaim {
                    kind: self.kind,
                    facts: self.facts,
                    tx_id: self.tx_id,
                    rule: StampRule::Stamped { position: self.position },
                },
            ),
            Err(fault) => Err(fault),
        }
    }
}

impl<B> PendingClaim<B> {
    /// Take in the position that was claimed. The result holds the facts to
    /// record there. Facts that are already stamped are recorded at their own
    /// position only.
    pub fn claimed(self, tx_count: u64) -> (result: Result<
        (Vec<Fact<B>>, Recorded),
        AtomicWriteError,
    >)
        ensures
            match result {
                Ok((facts, recorded)) => {
                    &&& self@.rule matches StampRule::Stamped { position } ==> position == tx_count
                    &&& facts@.len() == self@.facts.len()
                    &&& forall|i: int|
                        0 <= i < facts@.len() ==> #[trigger] facts@[i] == recorded_fact(
                            self@.facts[i],
                            self@.tx_id,
                            self@.rule,
                            tx_count,
                        )
                    &&& recorded@ == (RecordedView {
                        kind: self@.kind,
                        tx_id: self@.tx_id,
                        tx_count,
                    })
                },
                Err(fault) => {
                    &&& self@.rule matches StampRule::Stamped { position } && position != tx_count
                    &&& fault == AtomicWriteError::CounterChanged
                },
            },
    {
        let tx_id: u64 = self.tx_id;
        let recorded = Recorded { kind: self.kind, tx_id, tx_count };
        match self.rule {
            StampRule::OpenWindows { use_tx_time } => {
                let stamp = TransactionStamp { tx_id, tx_count, use_tx_time };
                Ok((stamp_facts(self.facts, stamp), recorded))
            },
            StampRule::FixedWindows => {
                let stamp = TransactionStamp { tx_id, tx_count, use_tx_time: 0 };
                Ok((stamp_closures(self.facts, stamp), recorded))
            },
            StampRule::Stamped { position } => match admit_claimed_position(tx_count, position) {
                Ok(_) => Ok((self.facts, recorded)),
                Err(fault) => Err(fault),
            },
        }
    }
}

/// `pages` are exactly the dirty pages of a buffer.
pub open spec fn publishes_dirty(buffer: BufferView, pages: Seq<(u64, Vec<u8>)>) -> bool {
    &&& pages.len() == buffer.dirty.len()
    &&& forall|i: int|
        0 <= i < pages.len() ==> buffer.dirty.contains((#[trigger] pages[i]).0) && read_outcome(
            buffer,
            pages[i].0,
        ) == Ok::<Seq<u8>, BufferError>(pages[i].1@)
    &&& forall|id: u64| #[trigger]
        buffer.dirty.contains(id) ==> exists|i: int|
            0 <= i < pages.len() && (#[trigger] pages[i]).0 == id
}

/// The state of a handle whose dirty pages have been drained.
pub open spec fn drained(view: BrowserDbView) -> BrowserDbView {
    BrowserDbView { buffer: BufferView { dirty: Set::empty(), ..view.buffer }, ..view }
}

/// The state of a paged handle with new authority pins.
pub open spec fn repinned(view: BrowserDbView, pins: Set<u64>) -> BrowserDbView {
    if view.guard.paged {
        BrowserDbView {
            buffer: BufferView { pinned: pins, sparse: true, ..view.buffer },
            ..view
        }
    } else {
        view
    }
}

/// The authority pins that a saved image was found to have.
pub open spec fn found_pins(pins: Result<HashSet<u64>, String>) -> Set<u64> {
    match pins {
        Ok(pins) => pins@,
        Err(_) => Set::empty(),
    }
}

/// Whether a handle takes over a saved image: a paged one needs the authority
/// pins of the image.
pub open spec fn takes_over(view: BrowserDbView, pins: Result<HashSet<u64>, String>) -> bool {
    view.guard.paged ==> pins is Ok && authority_accepts(drained(view).buffer, found_pins(pins))
}

/// Whether every dirty page can be read back.
pub open spec fn dirty_readable(buffer: BufferView) -> bool {
    forall|id: u64| #[trigger] buffer.dirty.contains(id) ==> read_outcome(buffer, id) is Ok
}

/// The dirty pages of a well-formed buffer can always be read back, so what a
/// mutation changed can always be collected.
pub proof fn law_dirty_pages_are_readable(buffer: BufferView)
    requires
        buffer.wf(),
    ensures
        dirty_readable(buffer),
{
}

/// Why the pages of a saved image could not be collected: a dirty page cannot
/// be read, the authority pins are unknown, or the image does not hold them.
pub open spec fn collect_fault(
    view: BrowserDbView,
    pins: Result<HashSet<u64>, String>,
    text: Seq<char>,
) -> bool {
    ||| exists|fault: DirtyPageError|
        view.buffer.dirty.contains(fault.page_id) && read_outcome(view.buffer, fault.page_id)
            == Err::<Seq<u8>, BufferError>(fault.error) && text == #[trigger] fault.text()
    ||| dirty_readable(view.buffer) && view.guard.paged && pins is Err && text == pins->Err_0@
    ||| dirty_readable(view.buffer) && view.guard.paged && pins is Ok && exists|fault: BufferError|
        authority_fault(drained(view).buffer, found_pins(pins), fault) && text
            == #[trigger] fault.text()
}

/// A publication that succeeded leads from one state of the handle to the
/// other: a paged handle gives up its staged pages.
pub open spec fn unstaged(before: BrowserDbView, after: BrowserDbView) -> bool {
    &&& after == (BrowserDbView { buffer: after.buffer, ..before })
    &&& if before.guard.paged {
        evicted(before.buffer, 0, after.buffer)
    } else {
        after.buffer == before.buffer
    }
}

/// The receipt of a mutation whose pages have to be published first.
pub struct PendingReceipt {
    text: String,
}

impl View for PendingReceipt {
    type V = Seq<char>;

    closed spec fn view(&self) -> Seq<char> {
        self.text@
    }
}

/// What has to become of a saved mutation.
pub enum Collected {
    /// There is nothing to publish, or nowhere to. This is the receipt.
    Done(String),
    /// Publish these pages in one transaction.
    Publish { pages: Vec<(u64, Vec<u8>)>, receipt: PendingReceipt },
}

impl Recorded {
    fn render_receipt(&self, persistent: bool, decision: DeltaMaintenanceDecision) -> (text: String)
        ensures
            text@ == receipt_text(self@, persistent, decision),
    {
        let (tx_id, tx_count) = (self.tx_id, self.tx_count);
        match self.kind {
            MutationKind::Write { is_retract } => write_receipt(
                is_retract,
                tx_id,
                tx_count,
                persistent,
                decision,
            ),
            MutationKind::Atomic { command_count, transacted_fact_count, retracted_fact_count } => {
                let summary = AtomicWriteSummary {
                    command_count,
                    transacted_fact_count,
                    retracted_fact_count,
                    tx_id,
                    tx_count,
                };
                atomic_receipt(summary, persistent, decision)
            },
            MutationKind::Forget { count } => forget_receipt(
                count,
                tx_id,
                tx_count,
                persistent,
                decision,
            ),
            MutationKind::Checkpoint => {
                let text = String::new();
                assert(text@ =~= Seq::<char>::empty());
                text
            },
        }
    }

    /// Take in the saved image: collect every page that it changed, and give a
    /// paged handle the authority pins of the image. `pins` are those pins, or
    /// why they could not be determined.
    pub fn saved(
        self,
        db: &mut BrowserDb,
        pins: Result<HashSet<u64>, String>,
        decision: DeltaMaintenanceDecision,
    ) -> (result: Result<Collected, String>)
        ensures
            match result {
                Ok(Collected::Done(receipt)) => {
                    &&& takes_over(old(db)@, pins)
                    &&& old(db)@.buffer.dirty.len() == 0 || !old(db)@.persistent
                    &&& receipt@ == receipt_text(self@, old(db)@.persistent, decision)
                    &&& unstaged(repinned(drained(old(db)@), found_pins(pins)), final(db)@)
                },
                Ok(Collected::Publish { pages, receipt }) => {
                    &&& takes_over(old(db)@, pins)
                    &&& old(db)@.persistent
                    &&& pages@.len() > 0
                    &&& publishes_dirty(old(db)@.buffer, pages@)
                    &&& receipt@ == receipt_text(self@, old(db)@.persistent, decision)
                    &&& final(db)@ == repinned(drained(old(db)@), found_pins(pins))
                },
                Err(text) => {
                    &&& collect_fault(old(db)@, pins, text@)
                    &&& final(db)@ == drained(old(db)@)
                },
            },
            result is Ok <==> dirty_readable(old(db)@.buffer) && takes_over(old(db)@, pins),
    {
        let pages = match db.take_dirty_pages() {
            Ok(pages) => {
                assert(publishes_dirty(old(db)@.buffer, pages@));
                pages
            },
            Err(fault) => {
                let text = fault.message();
                assert(text@ == fault.text());
                return Err(text);
            },
        };
        if db.guard().paged {
            let pins = match pins {
                Ok(pins) => pins,
                Err(reason) => return Err(reason),
            };
            if let Err(fault) = db.configure_authority(pins) {
                let text = fault.message();
                assert(text@ == fault.text());
                return Err(text);
            }
        }
        let receipt = self.render_receipt(db.is_persistent(), decision);
        if pages.len() != 0 && db.is_persistent() {
            return Ok(Collected::Publish { pages, receipt: PendingReceipt { text: receipt } });
        }
        db.evict_sparse_staging();
        Ok(Collected::Done(receipt))
    }
}

/// What became of an attempt to publish.
pub enum PublicationOutcome {
    /// The pages are durable.
    Published,
    /// The pages are not durable. `reopened` is the previous durable image,
    /// or why it could not be reopened.
    Failed { write_error: String, reopened: Result<(BrowserBufferBackend, bool), String> },
}

impl PendingReceipt {
    /// Settle an attempt to publish: a durable mutation gives up its staged
    /// pages and hands out its receipt, a failed one puts the previous durable
    /// image back where it can and reports the error.
    pub fn settle(self, db: &mut BrowserDb, outcome: PublicationOutcome) -> (result: Result<
        String,
        String,
    >)
        ensures
            match outcome {
                PublicationOutcome::Published => {
                    &&& result is Ok
                    &&& result->Ok_0@ == self@
                    &&& unstaged(old(db)@, final(db)@)
                },
                PublicationOutcome::Failed { write_error, reopened: Ok((buffer, paged)) } => {
                    &&& result is Err
                    &&& result->Err_0@ == write_error@
                    &&& final(db)@ == (BrowserDbView {
                        guard: HandleGuard {
                            mutation_failure_rolled_back: true,
                            paged,
                            ..old(db)@.guard
                        },
                        buffer: buffer@,
                        ..old(db)@
                    })
                },
                PublicationOutcome::Failed { write_error, reopened: Err(reopen_error) } => {
                    &&& result is Err
                    &&& result->Err_0@ == restore_failure_text(write_error@, reopen_error@)
                    &&& final(db)@ == old(db)@
                },
            },
    {
        match outcome {
            PublicationOutcome::Failed { write_error, reopened } => {
                Err(db.restore_after_failed_flush(write_error, reopened))
            },
            PublicationOutcome::Published => {
                db.evict_sparse_staging();
                Ok(self.text)
            },
        }
    }
}

/// A mutation that is refused before live state advances leaves an idle handle
/// as it was: it can be used again, with the same pages.
pub proof fn law_refused_mutation_changes_nothing(view: BrowserDbView)
    requires
        view.guard.idle(),
        !view.guard.mutation_failure_rolled_back,
        !view.guard.mutation_advanced,
    ensures
        (BrowserDbView { guard: view.guard.mutating().settled(true), ..view }) == view,
        (BrowserDbView { guard: view.guard.mutating().settled(false), ..view }) == view,
{
}

/// A write whose pages could not be made durable, and whose previous image was
/// put back, leaves a usable handle on that image.
pub proof fn law_rolled_back_write_keeps_handle_usable(view: BrowserDbView, paged: bool)
    requires
        view.guard.idle(),
    ensures
        ({
            let failed = HandleGuard {
                mutation_failure_rolled_back: true,
                paged,
                ..(HandleGuard { mutation_advanced: true, ..view.guard.mutating() })
            };
            failed.settled(true).idle() && failed.settled(true).usable_fault() is None
        }),
{
}

/// A write that advanced live state and could neither be made durable nor be
/// undone poisons the handle for good.
pub proof fn law_uncertain_write_poisons_handle(view: BrowserDbView, failed: bool)
    ensures
        ({
            let advanced = HandleGuard { mutation_advanced: true, ..view.guard.mutating() };
            let after = advanced.settled(true);
            &&& after.durability_poisoned
            &&& after.usable_fault() is Some
            &&& after.mutation_fault() is Some
            &&& after.mutating().settled(failed).durability_poisoned
        }),
{
}

/// The pages that a write publishes give back, record by record, what the
/// handle reads.
pub proof fn law_publication_holds_every_dirty_page(
    buffer: BufferView,
    pages: Seq<(u64, Vec<u8>)>,
    id: u64,
)
    requires
        publishes_dirty(buffer, pages),
        buffer.dirty.contains(id),
    ensures
        exists|i: int|
            0 <= i < pages.len() && (#[trigger] pages[i]).0 == id && read_outcome(buffer, id)
                == Ok::<Seq<u8>, BufferError>(pages[i].1@),
{
    let i = choose|i: int| 0 <= i < pages.len() && (#[trigger] pages[i]).0 == id;
    assert(read_outcome(buffer, pages[i].0) == Ok::<Seq<u8>, BufferError>(pages[i].1@));
}

/// What a mutation records keeps its fact. An open window starts at the time of
/// the transaction, a fixed one stays where it is, and a fact that is stamped
/// already is recorded as it is. All others carry the id and the position of
/// their transaction.
pub proof fn law_recorded_fact_carries_its_transaction<B>(
    fact: Fact<B>,
    tx_id: u64,
    rule: StampRule,
    tx_count: u64,
)
    ensures
        ({
            let recorded = recorded_fact(fact, tx_id, rule, tx_count);
            &&& recorded.body == fact.body
            &&& rule !is Stamped ==> recorded.tx_id == tx_id && recorded.tx_count == tx_count
            &&& rule is Stamped ==> recorded == fact
            &&& rule is FixedWindows ==> recorded.valid_from == fact.valid_from
            &&& rule matches StampRule::OpenWindows { use_tx_time } ==> {
                &&& fact.valid_from != use_tx_time ==> recorded.valid_from == fact.valid_from
                &&& fact.valid_from == use_tx_time && tx_id <= i64::MAX ==> recorded.valid_from
                    == tx_id
            }
        }),
{
}

/// The receipt of a mutation speaks of the mutation: whatever it did, its fields
/// name the transaction and its position, and count what was recorded. A
/// checkpoint has no receipt.
pub proof fn law_receipt_speaks_of_its_mutation(
    recorded: RecordedView,
    persistent: bool,
    decision: DeltaMaintenanceDecision,
)
    ensures
        recorded.kind is Checkpoint ==> receipt_text(recorded, persistent, decision).len() == 0,
        recorded.kind !is Checkpoint ==> exists|fields: Map<Seq<char>, JsonField>|
            {
                &&& receipt_text(recorded, persistent, decision) == #[trigger] json_text(fields)
                &&& fields["tx_id"@] == JsonField::Number(recorded.tx_id as int)
                &&& fields["tx_count"@] == JsonField::Number(recorded.tx_count as int)
                &&& says_of_durability(fields, persistent)
                &&& says_of_growth(fields, decision)
                &&& recorded.kind matches MutationKind::Write { is_retract } ==> if is_retract {
                    fields["retracted"@] == JsonField::Number(recorded.tx_id as int)
                } else {
                    fields["transacted"@] == JsonField::Number(recorded.tx_id as int)
                }
                &&& recorded.kind matches MutationKind::Atomic {
                    command_count,
                    transacted_fact_count,
                    retracted_fact_count,
                } ==> {
                    &&& fields["command_count"@] == JsonField::Number(command_count as int)
                    &&& fields["transacted_fact_count"@] == JsonField::Number(
                        transacted_fact_count as int,
                    )
                    &&& fields["retracted_fact_count"@] == JsonField::Number(
                        retracted_fact_count as int,
                    )
                }
                &&& recorded.kind matches MutationKind::Forget { count } ==> fields["forgotten"@]
                    == JsonField::Number(count as int)
            },
{
    let (tx_id, tx_count) = (recorded.tx_id, recorded.tx_count);
    match recorded.kind {
        MutationKind::Write { is_retract } => {
            law_write_receipt_names_the_transaction(
                is_retract,
                tx_id,
                tx_count,
                persistent,
                decision,
            );
            let fields = write_receipt_fields(is_retract, tx_id, tx_count, persistent, decision);
            assert(receipt_text(recorded, persistent, decision) == json_text(fields));
        },
        MutationKind::Atomic { .. } => {
            let summary = atomic_summary(recorded.kind, tx_id, tx_count);
            law_atomic_receipt_counts_the_batch(summary, persistent, decision);
            let fields = atomic_receipt_fields(summary, persistent, decision);
            assert(receipt_text(recorded, persistent, decision) == json_text(fields));
        },
        MutationKind::Forget { count } => {
            law_forget_receipt_counts_the_closures(count, tx_id, tx_count, persistent, decision);
            let fields = forget_receipt_fields(count, tx_id, tx_count, persistent, decision);
            assert(receipt_text(recorded, persistent, decision) == json_text(fields));
        },
        MutationKind::Checkpoint => {},
    }
}

/// A mutation that starts to change live state marks the handle, and changes
/// none of its pages.
pub proof fn law_advancing_marks_the_handle(view: BrowserDbView)
    ensures
        advanced(view).guard.mutation_advanced,
        advanced(view).guard.paged == view.guard.paged,
        advanced(view).guard.open_mode == view.guard.open_mode,
        advanced(view).buffer == view.buffer,
        advanced(view).persistent == view.persistent,
{
}

/// Draining a handle leaves every page readable as it was, with nothing dirty.
/// New pins of a paged handle replace the old ones and change no page; a handle
/// that does not page has none.
pub proof fn law_drained_handle_reads_the_same(view: BrowserDbView, pins: Set<u64>, id: u64)
    ensures
        drained(view).buffer.dirty == Set::<u64>::empty(),
        read_outcome(drained(view).buffer, id) == read_outcome(view.buffer, id),
        drained(view).buffer.pinned == view.buffer.pinned,
        drained(view).guard == view.guard,
        drained(view).persistent == view.persistent,
        view.guard.paged ==> repinned(view, pins).buffer.pinned == pins && repinned(
            view,
            pins,
        ).buffer.sparse,
        repinned(view, pins).buffer.pages == view.buffer.pages,
        repinned(view, pins).buffer.dirty == view.buffer.dirty,
        repinned(view, pins).buffer.logical_page_count == view.buffer.logical_page_count,
        repinned(view, pins).guard == view.guard,
        repinned(view, pins).persistent == view.persistent,
        !view.guard.paged ==> repinned(view, pins) == view,
{
}

/// A handle that does not page takes over every saved image. One that pages
/// needs the pins of the image, and each of them resident within it. Where they
/// are unknown, what is reported is the reason for that.
pub proof fn law_paged_handle_needs_its_pins(
    view: BrowserDbView,
    pins: Result<HashSet<u64>, String>,
    text: Seq<char>,
)
    requires
        dirty_readable(view.buffer),
    ensures
        !view.guard.paged ==> takes_over(view, pins) && !collect_fault(view, pins, text),
        view.guard.paged && pins is Err ==> !takes_over(view, pins) && (collect_fault(
            view,
            pins,
            text,
        ) <==> text == pins->Err_0@),
        pins matches Ok(found) ==> found_pins(pins) == found@,
        pins is Err ==> found_pins(pins) == Set::<u64>::empty(),
{
}

/// Publishing leaves the flags of the handle and the size of its image alone. A
/// handle that does not page keeps every page; one that pages keeps those that
/// are pinned or dirty, and no page that stays is changed.
pub proof fn law_published_handle_keeps_its_authority(
    before: BrowserDbView,
    after: BrowserDbView,
    id: u64,
)
    requires
        unstaged(before, after),
        before.buffer.wf(),
    ensures
        after.guard == before.guard,
        after.persistent == before.persistent,
        after.buffer.logical_page_count == before.buffer.logical_page_count,
        after.buffer.dirty == before.buffer.dirty,
        after.buffer.pinned == before.buffer.pinned,
        !before.guard.paged ==> after.buffer == before.buffer,
        before.buffer.dirty.contains(id) || before.buffer.pinned.contains(id)
            ==> after.buffer.pages.contains_key(id),
        after.buffer.pages.contains_key(id) ==> read_outcome(after.buffer, id) == read_outcome(
            before.buffer,
            id,
        ),
{
}

/// Nothing that is not dirty is published, and no page twice: as many records
/// are as there are dirty pages.
pub proof fn law_publication_holds_only_dirty_pages(
    buffer: BufferView,
    pages: Seq<(u64, Vec<u8>)>,
    i: int,
)
    requires
        publishes_dirty(buffer, pages),
        0 <= i < pages.len(),
    ensures
        buffer.dirty.contains(pages[i].0),
        read_outcome(buffer, pages[i].0) == Ok::<Seq<u8>, BufferError>(pages[i].1@),
        pages.len() == buffer.dirty.len(),
{
    assert(buffer.dirty.contains(pages[i].0));
}

} // verus!
