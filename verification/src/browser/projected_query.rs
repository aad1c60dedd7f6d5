//! Answering an aggregate from a persisted projection.
//!
//! A projection image may be older than the transaction that is asked about;
//! an overlay of the facts since then makes up for it. Every descriptor of a
//! matching image is tried in turn. Whenever an image cannot be used, the next
//! one is tried, and when none is left the query falls back to the ledger. An
//! answer counts only if the ledger did not move while it was computed.

use crate::browser::paging::BROWSER_IDB_BATCH_PAGES;
use crate::browser::read_loop::BROWSER_AGGREGATE_ENTRY_BUDGET;
use crate::collections::{lemma_picked_next, picked, picked_at};
use vstd::prelude::*;

verus! {

/// The state of the ledger that an answer belongs to.
#[derive(Clone, Copy, Debug, PartialEq, Eq, Structural)]
pub struct Watermark {
    /// Generation of the ledger.
    pub generation: u64,
    /// Transactions recorded.
    pub tx_count: u64,
}

/// What the query waits for.
#[derive(Clone, Copy, Debug, PartialEq, Eq, Structural)]
pub enum ProjectionPhase {
    /// A fresh aggregate session.
    Session,
    /// The overlay of facts since the image.
    Tail,
    /// A page that the overlay needs.
    TailPage,
    /// The overlay's cost to be charged.
    TailCharge,
    /// The image's scan to be opened.
    ScanOpen,
    /// A page that opening the scan needs.
    ScanPage,
    /// The remaining budget.
    Budget,
    /// An exhausted budget to be charged.
    ExhaustedCharge,
    /// One scan step.
    Step,
    /// The rows scanned before a page was missing to be charged.
    FaultCharge { page_id: u64 },
    /// A page that the scan needs.
    StepPage,
    /// The rows of one scan step to be charged.
    StepCharge { rows: usize, complete: bool },
    /// The overlay's own rows.
    Overlay,
    /// The overlay's own rows to be charged.
    OverlayCharge,
    /// The ledger's state after the scan.
    Watermark,
    /// The browser to come back.
    Yield,
    /// Nothing more.
    Done,
}

/// What the last action led to.
#[derive(Clone, Copy, Debug, PartialEq, Eq, Structural)]
pub enum ProjectionEvent {
    /// The query has an aggregate session.
    SessionOpened,
    /// The query has no aggregate session any more.
    SessionIneligible,
    /// The overlay is ready and took this much work.
    TailReady { facts: usize, history_entries: usize },
    /// The overlay would take too much work.
    TailOverBudget,
    /// The scan is open.
    ScanOpened,
    /// Rows that may still be visited.
    Budget { remaining: usize },
    /// The scan step stopped after these rows.
    ScanYielded { rows: usize },
    /// The scan ended after these rows.
    ScanComplete { rows: usize },
    /// The overlay contributed these rows.
    OverlayVisited { rows: usize },
    /// The ledger's state.
    Observed { watermark: Watermark },
    /// The cost was charged.
    Charged,
    /// The page was staged, or the browser came back.
    Resumed,
    /// A page is not resident. The scan had visited this many rows.
    PageMissing { page_id: u64, rows: usize },
    /// The stored image is not usable.
    Unusable,
    /// The query itself failed.
    Failed,
}

/// What to do next.
#[derive(Clone, Copy, Debug, PartialEq, Eq, Structural)]
pub enum ProjectionAction {
    /// Open an aggregate session.
    OpenSession,
    /// Prepare the overlay for this descriptor.
    PrepareTail { descriptor: usize },
    /// Open the scan of this descriptor.
    OpenScan { descriptor: usize },
    /// Ask the aggregate for its remaining budget.
    AskBudget,
    /// Run one scan step over at most this many rows.
    StepScan { rows: usize },
    /// Charge this many rows to the aggregate.
    Charge { rows: usize },
    /// Add the overlay's own rows.
    VisitOverlay,
    /// Read the ledger's state.
    ReadWatermark,
    /// Fetch a window around this page, then let the browser work if asked to.
    Fetch { page_id: u64, batch_pages: u64, yields: bool },
    /// Reduce residency and let the browser work.
    Yield,
    /// Return the aggregate's result.
    Finish,
    /// Answer from the ledger instead.
    FallBack,
    /// Report the error of the last action.
    Report,
}

/// A query in progress.
#[verifier::ext_equal]
pub struct ProjectionView {
    /// The ledger's state when the query began.
    pub captured: Watermark,
    /// The transaction that is asked about.
    pub tx_count: u64,
    /// The transaction of each image, in the order in which they are tried.
    pub images: Seq<u64>,
    /// The image that is being tried.
    pub descriptor: int,
    /// Whether an overlay complements the image.
    pub tail: bool,
    /// What the query waits for.
    pub phase: ProjectionPhase,
}


impl ProjectionView {
    /// The same query, waiting for something else.
    pub open spec fn wait(self, phase: ProjectionPhase, action: ProjectionAction) -> (
        ProjectionView,
        ProjectionAction,
    ) {
        (ProjectionView { phase, ..self }, action)
    }

    /// Stop with this action.
    pub open spec fn stop(self, action: ProjectionAction) -> (ProjectionView, ProjectionAction) {
        self.wait(ProjectionPhase::Done, action)
    }

    /// Try this image, or fall back when there is none.
    pub open spec fn try_image(self, descriptor: int) -> (ProjectionView, ProjectionAction) {
        let next = ProjectionView { descriptor, tail: false, ..self };
        if descriptor < self.images.len() {
            next.wait(ProjectionPhase::Session, ProjectionAction::OpenSession)
        } else {
            next.stop(ProjectionAction::FallBack)
        }
    }

    /// Give the current image up.
    pub open spec fn skip_image(self) -> (ProjectionView, ProjectionAction) {
        self.try_image(self.descriptor + 1)
    }

    /// Fetch a page for the phase that waits for it.
    pub open spec fn fetch(self, phase: ProjectionPhase, page_id: u64, yields: bool) -> (
        ProjectionView,
        ProjectionAction,
    ) {
        self.wait(
            phase,
            ProjectionAction::Fetch { page_id, batch_pages: BROWSER_IDB_BATCH_PAGES, yields },
        )
    }

    /// Open the scan of the current image.
    pub open spec fn open_scan(self) -> (ProjectionView, ProjectionAction) {
        self.wait(
            ProjectionPhase::ScanOpen,
            ProjectionAction::OpenScan { descriptor: self.descriptor as usize },
        )
    }

    /// Go on scanning.
    pub open spec fn ask_budget(self) -> (ProjectionView, ProjectionAction) {
        self.wait(ProjectionPhase::Budget, ProjectionAction::AskBudget)
    }

    /// Prepare the overlay of the current image.
    pub open spec fn prepare_tail(self) -> (ProjectionView, ProjectionAction) {
        self.wait(
            ProjectionPhase::Tail,
            ProjectionAction::PrepareTail { descriptor: self.descriptor as usize },
        )
    }

    /// Whether the current image needs an overlay.
    pub open spec fn image_is_older(self) -> bool {
        self.images[self.descriptor] < self.tx_count
    }
}

/// The beginning of a query. It falls back at once where the query does not
/// qualify, or asks about another transaction than the ledger's last.
pub open spec fn projection_start(
    captured: Watermark,
    eligible: Option<u64>,
    images: Seq<u64>,
) -> (ProjectionView, ProjectionAction) {
    let view = ProjectionView {
        captured,
        tx_count: match eligible {
            Some(tx_count) => tx_count,
            None => 0,
        },
        images,
        descriptor: 0,
        tail: false,
        phase: ProjectionPhase::Done,
    };
    match eligible {
        Some(tx_count) => if captured.tx_count == tx_count {
            view.try_image(0)
        } else {
            view.stop(ProjectionAction::FallBack)
        },
        None => view.stop(ProjectionAction::FallBack),
    }
}

/// The step that follows an event.
pub open spec fn projection_next(view: ProjectionView, event: ProjectionEvent) -> (
    ProjectionView,
    ProjectionAction,
) {
    match (view.phase, event) {
        (_, ProjectionEvent::Failed) => view.stop(ProjectionAction::Report),
        (ProjectionPhase::Session, ProjectionEvent::SessionIneligible) => view.stop(
            ProjectionAction::FallBack,
        ),
        (ProjectionPhase::Session, ProjectionEvent::SessionOpened) => if view.image_is_older() {
            view.prepare_tail()
        } else {
            view.open_scan()
        },
        (ProjectionPhase::Tail, ProjectionEvent::PageMissing { page_id, .. }) => view.fetch(
            ProjectionPhase::TailPage,
            page_id,
            true,
        ),
        (ProjectionPhase::TailPage, ProjectionEvent::Resumed) => view.prepare_tail(),
        (ProjectionPhase::Tail, ProjectionEvent::TailOverBudget) => view.skip_image(),
        (ProjectionPhase::Tail, ProjectionEvent::TailReady { facts, history_entries }) => (
        ProjectionView { tail: true, ..view }).wait(
            ProjectionPhase::TailCharge,
            ProjectionAction::Charge { rows: facts.saturating_add(history_entries) },
        ),
        (ProjectionPhase::TailCharge, ProjectionEvent::Charged) => view.open_scan(),
        (ProjectionPhase::ScanOpen, ProjectionEvent::ScanOpened) => view.ask_budget(),
        (ProjectionPhase::ScanOpen, ProjectionEvent::PageMissing { page_id, .. }) => view.fetch(
            ProjectionPhase::ScanPage,
            page_id,
            false,
        ),
        (ProjectionPhase::ScanPage, ProjectionEvent::Resumed) => view.open_scan(),
        (ProjectionPhase::ScanOpen, ProjectionEvent::Unusable) => view.skip_image(),
        (ProjectionPhase::Budget, ProjectionEvent::Budget { remaining }) => if remaining == 0 {
            view.wait(ProjectionPhase::ExhaustedCharge, ProjectionAction::Charge { rows: 1 })
        } else {
            view.wait(
                ProjectionPhase::Step,
                ProjectionAction::StepScan {
                    rows: if remaining < BROWSER_AGGREGATE_ENTRY_BUDGET {
                        remaining
                    } else {
                        BROWSER_AGGREGATE_ENTRY_BUDGET
                    },
                },
            )
        },
        (ProjectionPhase::ExhaustedCharge, ProjectionEvent::Charged) => view.wait(
            ProjectionPhase::Step,
            ProjectionAction::StepScan { rows: 0 },
        ),
        (ProjectionPhase::Step, ProjectionEvent::PageMissing { page_id, rows }) => view.wait(
            ProjectionPhase::FaultCharge { page_id },
            ProjectionAction::Charge { rows },
        ),
        (ProjectionPhase::FaultCharge { page_id }, ProjectionEvent::Charged) => view.fetch(
            ProjectionPhase::StepPage,
            page_id,
            false,
        ),
        (ProjectionPhase::StepPage, ProjectionEvent::Resumed) => view.ask_budget(),
        (ProjectionPhase::Step, ProjectionEvent::Unusable) => view.skip_image(),
        (ProjectionPhase::Step, ProjectionEvent::ScanYielded { rows }) => view.wait(
            ProjectionPhase::StepCharge { rows, complete: false },
            ProjectionAction::Charge { rows },
        ),
        (ProjectionPhase::Step, ProjectionEvent::ScanComplete { rows }) => view.wait(
            ProjectionPhase::StepCharge { rows, complete: true },
            ProjectionAction::Charge { rows },
        ),
        (ProjectionPhase::StepCharge { rows, complete }, ProjectionEvent::Charged) => if complete {
            if view.tail {
                view.wait(ProjectionPhase::Overlay, ProjectionAction::VisitOverlay)
            } else {
                view.wait(ProjectionPhase::Watermark, ProjectionAction::ReadWatermark)
            }
        } else if rows == 0 {
            view.skip_image()
        } else {
            view.wait(ProjectionPhase::Yield, ProjectionAction::Yield)
        },
        (ProjectionPhase::Yield, ProjectionEvent::Resumed) => view.ask_budget(),
        (ProjectionPhase::Overlay, ProjectionEvent::OverlayVisited { rows }) => view.wait(
            ProjectionPhase::OverlayCharge,
            ProjectionAction::Charge { rows },
        ),
        (ProjectionPhase::OverlayCharge, ProjectionEvent::Charged) => view.wait(
            ProjectionPhase::Watermark,
            ProjectionAction::ReadWatermark,
        ),
        (ProjectionPhase::Watermark, ProjectionEvent::Observed { watermark }) => if watermark
            == view.captured {
            view.stop(ProjectionAction::Finish)
        } else {
            view.stop(ProjectionAction::FallBack)
        },
        _ => view.stop(ProjectionAction::Report),
    }
}

/// A query that is being answered from projections.
pub struct ProjectedQuery {
    captured: Watermark,
    tx_count: u64,
    images: Vec<u64>,
    descriptor: usize,
    tail: bool,
    phase: ProjectionPhase,
}

impl View for ProjectedQuery {
    type V = ProjectionView;

    closed spec fn view(&self) -> ProjectionView {
        ProjectionView {
            captured: self.captured,
            tx_count: self.tx_count,
            images: self.images@,
            descriptor: self.descriptor as int,
            tail: self.tail,
            phase: self.phase,
        }
    }
}

impl ProjectedQuery {
    /// While the query runs, it is trying an image that exists.
    pub open spec fn wf(self) -> bool {
        self@.phase != ProjectionPhase::Done ==> self@.descriptor < self@.images.len()
    }

    /// Begin a query. `eligible` is the transaction that it asks about, where
    /// the query qualifies; `images` are the transactions of the images that
    /// match it.
    pub fn new(captured: Watermark, eligible: Option<u64>, images: Vec<u64>) -> (result: (
        Self,
        ProjectionAction,
    ))
        ensures
            (result.0@, result.1) == projection_start(captured, eligible, images@),
            result.0.wf(),
    {
        let (qualifies, tx_count) = match eligible {
            Some(tx_count) => (captured.tx_count == tx_count, tx_count),
            None => (false, 0u64),
        };
        let some_image = images.len() > 0;
        let mut query = ProjectedQuery {
            captured,
            tx_count,
            images,
            descriptor: 0,
            tail: false,
            phase: ProjectionPhase::Done,
        };
        if qualifies && some_image {
            query.phase = ProjectionPhase::Session;
            return (query, ProjectionAction::OpenSession);
        }
        (query, ProjectionAction::FallBack)
    }

    fn wait(&mut self, phase: ProjectionPhase, action: ProjectionAction) -> (next: ProjectionAction)
        ensures
            (final(self)@, next) == old(self)@.wait(phase, action),
    {
        self.phase = phase;
        action
    }

    fn skip_image(&mut self) -> (next: ProjectionAction)
        requires
            old(self)@.descriptor < old(self)@.images.len(),
        ensures
            (final(self)@, next) == old(self)@.skip_image(),
            final(self).wf(),
    {
        let total: usize = self.images.len();
        self.descriptor = self.descriptor + 1;
        self.tail = false;
        if self.descriptor < total {
            self.phase = ProjectionPhase::Session;
            ProjectionAction::OpenSession
        } else {
            self.phase = ProjectionPhase::Done;
            ProjectionAction::FallBack
        }
    }

    fn fetch(&mut self, phase: ProjectionPhase, page_id: u64, yields: bool) -> (next:
        ProjectionAction)
        ensures
            (final(self)@, next) == old(self)@.fetch(phase, page_id, yields),
    {
        self.phase = phase;
        ProjectionAction::Fetch { page_id, batch_pages: BROWSER_IDB_BATCH_PAGES, yields }
    }

    fn open_scan(&mut self) -> (next: ProjectionAction)
        ensures
            (final(self)@, next) == old(self)@.open_scan(),
    {
        self.phase = ProjectionPhase::ScanOpen;
        ProjectionAction::OpenScan { descriptor: self.descriptor }
    }

    fn prepare_tail(&mut self) -> (next: ProjectionAction)
        ensures
            (final(self)@, next) == old(self)@.prepare_tail(),
    {
        self.phase = ProjectionPhase::Tail;
        ProjectionAction::PrepareTail { descriptor: self.descriptor }
    }

    /// Take in what the last action led to, and decide what to do next.
    pub fn next_action(&mut self, event: ProjectionEvent) -> (action: ProjectionAction)
        requires
            old(self).wf(),
        ensures
            (final(self)@, action) == projection_next(old(self)@, event),
            final(self).wf(),
    {
        if let ProjectionEvent::Failed = event {
            return self.wait(ProjectionPhase::Done, ProjectionAction::Report);
        }
        match (self.phase, event) {
            (ProjectionPhase::Session, ProjectionEvent::SessionIneligible) => self.wait(
                ProjectionPhase::Done,
                ProjectionAction::FallBack,
            ),
            (ProjectionPhase::Session, ProjectionEvent::SessionOpened) => {
                if self.images[self.descriptor] < self.tx_count {
                    self.prepare_tail()
                } else {
                    self.open_scan()
                }
            },
            (ProjectionPhase::Tail, ProjectionEvent::PageMissing { page_id, .. }) => self.fetch(
                ProjectionPhase::TailPage,
                page_id,
                true,
            ),
            (ProjectionPhase::TailPage, ProjectionEvent::Resumed) => self.prepare_tail(),
            (ProjectionPhase::Tail, ProjectionEvent::TailOverBudget) => self.skip_image(),
            (ProjectionPhase::Tail, ProjectionEvent::TailReady { facts, history_entries }) => {
                self.tail = true;
                let rows: usize = facts.saturating_add(history_entries);
                self.wait(ProjectionPhase::TailCharge, ProjectionAction::Charge { rows })
            },
            (ProjectionPhase::TailCharge, ProjectionEvent::Charged) => self.open_scan(),
            (ProjectionPhase::ScanOpen, ProjectionEvent::ScanOpened) => self.wait(
                ProjectionPhase::Budget,
                ProjectionAction::AskBudget,
            ),
            (ProjectionPhase::ScanOpen, ProjectionEvent::PageMissing { page_id, .. }) => self.fetch(
                ProjectionPhase::ScanPage,
                page_id,
                false,
            ),
            (ProjectionPhase::ScanPage, ProjectionEvent::Resumed) => self.open_scan(),
            (ProjectionPhase::ScanOpen, ProjectionEvent::Unusable) => self.skip_image(),
            (ProjectionPhase::Budget, ProjectionEvent::Budget { remaining }) => {
                if remaining == 0 {
                    return self.wait(
                        ProjectionPhase::ExhaustedCharge,
                        ProjectionAction::Charge { rows: 1 },
                    );
                }
                let rows: usize = if remaining < BROWSER_AGGREGATE_ENTRY_BUDGET {
                    remaining
                } else {
                    BROWSER_AGGREGATE_ENTRY_BUDGET
                };
                self.wait(ProjectionPhase::Step, ProjectionAction::StepScan { rows })
            },
            (ProjectionPhase::ExhaustedCharge, ProjectionEvent::Charged) => self.wait(
                ProjectionPhase::Step,
                ProjectionAction::StepScan { rows: 0 },
            ),
            (ProjectionPhase::Step, ProjectionEvent::PageMissing { page_id, rows }) => self.wait(
                ProjectionPhase::FaultCharge { page_id },
                ProjectionAction::Charge { rows },
            ),
            (ProjectionPhase::FaultCharge { page_id }, ProjectionEvent::Charged) => self.fetch(
                ProjectionPhase::StepPage,
                page_id,
                false,
            ),
            (ProjectionPhase::StepPage, ProjectionEvent::Resumed) => self.wait(
                ProjectionPhase::Budget,
                ProjectionAction::AskBudget,
            ),
            (ProjectionPhase::Step, ProjectionEvent::Unusable) => self.skip_image(),
            (ProjectionPhase::Step, ProjectionEvent::ScanYielded { rows }) => self.wait(
                ProjectionPhase::StepCharge { rows, complete: false },
                ProjectionAction::Charge { rows },
            ),
            (ProjectionPhase::Step, ProjectionEvent::ScanComplete { rows }) => self.wait(
                ProjectionPhase::StepCharge { rows, complete: true },
                ProjectionAction::Charge { rows },
            ),
            (ProjectionPhase::StepCharge { rows, complete }, ProjectionEvent::Charged) => {
                if complete {
                    if self.tail {
                        return self.wait(ProjectionPhase::Overlay, ProjectionAction::VisitOverlay);
                    }
                    return self.wait(ProjectionPhase::Watermark, ProjectionAction::ReadWatermark);
                }
                if rows == 0 {
                    return self.skip_image();
                }
                self.wait(ProjectionPhase::Yield, ProjectionAction::Yield)
            },
            (ProjectionPhase::Yield, ProjectionEvent::Resumed) => self.wait(
                ProjectionPhase::Budget,
                ProjectionAction::AskBudget,
            ),
            (ProjectionPhase::Overlay, ProjectionEvent::OverlayVisited { rows }) => self.wait(
                ProjectionPhase::OverlayCharge,
                ProjectionAction::Charge { rows },
            ),
            (ProjectionPhase::OverlayCharge, ProjectionEvent::Charged) => self.wait(
                ProjectionPhase::Watermark,
                ProjectionAction::ReadWatermark,
            ),
            (ProjectionPhase::Watermark, ProjectionEvent::Observed { watermark }) => {
                if watermark == self.captured {
                    return self.wait(ProjectionPhase::Done, ProjectionAction::Finish);
                }
                self.wait(ProjectionPhase::Done, ProjectionAction::FallBack)
            },
            _ => self.wait(ProjectionPhase::Done, ProjectionAction::Report),
        }
    }
}

/// The rows of the image that count: rows of entities that the overlay covers
/// are left to the overlay.
pub open spec fn base_rows<R>(found: Seq<R>, overlaid: Seq<bool>) -> Seq<R>
    decreases found.len(),
{
    if found.len() == 0 {
        Seq::empty()
    } else {
        let kept = base_rows(found.drop_last(), overlaid);
        if overlaid[found.len() - 1] {
            kept
        } else {
            kept.push(found.last())
        }
    }
}

/// Keep the rows of the image that count. `overlaid` says of each row whether
/// the overlay covers its entity.
pub fn select_base_rows<R>(found: Vec<R>, overlaid: &Vec<bool>) -> (rows: Vec<R>)
    requires
        found@.len() == overlaid@.len(),
    ensures
        rows@ == base_rows(found@, overlaid@),
        picked(found@, |i: int| !overlaid@[i], rows@),
{
    let mut rows: Vec<R> = Vec::new();
    let total: usize = overlaid.len();
    let mut i: usize = 0;
    assert(found@.take(0) =~= Seq::empty());
    for row in it: found
        invariant
            it.seq() == found@,
            found@.len() == overlaid@.len(),
            overlaid@.len() == total,
            i == it.index(),
            rows@ == base_rows(found@.take(i as int), overlaid@),
            it.index() == it.seq().len() ==> found@.take(i as int) == found@,
    {
        assert(row == found@[i as int]);
        assert(found@.take(i + 1).drop_last() =~= found@.take(i as int));
        if !overlaid[i] {
            rows.push(row);
        }
        i += 1;
    }
    proof {
        law_uncovered_rows_count(found@, overlaid@);
    }
    rows
}

/// The rows that count are those whose entity the overlay does not cover, each
/// of them once and in the order of the scan.
pub proof fn law_uncovered_rows_count<R>(found: Seq<R>, overlaid: Seq<bool>)
    ensures
        picked(found, |i: int| !overlaid[i], base_rows(found, overlaid)),
    decreases found.len(),
{
    let wanted = |i: int| !overlaid[i];
    if found.len() == 0 {
        assert(picked_at(found, wanted, base_rows(found, overlaid), Seq::empty()));
    } else {
        law_uncovered_rows_count(found.drop_last(), overlaid);
        lemma_picked_next(found, wanted, base_rows(found.drop_last(), overlaid));
        assert(wanted(found.len() - 1) == !overlaid[found.len() - 1]);
    }
}

/// The rows that a scan visited since it had visited `started` of them.
pub fn rows_since(started: usize, scanned: usize) -> (rows: usize)
    ensures
        rows == if scanned >= started {
            (scanned - started) as usize
        } else {
            0
        },
{
    scanned.saturating_sub(started)
}

/// Every row that is visited is charged, before anything else happens: the rows
/// of a step that stopped, of a step that ended the scan and of a step that
/// missed a page, the rows of the overlay, and the work of preparing it.
pub proof fn law_visited_rows_are_charged(view: ProjectionView, rows: usize, page_id: u64)
    ensures
        view.phase == ProjectionPhase::Step ==> {
            let charge = ProjectionAction::Charge { rows };
            &&& projection_next(view, ProjectionEvent::ScanYielded { rows }).1 == charge
            &&& projection_next(view, ProjectionEvent::ScanComplete { rows }).1 == charge
            &&& projection_next(view, ProjectionEvent::PageMissing { page_id, rows }).1 == charge
        },
        view.phase == ProjectionPhase::Overlay ==> projection_next(
            view,
            ProjectionEvent::OverlayVisited { rows },
        ).1 == (ProjectionAction::Charge { rows }),
        forall|facts: usize, history_entries: usize|
            view.phase == ProjectionPhase::Tail ==> (#[trigger] projection_next(
                view,
                ProjectionEvent::TailReady { facts, history_entries },
            )).1 == (ProjectionAction::Charge { rows: facts.saturating_add(history_entries) }),
{
}

/// An answer is returned only after the ledger was seen in the state in which
/// the query found it.
pub proof fn law_answer_belongs_to_captured_ledger(view: ProjectionView, event: ProjectionEvent)
    requires
        projection_next(view, event).1 == ProjectionAction::Finish,
    ensures
        event == (ProjectionEvent::Observed { watermark: view.captured }),
{
}

/// An image that cannot be used never makes the query fail: either the next
/// image is tried or the query falls back.
pub proof fn law_unusable_image_is_skipped(view: ProjectionView)
    requires
        view.phase == ProjectionPhase::ScanOpen || view.phase == ProjectionPhase::Step,
    ensures
        ({
            let (next, action) = projection_next(view, ProjectionEvent::Unusable);
            &&& next.descriptor == view.descriptor + 1
            &&& action == if view.descriptor + 1 < view.images.len() {
                ProjectionAction::OpenSession
            } else {
                ProjectionAction::FallBack
            }
        }),
{
}

/// Images are tried in order and none of them twice: a transition stays with
/// the current image or goes on to the next.
pub proof fn law_images_are_tried_in_order(view: ProjectionView, event: ProjectionEvent)
    ensures
        ({
            let (next, action) = projection_next(view, event);
            &&& next.images == view.images
            &&& next.captured == view.captured
            &&& next.descriptor == view.descriptor || next.descriptor == view.descriptor + 1
            &&& action == ProjectionAction::OpenSession ==> next.descriptor == view.descriptor + 1
        }),
{
}

/// An image as old as the question needs an overlay exactly when it is older.
pub proof fn law_overlay_covers_older_images(view: ProjectionView)
    requires
        view.phase == ProjectionPhase::Session,
    ensures
        projection_next(view, ProjectionEvent::SessionOpened).1 == if view.images[view.descriptor]
            < view.tx_count {
            ProjectionAction::PrepareTail { descriptor: view.descriptor as usize }
        } else {
            ProjectionAction::OpenScan { descriptor: view.descriptor as usize }
        },
{
}

/// A scan that makes no progress is given up.
pub proof fn law_stalled_scan_is_skipped(view: ProjectionView)
    requires
        view.phase == (ProjectionPhase::StepCharge { rows: 0, complete: false }),
    ensures
        projection_next(view, ProjectionEvent::Charged) == view.skip_image(),
{
}

} // verus!
