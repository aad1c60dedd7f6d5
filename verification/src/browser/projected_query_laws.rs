//! Laws of whole projected queries: what a run that answers has done, told by
//! the actions that it asked for and the events that answered them.

use crate::browser::projected_query::{
    projection_next, projection_start, ProjectionAction, ProjectionEvent,
    ProjectionPhase, ProjectionView, Watermark,
};
use vstd::prelude::*;

verus! {

/// A query and the events that it has been told so far.
#[verifier::ext_equal]
pub struct QueryRun {
    /// The ledger's state when the query began.
    pub captured: Watermark,
    /// The transaction that is asked about, where the query qualifies.
    pub eligible: Option<u64>,
    /// The transaction of each image.
    pub images: Seq<u64>,
    /// What each action led to, in order.
    pub events: Seq<ProjectionEvent>,
}

impl QueryRun {
    /// The same query before its last event.
    pub open spec fn before(self) -> QueryRun {
        QueryRun { events: self.events.drop_last(), ..self }
    }

    /// Where the query stands, and the action that it asks for.
    pub open spec fn now(self) -> (ProjectionView, ProjectionAction)
        decreases self.events.len(),
    {
        if self.events.len() == 0 {
            projection_start(self.captured, self.eligible, self.images)
        } else {
            projection_next(self.before().now().0, self.events.last())
        }
    }

    /// What an onlooker knows of the image that is being tried.
    pub open spec fn seen(self) -> Seen
        decreases self.events.len(),
    {
        if self.events.len() == 0 {
            Seen {
                tried: 0,
                overlay: None,
                scan: None,
                complete: false,
                early_visit: false,
                visits: 0,
                owed: 0,
            }
        } else {
            self.before().seen().after(self.before().now().1, self.events.last())
        }
    }
}

/// What an onlooker knows of a running query, who sees the actions and the
/// events and nothing else.
#[verifier::ext_equal]
pub struct Seen {
    /// Images that have been given up or are being tried.
    pub tried: int,
    /// The descriptor whose overlay is ready.
    pub overlay: Option<usize>,
    /// The descriptor whose scan is open.
    pub scan: Option<usize>,
    /// Whether that scan has ended.
    pub complete: bool,
    /// Whether the overlay was visited before the scan had ended.
    pub early_visit: bool,
    /// How often the overlay was visited.
    pub visits: int,
    /// Rows that were visited and not charged yet. An exhausted budget owes one.
    pub owed: int,
}

impl Seen {
    /// What an onlooker knows once `event` has answered `action`.
    pub open spec fn after(self, action: ProjectionAction, event: ProjectionEvent) -> Seen {
        match (action, event) {
            (ProjectionAction::OpenSession, _) => Seen {
                tried: self.tried + 1,
                overlay: None,
                scan: None,
                complete: false,
                early_visit: false,
                visits: 0,
                owed: 0,
            },
            (
                ProjectionAction::PrepareTail { descriptor },
                ProjectionEvent::TailReady { facts, history_entries },
            ) => Seen {
                overlay: Some(descriptor),
                owed: self.owed + if facts + history_entries <= usize::MAX {
                    facts + history_entries
                } else {
                    usize::MAX as int
                },
                ..self
            },
            (ProjectionAction::OpenScan { descriptor }, ProjectionEvent::ScanOpened) => Seen {
                scan: Some(descriptor),
                complete: false,
                ..self
            },
            (ProjectionAction::AskBudget, ProjectionEvent::Budget { remaining }) => Seen {
                owed: self.owed + if remaining == 0 { 1int } else { 0 },
                ..self
            },
            (ProjectionAction::StepScan { .. }, ProjectionEvent::ScanYielded { rows }) => Seen {
                owed: self.owed + rows,
                ..self
            },
            (ProjectionAction::StepScan { .. }, ProjectionEvent::PageMissing { rows, .. }) => Seen {
                owed: self.owed + rows,
                ..self
            },
            (ProjectionAction::StepScan { .. }, ProjectionEvent::ScanComplete { rows }) => Seen {
                complete: true,
                owed: self.owed + rows,
                ..self
            },
            (ProjectionAction::VisitOverlay, ProjectionEvent::OverlayVisited { rows }) => Seen {
                visits: self.visits + 1,
                early_visit: self.early_visit || !self.complete,
                owed: self.owed + rows,
                ..self
            },
            (ProjectionAction::Charge { rows }, ProjectionEvent::Charged) => Seen {
                owed: self.owed - rows,
                ..self
            },
            _ => self,
        }
    }
}

/// What holds of a running query and its onlooker.
spec fn consistent(run: QueryRun) -> bool {
    let view = run.now().0;
    let action = run.now().1;
    let seen = run.seen();
    let d = view.descriptor as usize;
    let older = view.images[view.descriptor] < view.tx_count;
    &&& view.captured == run.captured
    &&& view.images == run.images
    &&& 0 <= view.descriptor <= run.images.len()
    &&& run.eligible matches Some(tx) ==> view.tx_count == tx
    &&& view.phase != ProjectionPhase::Done ==> {
        &&& run.eligible == Some(run.captured.tx_count)
        &&& view.descriptor < run.images.len()
        &&& seen.tried == view.descriptor + if view.phase == ProjectionPhase::Session {
            0int
        } else {
            1
        }
        &&& view.phase != ProjectionPhase::Session ==> {
            &&& !seen.early_visit
            &&& match view.phase {
                ProjectionPhase::Tail | ProjectionPhase::TailPage => {
                    &&& older
                    &&& !view.tail
                    &&& seen.overlay is None
                },
                _ => {
                    &&& view.tail == older
                    &&& seen.overlay == if older {
                        Some(d)
                    } else {
                        None
                    }
                },
            }
            &&& match view.phase {
                ProjectionPhase::OverlayCharge => seen.visits == 1 && older,
                ProjectionPhase::Watermark => seen.visits == if older {
                    1int
                } else {
                    0
                },
                _ => seen.visits == 0,
            }
            &&& match view.phase {
                ProjectionPhase::Tail
                | ProjectionPhase::TailPage
                | ProjectionPhase::TailCharge
                | ProjectionPhase::ScanOpen
                | ProjectionPhase::ScanPage => true,
                _ => seen.scan == Some(d),
            }
            &&& match view.phase {
                ProjectionPhase::StepCharge { complete, .. } => seen.complete == complete,
                ProjectionPhase::Overlay
                | ProjectionPhase::OverlayCharge
                | ProjectionPhase::Watermark => seen.complete,
                _ => !seen.complete,
            }
        }
    }
    &&& match view.phase {
        ProjectionPhase::Session => action == ProjectionAction::OpenSession && seen.owed == 0,
        ProjectionPhase::Tail => action == (ProjectionAction::PrepareTail { descriptor: d })
            && seen.owed == 0,
        ProjectionPhase::ScanOpen => action == (ProjectionAction::OpenScan { descriptor: d })
            && seen.owed == 0,
        ProjectionPhase::TailPage | ProjectionPhase::ScanPage | ProjectionPhase::StepPage => action
            is Fetch && seen.owed == 0,
        ProjectionPhase::Budget => action == ProjectionAction::AskBudget && seen.owed == 0,
        ProjectionPhase::Step => action is StepScan && seen.owed == 0,
        ProjectionPhase::StepCharge { rows, .. } => action == (ProjectionAction::Charge { rows })
            && seen.owed == rows,
        ProjectionPhase::TailCharge
        | ProjectionPhase::ExhaustedCharge
        | ProjectionPhase::FaultCharge { .. }
        | ProjectionPhase::OverlayCharge => action matches ProjectionAction::Charge { rows }
            && seen.owed == rows,
        ProjectionPhase::Overlay => action == ProjectionAction::VisitOverlay && seen.owed == 0,
        ProjectionPhase::Watermark => action == ProjectionAction::ReadWatermark && seen.owed == 0,
        ProjectionPhase::Yield => action == ProjectionAction::Yield && seen.owed == 0,
        ProjectionPhase::Done => action == ProjectionAction::Finish || action
            == ProjectionAction::FallBack || action == ProjectionAction::Report,
    }
}

proof fn lemma_consistent(run: QueryRun)
    requires
        run.images.len() <= usize::MAX,
    ensures
        consistent(run),
    decreases run.events.len(),
{
    if run.events.len() > 0 {
        lemma_consistent(run.before());
    }
}

/// A query that answers has done all of its work, for one image: it scanned
/// that image to the end; it visited the overlay of the facts since the image
/// exactly once, after the scan, where the image is older than the transaction
/// asked about, and not at all where it is not; every visited row is charged;
/// and the ledger was seen, last of all, in the state in which the query found
/// it, at the transaction asked about.
pub proof fn law_answer_scans_the_image_and_visits_its_overlay(run: QueryRun)
    requires
        run.images.len() <= usize::MAX,
        run.now().1 == ProjectionAction::Finish,
    ensures
        run.events.len() > 0,
        run.before().now().1 == ProjectionAction::ReadWatermark,
        run.events.last() == (ProjectionEvent::Observed { watermark: run.captured }),
        run.eligible == Some(run.captured.tx_count),
        ({
            let seen = run.before().seen();
            let image = seen.tried - 1;
            let older = run.images[image] < run.captured.tx_count;
            &&& 0 <= image < run.images.len()
            &&& seen.scan == Some(image as usize)
            &&& seen.complete
            &&& seen.overlay == if older {
                Some(image as usize)
            } else {
                None
            }
            &&& seen.visits == if older {
                1int
            } else {
                0
            }
            &&& !seen.early_visit
            &&& seen.owed == 0
        }),
{
    if run.events.len() > 0 {
        lemma_consistent(run.before());
    }
}

/// A run asks for a charge exactly of what is owed, and for nothing else while
/// something is owed.
pub proof fn law_running_query_charges_what_it_visits(run: QueryRun)
    requires
        run.images.len() <= usize::MAX,
        run.now().1 != ProjectionAction::Finish,
        run.now().1 != ProjectionAction::FallBack,
        run.now().1 != ProjectionAction::Report,
    ensures
        run.now().1 matches ProjectionAction::Charge { rows } ==> run.seen().owed == rows,
        run.now().1 !is Charge ==> run.seen().owed == 0,
{
    lemma_consistent(run);
}

/// Whatever a run does with an image, it does with the one that it is trying:
/// the first image first, and the next one only when it opens another session.
pub proof fn law_run_works_on_one_image_at_a_time(run: QueryRun)
    requires
        run.images.len() <= usize::MAX,
    ensures
        run.now().1 matches ProjectionAction::PrepareTail { descriptor } ==> descriptor
            == run.seen().tried - 1,
        run.now().1 matches ProjectionAction::OpenScan { descriptor } ==> descriptor
            == run.seen().tried - 1,
        run.now().1 == ProjectionAction::OpenSession ==> run.seen().tried < run.images.len(),
        run.now().1 is PrepareTail ==> run.images[run.seen().tried - 1] < run.captured.tx_count,
        run.now().1 is StepScan ==> run.seen().scan == Some((run.seen().tried - 1) as usize),
{
    lemma_consistent(run);
}

/// A query starts with the first image exactly when it qualifies, asks about
/// the ledger's last transaction and has an image; else it falls back at once.
pub proof fn law_query_starts_where_it_qualifies(run: QueryRun)
    requires
        run.events.len() == 0,
    ensures
        run.eligible == Some(run.captured.tx_count) && run.images.len() > 0 ==> run.now().1
            == ProjectionAction::OpenSession,
        run.eligible != Some(run.captured.tx_count) || run.images.len() == 0 ==> run.now().1
            == ProjectionAction::FallBack,
{
}

/// A running query falls back only where it has to: its session is gone, the
/// ledger has moved, or the last image is of no use because its overlay costs
/// too much, it cannot be read, or its scan does not move.
pub proof fn law_query_falls_back_only_where_it_has_to(run: QueryRun)
    requires
        run.images.len() <= usize::MAX,
        run.events.len() > 0,
        run.now().1 == ProjectionAction::FallBack,
    ensures
        ({
            let asked = run.before().now().1;
            let event = run.events.last();
            ||| asked == ProjectionAction::OpenSession && event
                == ProjectionEvent::SessionIneligible
            ||| asked == ProjectionAction::ReadWatermark && event is Observed && event
                != (ProjectionEvent::Observed { watermark: run.captured })
            ||| {
                &&& run.before().seen().tried == run.images.len()
                &&& {
                    ||| asked is PrepareTail && event == ProjectionEvent::TailOverBudget
                    ||| asked is OpenScan && event == ProjectionEvent::Unusable
                    ||| asked is StepScan && event == ProjectionEvent::Unusable
                    ||| asked == (ProjectionAction::Charge { rows: 0 }) && event
                        == ProjectionEvent::Charged && !run.before().seen().complete
                }
            }
        }),
{
    lemma_consistent(run.before());
}

/// The query after one more event.
pub open spec fn told(run: QueryRun, event: ProjectionEvent) -> QueryRun {
    QueryRun { events: run.events.push(event), ..run }
}

proof fn lemma_told(run: QueryRun, event: ProjectionEvent)
    ensures
        told(run, event).before() == run,
        told(run, event).now() == projection_next(run.now().0, event),
        told(run, event).seen() == run.seen().after(run.now().1, event),
{
    assert(told(run, event).events.drop_last() =~= run.events);
    assert(told(run, event).before() =~= run);
}

/// A page that is missing is fetched, in a full batch, and then the work that
/// missed it is taken up again: preparing the overlay, after the browser has
/// worked, opening the scan, or stepping it once the rows of the interrupted
/// step are charged.
pub proof fn law_missing_page_is_fetched_and_work_resumed(run: QueryRun, page_id: u64, rows: usize)
    requires
        run.images.len() <= usize::MAX,
    ensures
        ({
            let missing = told(run, ProjectionEvent::PageMissing { page_id, rows });
            let resumed = told(missing, ProjectionEvent::Resumed);
            let charged = told(missing, ProjectionEvent::Charged);
            &&& run.now().1 is PrepareTail ==> {
                &&& missing.now().1 == (ProjectionAction::Fetch {
                    page_id,
                    batch_pages: 256,
                    yields: true,
                })
                &&& resumed.now().1 == run.now().1
            }
            &&& run.now().1 is OpenScan ==> {
                &&& missing.now().1 == (ProjectionAction::Fetch {
                    page_id,
                    batch_pages: 256,
                    yields: false,
                })
                &&& resumed.now().1 == run.now().1
            }
            &&& run.now().1 is StepScan ==> {
                &&& missing.now().1 == (ProjectionAction::Charge { rows })
                &&& charged.now().1 == (ProjectionAction::Fetch {
                    page_id,
                    batch_pages: 256,
                    yields: false,
                })
                &&& told(charged, ProjectionEvent::Resumed).now().1 == ProjectionAction::AskBudget
            }
        }),
{
    let missing = told(run, ProjectionEvent::PageMissing { page_id, rows });
    let charged = told(missing, ProjectionEvent::Charged);
    lemma_consistent(run);
    lemma_told(run, ProjectionEvent::PageMissing { page_id, rows });
    lemma_told(missing, ProjectionEvent::Resumed);
    lemma_told(missing, ProjectionEvent::Charged);
    lemma_told(charged, ProjectionEvent::Resumed);
}

/// A step visits no more rows than the budget leaves and than one step may,
/// and as many as that allows. An exhausted budget is charged one row first.
pub proof fn law_step_uses_the_budget(run: QueryRun, remaining: usize)
    requires
        run.images.len() <= usize::MAX,
        run.now().1 == ProjectionAction::AskBudget,
    ensures
        ({
            let next = told(run, ProjectionEvent::Budget { remaining });
            &&& remaining > 0 ==> {
                &&& next.now().1 matches ProjectionAction::StepScan { rows }
                &&& 0 < rows <= remaining
                &&& rows <= 4096
                &&& rows == remaining || rows == 4096
            }
            &&& remaining == 0 ==> {
                &&& next.now().1 == (ProjectionAction::Charge { rows: 1 })
                &&& told(next, ProjectionEvent::Charged).now().1 == (ProjectionAction::StepScan {
                    rows: 0,
                })
            }
        }),
{
    let next = told(run, ProjectionEvent::Budget { remaining });
    lemma_consistent(run);
    lemma_told(run, ProjectionEvent::Budget { remaining });
    lemma_told(next, ProjectionEvent::Charged);
}

/// A step that stopped after some rows goes on, once they are charged and the
/// browser has worked; one that stopped without any gives its image up; one
/// that ended the scan leads to the overlay where there is one, and else to the
/// ledger's state.
pub proof fn law_scan_goes_on_until_it_ends(run: QueryRun, rows: usize)
    requires
        run.images.len() <= usize::MAX,
        run.now().1 is StepScan,
    ensures
        ({
            let stopped = told(
                told(run, ProjectionEvent::ScanYielded { rows }),
                ProjectionEvent::Charged,
            );
            let ended = told(
                told(run, ProjectionEvent::ScanComplete { rows }),
                ProjectionEvent::Charged,
            );
            &&& rows > 0 ==> stopped.now().1 == ProjectionAction::Yield && told(
                stopped,
                ProjectionEvent::Resumed,
            ).now().1 == ProjectionAction::AskBudget
            &&& rows == 0 ==> stopped.now().1 == if run.seen().tried < run.images.len() {
                ProjectionAction::OpenSession
            } else {
                ProjectionAction::FallBack
            }
            &&& ended.now().1 == if run.images[run.seen().tried - 1] < run.captured.tx_count {
                ProjectionAction::VisitOverlay
            } else {
                ProjectionAction::ReadWatermark
            }
        }),
{
    let yielded = told(run, ProjectionEvent::ScanYielded { rows });
    let complete = told(run, ProjectionEvent::ScanComplete { rows });
    lemma_consistent(run);
    lemma_told(run, ProjectionEvent::ScanYielded { rows });
    lemma_told(run, ProjectionEvent::ScanComplete { rows });
    lemma_told(yielded, ProjectionEvent::Charged);
    lemma_told(complete, ProjectionEvent::Charged);
    lemma_told(told(yielded, ProjectionEvent::Charged), ProjectionEvent::Resumed);
}

/// A query that fails on its own account reports that, whatever it was doing.
pub proof fn law_failure_is_reported(run: QueryRun)
    ensures
        told(run, ProjectionEvent::Failed).now().1 == ProjectionAction::Report,
{
    lemma_told(run, ProjectionEvent::Failed);
}

} // verus!
