//! Read loops that alternate engine steps with page fetches.
//!
//! The engine runs one synchronous step at a time and reports an event. The
//! functions here decide what happens next; fetching pages and yielding to the
//! browser is left to the caller.

use crate::browser::db::ValidAt;
use crate::text::{decimal, push_decimal};
use std::collections::HashSet;
use vstd::prelude::*;
use vstd::string::*;

verus! {

broadcast use vstd::std_specs::hash::group_hash_axioms;

/// Index entries that one aggregate step may visit.
pub const BROWSER_AGGREGATE_ENTRY_BUDGET: usize = 4_096;

/// What one step of a query reported.
#[derive(Clone, Copy, Debug, PartialEq, Eq, Structural)]
pub enum ReadEvent {
    /// The result is complete.
    Complete,
    /// The step visited this many entries and wants to go on.
    Yielded { entries: usize },
    /// The step needs a page that is not resident.
    PageMissing { page_id: u64 },
    /// The step failed for another reason.
    Failed,
}

/// What to do after one step of a query.
#[derive(Clone, Copy, Debug, PartialEq, Eq, Structural)]
pub enum ReadStep {
    /// Return the result.
    Finish,
    /// Reduce residency, let the browser work, and step again.
    Yield,
    /// Fetch a window around this page and step again, reducing residency
    /// afterwards where asked to.
    Fetch { page_id: u64, batch_pages: u64, reduce_residency: bool },
    /// Report the step's own error.
    ReportFailure,
    /// Report a cursor that does not move.
    ReportStall,
    /// Report a page that was asked for again after it had been staged.
    ReportRepeatedPage { page_id: u64 },
}

/// The next action of a query loop.
pub open spec fn read_step(
    aggregate: bool,
    batch_pages: u64,
    requested: Set<u64>,
    event: ReadEvent,
) -> ReadStep {
    match event {
        ReadEvent::Complete => ReadStep::Finish,
        ReadEvent::Yielded { entries } => if entries == 0 {
            ReadStep::ReportStall
        } else {
            ReadStep::Yield
        },
        ReadEvent::PageMissing { page_id } => if !aggregate && requested.contains(page_id) {
            ReadStep::ReportRepeatedPage { page_id }
        } else {
            ReadStep::Fetch { page_id, batch_pages, reduce_residency: aggregate }
        },
        ReadEvent::Failed => ReadStep::ReportFailure,
    }
}

/// The state of a query loop.
pub struct QueryLoop {
    aggregate: bool,
    batch_pages: u64,
    requested: HashSet<u64>,
}

/// What a query loop remembers.
#[verifier::ext_equal]
pub struct QueryLoopView {
    /// Whether the query runs as a resumable aggregate.
    pub aggregate: bool,
    /// Pages to fetch around each missing page.
    pub batch_pages: u64,
    /// Pages that a restarted query has asked for.
    pub requested: Set<u64>,
}

impl View for QueryLoop {
    type V = QueryLoopView;

    closed spec fn view(&self) -> QueryLoopView {
        QueryLoopView {
            aggregate: self.aggregate,
            batch_pages: self.batch_pages,
            requested: self.requested@,
        }
    }
}

impl QueryLoop {
    /// Start a query.
    pub fn new(aggregate: bool, batch_pages: u64) -> (state: Self)
        ensures
            state@ == (QueryLoopView { aggregate, batch_pages, requested: Set::empty() }),
    {
        QueryLoop { aggregate, batch_pages, requested: HashSet::new() }
    }

    /// Decide what follows one step.
    pub fn next_step(&mut self, event: ReadEvent) -> (step: ReadStep)
        ensures
            step == read_step(
                old(self)@.aggregate,
                old(self)@.batch_pages,
                old(self)@.requested,
                event,
            ),
            final(self)@ == match event {
                ReadEvent::PageMissing { page_id } if !old(self)@.aggregate => QueryLoopView {
                    requested: old(self)@.requested.insert(page_id),
                    ..old(self)@
                },
                _ => old(self)@,
            },
    {
        match event {
            ReadEvent::Complete => ReadStep::Finish,
            ReadEvent::Yielded { entries } => {
                if entries == 0 {
                    return ReadStep::ReportStall;
                }
                ReadStep::Yield
            },
            ReadEvent::PageMissing { page_id } => {
                if !self.aggregate && !self.requested.insert(page_id) {
                    assert(self@.requested =~= old(self)@.requested.insert(page_id));
                    return ReadStep::ReportRepeatedPage { page_id };
                }
                ReadStep::Fetch {
                    page_id,
                    batch_pages: self.batch_pages,
                    reduce_residency: self.aggregate,
                }
            },
            ReadEvent::Failed => ReadStep::ReportFailure,
        }
    }
}

/// What a cursor that stopped with an error does next.
#[derive(Clone, Copy, Debug, PartialEq, Eq, Structural)]
pub enum FaultStep {
    /// Fetch this page, give up what exceeds the residency limit where asked
    /// to, and go on.
    Fetch { page_id: u64, reduce_residency: bool },
    /// Report the error.
    Report,
}

/// Decide what follows an error. `missing_page` is the page that was not
/// resident, where that is what the error says.
pub fn fault_step(missing_page: Option<u64>, reduce_residency: bool) -> (step: FaultStep)
    ensures
        step == match missing_page {
            Some(page_id) => FaultStep::Fetch { page_id, reduce_residency },
            None => FaultStep::Report,
        },
{
    match missing_page {
        Some(page_id) => FaultStep::Fetch { page_id, reduce_residency },
        None => FaultStep::Report,
    }
}

/// Render the error of a cursor that does not move.
pub fn stall_message() -> (text: &'static str)
    ensures
        text@ == "aggregate cursor yielded without advancing"@,
{
    "aggregate cursor yielded without advancing"
}

/// Render the error of a page that was asked for again.
pub fn repeated_page_message(page_id: u64) -> (text: String)
    ensures
        text@ == "paged query requested page "@ + decimal(page_id as nat)
            + " again after it was staged"@,
{
    let mut out = String::new();
    out.append("paged query requested page ");
    push_decimal(&mut out, page_id);
    out.append(" again after it was staged");
    assert(out@ =~= "paged query requested page "@ + decimal(page_id as nat)
        + " again after it was staged"@);
    out
}

/// A restarted query fetches a page once: asking for it again ends the loop.
pub proof fn law_restarted_query_fetches_each_page_once(view: QueryLoopView, page_id: u64)
    requires
        !view.aggregate,
    ensures
        read_step(
            false,
            view.batch_pages,
            view.requested.insert(page_id),
            ReadEvent::PageMissing { page_id },
        ) == (ReadStep::ReportRepeatedPage { page_id }),
{
}

/// A query loop follows its steps: a complete result is returned, a page that is
/// missing is fetched in the batch that the query asked for, unless a restarted
/// query has asked for it before, a step that moved is resumed, one that did not
/// move is reported, and so is a failure. Only an aggregate gives up residency.
pub proof fn law_query_loop_follows_its_steps(
    aggregate: bool,
    batch_pages: u64,
    requested: Set<u64>,
    page_id: u64,
    entries: usize,
)
    ensures
        read_step(aggregate, batch_pages, requested, ReadEvent::Complete) == ReadStep::Finish,
        read_step(aggregate, batch_pages, requested, ReadEvent::Failed) == ReadStep::ReportFailure,
        entries > 0 ==> read_step(aggregate, batch_pages, requested, ReadEvent::Yielded { entries })
            == ReadStep::Yield,
        read_step(aggregate, batch_pages, requested, ReadEvent::Yielded { entries: 0 })
            == ReadStep::ReportStall,
        aggregate || !requested.contains(page_id) ==> read_step(
            aggregate,
            batch_pages,
            requested,
            ReadEvent::PageMissing { page_id },
        ) == (ReadStep::Fetch { page_id, batch_pages, reduce_residency: aggregate }),
        !aggregate && requested.contains(page_id) ==> read_step(
            aggregate,
            batch_pages,
            requested,
            ReadEvent::PageMissing { page_id },
        ) == (ReadStep::ReportRepeatedPage { page_id }),
{
}

/// Which structured read is running.
#[derive(Clone, Copy, Debug, PartialEq, Eq, Structural)]
pub enum CurrentReadKind {
    /// Values of entities.
    Entities,
    /// Sources of references.
    Refs,
}

/// The name of a structured read in its errors.
pub open spec fn read_name(kind: CurrentReadKind) -> Seq<char> {
    match kind {
        CurrentReadKind::Entities => "current_entities"@,
        CurrentReadKind::Refs => "current_refs"@,
    }
}

/// Why a structured read stopped without a result.
#[derive(Clone, Copy, Debug, PartialEq, Eq, Structural)]
pub enum CurrentReadError {
    /// Too much history had to be visited.
    HistoryExceeded { kind: CurrentReadKind, max_entries: usize },
    /// The result has more rows than allowed.
    LimitExceeded { kind: CurrentReadKind, limit: usize },
    /// The view's valid time was never filled in.
    OpenValidTime,
}

impl CurrentReadError {
    /// The text reported for this error.
    pub open spec fn text(self) -> Seq<char> {
        match self {
            CurrentReadError::HistoryExceeded { kind, max_entries } => read_name(kind)
                + " history work exceeds "@ + decimal(max_entries as nat)
                + " entries; use raw Datalog or maintenance context"@,
            CurrentReadError::LimitExceeded { kind, limit } => read_name(kind)
                + " result exceeds limit "@ + decimal(limit as nat)
                + "; result was rejected without truncation"@,
            CurrentReadError::OpenValidTime =>
                "internal: browser read view retained a valid-time slot"@,
        }
    }

    /// Render this error for a caller.
    pub fn message(&self) -> (text: String)
        ensures
            text@ == self.text(),
    {
        let mut out = String::new();
        match self {
            CurrentReadError::HistoryExceeded { kind, max_entries } => {
                out.append(read_label(*kind));
                out.append(" history work exceeds ");
                push_decimal(&mut out, *max_entries as u64);
                out.append(" entries; use raw Datalog or maintenance context");
            },
            CurrentReadError::LimitExceeded { kind, limit } => {
                out.append(read_label(*kind));
                out.append(" result exceeds limit ");
                push_decimal(&mut out, *limit as u64);
                out.append("; result was rejected without truncation");
            },
            CurrentReadError::OpenValidTime => out.append(
                "internal: browser read view retained a valid-time slot",
            ),
        }
        assert(out@ =~= self.text());
        out
    }
}

fn read_label(kind: CurrentReadKind) -> (label: &'static str)
    ensures
        label@ == read_name(kind),
{
    match kind {
        CurrentReadKind::Entities => "current_entities",
        CurrentReadKind::Refs => "current_refs",
    }
}

/// The valid time that a cursor reads at.
#[derive(Clone, Copy, Debug, PartialEq, Eq, Structural)]
pub enum CurrentValidTime {
    /// One instant.
    At(i64),
    /// Every window.
    Any,
}

/// The valid time of a view.
pub fn current_valid_time(valid_at: ValidAt) -> (result: Result<CurrentValidTime, CurrentReadError>)
    ensures
        result == match valid_at {
            ValidAt::Timestamp(at) => Ok::<CurrentValidTime, CurrentReadError>(
                CurrentValidTime::At(at),
            ),
            ValidAt::AnyValidTime => Ok(CurrentValidTime::Any),
            ValidAt::Slot => Err(CurrentReadError::OpenValidTime),
        },
{
    match valid_at {
        ValidAt::Timestamp(at) => Ok(CurrentValidTime::At(at)),
        ValidAt::AnyValidTime => Ok(CurrentValidTime::Any),
        ValidAt::Slot => Err(CurrentReadError::OpenValidTime),
    }
}

/// The bounds of a structured read.
#[derive(Clone, Copy, Debug, PartialEq, Eq, Structural)]
pub struct CurrentReadBounds {
    /// Which read it is.
    pub kind: CurrentReadKind,
    /// History entries that the whole read may visit.
    pub max_history_entries: usize,
    /// History entries that one step may visit.
    pub step_entries: usize,
    /// Rows that the result may have.
    pub limit: usize,
}

/// The state of a structured read: the rows found so far, and the history
/// visited for them.
pub struct CurrentRead<T> {
    bounds: CurrentReadBounds,
    history_entries: usize,
    rows: Vec<T>,
}

/// What a structured read has found.
#[verifier::ext_equal]
pub struct CurrentReadView<T> {
    /// The bounds of the read.
    pub bounds: CurrentReadBounds,
    /// History entries visited.
    pub history_entries: usize,
    /// Rows found.
    pub rows: Seq<T>,
}

impl<T> View for CurrentRead<T> {
    type V = CurrentReadView<T>;

    closed spec fn view(&self) -> CurrentReadView<T> {
        CurrentReadView {
            bounds: self.bounds,
            history_entries: self.history_entries,
            rows: self.rows@,
        }
    }
}

/// The history budget of the next step, if any history may still be visited.
pub open spec fn step_budget<T>(view: CurrentReadView<T>) -> Option<usize> {
    if view.history_entries >= view.bounds.max_history_entries {
        None
    } else {
        let left = (view.bounds.max_history_entries - view.history_entries) as usize;
        Some(
            if view.bounds.step_entries < left {
                view.bounds.step_entries
            } else {
                left
            },
        )
    }
}

/// What a structured read does after one cursor step.
#[derive(Clone, Copy, Debug, PartialEq, Eq, Structural)]
pub enum CurrentReadStep {
    /// The cursor is exhausted.
    CursorDone,
    /// Reduce residency, let the browser work, and step again.
    Yield,
}

/// The state after a step that found `values` in `entries` history entries.
pub open spec fn stepped<T>(view: CurrentReadView<T>, values: Seq<T>, entries: usize) -> CurrentReadView<T> {
    CurrentReadView {
        bounds: view.bounds,
        history_entries: view.history_entries.saturating_add(entries),
        rows: view.rows + values,
    }
}

/// What follows a step that found `values` in `entries` history entries.
pub open spec fn step_outcome<T>(
    view: CurrentReadView<T>,
    values: Seq<T>,
    entries: usize,
    complete: bool,
) -> Result<CurrentReadStep, CurrentReadError> {
    if view.rows.len() + values.len() > view.bounds.limit {
        Err(CurrentReadError::LimitExceeded { kind: view.bounds.kind, limit: view.bounds.limit })
    } else if complete {
        Ok(CurrentReadStep::CursorDone)
    } else if stepped(view, values, entries).history_entries >= view.bounds.max_history_entries {
        Err(
            CurrentReadError::HistoryExceeded {
                kind: view.bounds.kind,
                max_entries: view.bounds.max_history_entries,
            },
        )
    } else {
        Ok(CurrentReadStep::Yield)
    }
}

impl<T> CurrentRead<T> {
    /// Start a structured read.
    pub fn new(bounds: CurrentReadBounds) -> (read: Self)
        ensures
            read@ == (CurrentReadView { bounds, history_entries: 0, rows: Seq::<T>::empty() }),
    {
        CurrentRead { bounds, history_entries: 0, rows: Vec::new() }
    }

    /// The history budget of the next cursor step.
    pub fn next_budget(&self) -> (result: Result<usize, CurrentReadError>)
        ensures
            result == match step_budget(self@) {
                Some(budget) => Ok::<usize, CurrentReadError>(budget),
                None => Err(
                    CurrentReadError::HistoryExceeded {
                        kind: self@.bounds.kind,
                        max_entries: self@.bounds.max_history_entries,
                    },
                ),
            },
    {
        let remaining: usize = self.bounds.max_history_entries.saturating_sub(self.history_entries);
        if remaining == 0 {
            return Err(
                CurrentReadError::HistoryExceeded {
                    kind: self.bounds.kind,
                    max_entries: self.bounds.max_history_entries,
                },
            );
        }
        if self.bounds.step_entries < remaining {
            Ok(self.bounds.step_entries)
        } else {
            Ok(remaining)
        }
    }

    /// Take in what one cursor step found.
    ///
    /// Rows beyond the limit are refused as a whole, never cut off.
    pub fn accept_step(&mut self, values: Vec<T>, entries: usize, complete: bool) -> (result: Result<
        CurrentReadStep,
        CurrentReadError,
    >)
        ensures
            result == step_outcome(old(self)@, values@, entries, complete),
            match result {
                Err(CurrentReadError::LimitExceeded { .. }) => final(self)@ == (CurrentReadView {
                    rows: old(self)@.rows,
                    ..stepped(old(self)@, values@, entries)
                }),
                _ => final(self)@ == stepped(old(self)@, values@, entries),
            },
    {
        let ghost before = self@;
        self.history_entries = self.history_entries.saturating_add(entries);
        let fits = match self.rows.len().checked_add(values.len()) {
            Some(total) => total <= self.bounds.limit,
            None => false,
        };
        if !fits {
            return Err(
                CurrentReadError::LimitExceeded {
                    kind: self.bounds.kind,
                    limit: self.bounds.limit,
                },
            );
        }
        let mut values = values;
        self.rows.append(&mut values);
        if complete {
            return Ok(CurrentReadStep::CursorDone);
        }
        if self.history_entries >= self.bounds.max_history_entries {
            return Err(
                CurrentReadError::HistoryExceeded {
                    kind: self.bounds.kind,
                    max_entries: self.bounds.max_history_entries,
                },
            );
        }
        Ok(CurrentReadStep::Yield)
    }

    /// End the read.
    pub fn into_rows(self) -> (rows: Vec<T>)
        ensures
            rows@ == self@.rows,
    {
        self.rows
    }
}

/// A step that is accepted adds everything that it found and nothing else: the
/// rows found before stay as they are, and the i-th added row is the i-th value.
/// The visited history grows by what the step visited, up to the largest number.
pub proof fn law_accepted_step_adds_every_value<T>(
    view: CurrentReadView<T>,
    values: Seq<T>,
    entries: usize,
)
    ensures
        ({
            let after = stepped(view, values, entries);
            &&& after.bounds == view.bounds
            &&& after.rows.len() == view.rows.len() + values.len()
            &&& forall|i: int| 0 <= i < view.rows.len() ==> #[trigger] after.rows[i] == view.rows[i]
            &&& forall|i: int|
                0 <= i < values.len() ==> after.rows[view.rows.len() + i] == #[trigger] values[i]
            &&& view.history_entries + entries <= usize::MAX ==> after.history_entries
                == view.history_entries + entries
            &&& view.history_entries + entries > usize::MAX ==> after.history_entries == usize::MAX
        }),
{
}

/// The state after a run of accepted steps, each with the values that it found
/// and the history entries that it visited.
pub open spec fn stepped_through<T>(
    view: CurrentReadView<T>,
    steps: Seq<(Seq<T>, usize)>,
) -> CurrentReadView<T>
    decreases steps.len(),
{
    if steps.len() == 0 {
        view
    } else {
        let before = stepped_through(view, steps.drop_last());
        stepped(before, steps.last().0, steps.last().1)
    }
}

/// The rows of a read are everything that its steps found, one after the other.
pub proof fn law_rows_are_everything_found<T>(
    view: CurrentReadView<T>,
    steps: Seq<(Seq<T>, usize)>,
)
    ensures
        stepped_through(view, steps).rows == view.rows + steps.map_values(
            |step: (Seq<T>, usize)| step.0,
        ).flatten_alt(),
        stepped_through(view, steps).bounds == view.bounds,
    decreases steps.len(),
{
    let found = steps.map_values(|step: (Seq<T>, usize)| step.0);
    if steps.len() == 0 {
        assert(found.flatten_alt() =~= Seq::empty());
        assert(view.rows + found.flatten_alt() =~= view.rows);
    } else {
        law_rows_are_everything_found(view, steps.drop_last());
        assert(found.drop_last() =~= steps.drop_last().map_values(
            |step: (Seq<T>, usize)| step.0,
        ));
        assert(found.last() == steps.last().0);
        let before = stepped_through(view, steps.drop_last());
        law_accepted_step_adds_every_value(before, steps.last().0, steps.last().1);
        assert(stepped_through(view, steps).rows =~= before.rows + steps.last().0);
        assert(view.rows + found.flatten_alt() =~= before.rows + steps.last().0);
    }
}

/// A step is refused for its rows exactly when the result would have more rows
/// than the limit, however many it has, and for its history exactly when the
/// cursor has more to visit and the bound is reached. Otherwise the cursor is
/// done or goes on, as the step says.
pub proof fn law_step_is_refused_only_beyond_its_bounds<T>(
    view: CurrentReadView<T>,
    values: Seq<T>,
    entries: usize,
    complete: bool,
)
    ensures
        ({
            let outcome = step_outcome(view, values, entries, complete);
            let rows = view.rows.len() + values.len();
            let spent = view.history_entries + entries >= view.bounds.max_history_entries;
            let kind = view.bounds.kind;
            let limit = view.bounds.limit;
            let max_entries = view.bounds.max_history_entries;
            &&& rows > limit <==> outcome == Err::<CurrentReadStep, CurrentReadError>(
                CurrentReadError::LimitExceeded { kind, limit },
            )
            &&& rows <= limit && complete <==> outcome == Ok::<CurrentReadStep, CurrentReadError>(
                CurrentReadStep::CursorDone,
            )
            &&& rows <= limit && !complete && spent <==> outcome == Err::<
                CurrentReadStep,
                CurrentReadError,
            >(CurrentReadError::HistoryExceeded { kind, max_entries })
            &&& rows <= limit && !complete && !spent <==> outcome == Ok::<
                CurrentReadStep,
                CurrentReadError,
            >(CurrentReadStep::Yield)
        }),
{
}

/// A step may visit history while the bound is not reached: at least one entry
/// if steps are not empty, no more than one step may, and never beyond the
/// bound.
pub proof fn law_step_budget_stays_within_bounds<T>(view: CurrentReadView<T>)
    ensures
        step_budget(view) is None <==> view.history_entries >= view.bounds.max_history_entries,
        step_budget(view) matches Some(budget) ==> {
            &&& budget <= view.bounds.step_entries
            &&& view.history_entries + budget <= view.bounds.max_history_entries
            &&& budget == view.bounds.step_entries || view.history_entries + budget
                == view.bounds.max_history_entries
        },
{
}

/// A structured read that goes on has its rows within the limit and its history
/// within the bound, so the next step has a budget.
pub proof fn law_structured_read_stays_bounded<T>(
    view: CurrentReadView<T>,
    values: Seq<T>,
    entries: usize,
    complete: bool,
)
    requires
        step_outcome(view, values, entries, complete) is Ok,
    ensures
        stepped(view, values, entries).rows.len() <= view.bounds.limit,
        step_outcome(view, values, entries, complete) == Ok::<CurrentReadStep, CurrentReadError>(
            CurrentReadStep::Yield,
        ) ==> step_budget(stepped(view, values, entries)) is Some,
{
}

/// One row of an entity read.
#[derive(Debug, PartialEq, Eq)]
pub struct CurrentFact<V> {
    /// The entity.
    pub entity: u128,
    /// The attribute.
    pub attribute: String,
    /// The value.
    pub value: V,
}

/// Turn the values that a cursor found into rows.
pub fn label_values<V>(entity: u128, attribute: &String, values: Vec<V>) -> (rows: Vec<
    CurrentFact<V>,
>)
    ensures
        rows@.len() == values@.len(),
        forall|i: int|
            0 <= i < values@.len() ==> (#[trigger] rows@[i]).entity == entity
                && rows@[i].attribute@ == attribute@ && rows@[i].value == values@[i],
{
    let mut rows: Vec<CurrentFact<V>> = Vec::new();
    for value in it: values
        invariant
            it.seq() == values@,
            rows@.len() == it.index(),
            forall|i: int|
                0 <= i < it.index() ==> (#[trigger] rows@[i]).entity == entity
                    && rows@[i].attribute@ == attribute@ && rows@[i].value == values@[i],
    {
        assert(value == values@[it.index()]);
        rows.push(CurrentFact { entity, attribute: attribute.clone(), value });
    }
    rows
}

/// The cursors of an entity read, entity by entity and attribute by attribute.
#[derive(Clone, Copy, Debug, PartialEq, Eq, Structural)]
pub struct CursorWalk {
    /// Number of entities.
    pub entities: usize,
    /// Number of attributes.
    pub attributes: usize,
    /// Entity of the next cursor.
    pub entity: usize,
    /// Attribute of the next cursor.
    pub attribute: usize,
}

impl CursorWalk {
    /// The walk stands at a cursor or at its end.
    pub open spec fn wf(self) -> bool {
        self.entity <= self.entities && (self.attribute < self.attributes || self.attribute == 0)
    }

    /// The entity and attribute where the walk stands, as positions.
    pub open spec fn cursor(self) -> Option<(usize, usize)> {
        if self.attributes == 0 || self.entity >= self.entities {
            None
        } else {
            Some((self.entity, self.attribute))
        }
    }

    /// The walk one cursor further on.
    pub open spec fn moved(self) -> CursorWalk {
        if self.cursor() is None {
            self
        } else if self.attribute + 1 < self.attributes {
            CursorWalk { attribute: (self.attribute + 1) as usize, ..self }
        } else {
            CursorWalk { entity: (self.entity + 1) as usize, attribute: 0, ..self }
        }
    }

    /// Start with the first entity and attribute.
    pub fn new(entities: usize, attributes: usize) -> (walk: Self)
        ensures
            walk == (CursorWalk { entities, attributes, entity: 0, attribute: 0 }),
            walk.wf(),
    {
        CursorWalk { entities, attributes, entity: 0, attribute: 0 }
    }

    /// The next entity and attribute, as positions.
    pub fn next_cursor(&mut self) -> (cursor: Option<(usize, usize)>)
        requires
            old(self).wf(),
        ensures
            final(self).wf(),
            cursor == old(self).cursor(),
            *final(self) == old(self).moved(),
            cursor is None <==> old(self).attributes == 0 || old(self).entity
                == old(self).entities,
            cursor is None ==> *final(self) == *old(self),
            cursor matches Some((entity, attribute)) ==> {
                &&& entity == old(self).entity < old(self).entities
                &&& attribute == old(self).attribute < old(self).attributes
                &&& *final(self) == if attribute + 1 < old(self).attributes {
                    CursorWalk { attribute: (attribute + 1) as usize, ..*old(self) }
                } else {
                    CursorWalk { entity: (entity + 1) as usize, attribute: 0, ..*old(self) }
                }
            },
    {
        if self.attributes == 0 || self.entity >= self.entities {
            return None;
        }
        let cursor = (self.entity, self.attribute);
        if self.attribute + 1 < self.attributes {
            self.attribute = self.attribute + 1;
        } else {
            self.entity = self.entity + 1;
            self.attribute = 0;
        }
        Some(cursor)
    }
}

/// The walk after `steps` cursors.
pub open spec fn walked(walk: CursorWalk, steps: nat) -> CursorWalk
    decreases steps,
{
    if steps == 0 {
        walk
    } else {
        walked(walk, (steps - 1) as nat).moved()
    }
}

/// A walk visits every attribute of every entity once: all attributes of the
/// first entity in their order, then those of the next, and so on to the end.
pub proof fn law_walk_visits_every_pair_in_order(
    entities: usize,
    attributes: usize,
    entity: int,
    attribute: int,
)
    requires
        0 <= entity < entities,
        0 <= attribute < attributes,
    ensures
        ({
            let start = CursorWalk { entities, attributes, entity: 0, attribute: 0 };
            &&& walked(start, (entity * attributes + attribute) as nat).cursor() == Some(
                (entity as usize, attribute as usize),
            )
            &&& walked(start, (entities * attributes) as nat).cursor() is None
        }),
{
    assert(0 <= entity * attributes) by (nonlinear_arith)
        requires
            0 <= entity,
            0 <= attributes,
    ;
    assert(0 <= entities * attributes) by (nonlinear_arith)
        requires
            0 <= entities,
            0 <= attributes,
    ;
    lemma_walked_to(entities, attributes, entity, attribute);
    lemma_walked_to(entities, attributes, entities as int, 0);
}

proof fn lemma_walked_to(entities: usize, attributes: usize, entity: int, attribute: int)
    requires
        0 <= entity <= entities,
        0 <= attribute < attributes,
        entity == entities ==> attribute == 0,
        0 <= entity * attributes + attribute,
    ensures
        ({
            let start = CursorWalk { entities, attributes, entity: 0, attribute: 0 };
            walked(start, (entity * attributes + attribute) as nat) == (CursorWalk {
                entities,
                attributes,
                entity: entity as usize,
                attribute: attribute as usize,
            })
        }),
    decreases entity, attribute,
{
    if attribute > 0 {
        assert(0 <= entity * attributes) by (nonlinear_arith)
            requires
                0 <= entity,
                0 <= attributes,
        ;
        lemma_walked_to(entities, attributes, entity, attribute - 1);
    } else if entity > 0 {
        assert((entity - 1) * attributes + (attributes - 1) == entity * attributes - 1)
            by (nonlinear_arith);
        assert(0 <= (entity - 1) * attributes) by (nonlinear_arith)
            requires
                0 < entity,
                0 <= attributes,
        ;
        lemma_walked_to(entities, attributes, entity - 1, attributes - 1);
    } else {
        assert(entity * attributes == 0) by (nonlinear_arith)
            requires
                entity == 0,
        ;
    }
}

} // verus!
