//! Which way a command takes, and what it needs of the page store.

use vstd::prelude::*;

verus! {

/// The kinds of command that a handle executes.
#[derive(Clone, Copy, Debug, PartialEq, Eq, Structural)]
pub enum CommandKind {
    /// A query.
    Query,
    /// A rule definition.
    Rule,
    /// Facts to assert.
    Transact,
    /// Facts to retract.
    Retract,
    /// Valid-time windows to close.
    Forget,
}

/// The way a command takes.
#[derive(Clone, Copy, Debug, PartialEq, Eq, Structural)]
pub enum CommandRoute {
    /// A guarded read.
    Read,
    /// A mutation whose facts are materialized before it starts.
    Write { is_retract: bool },
    /// A guarded read that resolves the facts, then a mutation.
    ResolveThenClose,
}

/// The way a command takes.
pub fn command_route(kind: CommandKind) -> (route: CommandRoute)
    ensures
        route == match kind {
            CommandKind::Query | CommandKind::Rule => CommandRoute::Read,
            CommandKind::Transact => CommandRoute::Write { is_retract: false },
            CommandKind::Retract => CommandRoute::Write { is_retract: true },
            CommandKind::Forget => CommandRoute::ResolveThenClose,
        },
{
    match kind {
        CommandKind::Query | CommandKind::Rule => CommandRoute::Read,
        CommandKind::Transact => CommandRoute::Write { is_retract: false },
        CommandKind::Retract => CommandRoute::Write { is_retract: true },
        CommandKind::Forget => CommandRoute::ResolveThenClose,
    }
}

/// How the pages of a read become resident.
#[derive(Clone, Copy, Debug, PartialEq, Eq, Structural)]
pub struct ReadPlan {
    /// Fetch every base fact page first.
    pub prefetch: bool,
    /// Pages to fetch around each page that turns out to be missing.
    pub batch_pages: u64,
}

/// Plan the paging of a read. Anything but a query fetches single pages.
/// `access` says of a query whether it scans every fact, and its batch size.
pub fn read_plan(access: Option<(bool, u64)>) -> (plan: ReadPlan)
    ensures
        plan == match access {
            Some((full_scan, batch_pages)) => ReadPlan { prefetch: full_scan, batch_pages },
            None => ReadPlan { prefetch: false, batch_pages: 1 },
        },
{
    match access {
        Some((full_scan, batch_pages)) => ReadPlan { prefetch: full_scan, batch_pages },
        None => ReadPlan { prefetch: false, batch_pages: 1 },
    }
}

/// What a page store is needed for.
#[derive(Clone, Copy, Debug, PartialEq, Eq, Structural)]
pub enum SourceUse {
    /// A page that a read asked for.
    Read,
    /// The base facts of a full scan.
    Scan,
    /// The base pages of a projection rebuild.
    Projection,
    /// An export of the published image.
    Export,
    /// A checkpoint.
    Checkpoint,
    /// A recompaction.
    Maintenance,
}

/// The report of a missing page store.
pub open spec fn missing_source_text(purpose: SourceUse) -> Seq<char> {
    match purpose {
        SourceUse::Read => "paged read is missing its IndexedDB source"@,
        SourceUse::Scan => "paged scan is missing its IndexedDB source"@,
        SourceUse::Projection => "projection rebuild is missing its IndexedDB source"@,
        SourceUse::Export => "paged export is missing its IndexedDB source"@,
        SourceUse::Checkpoint => "checkpoint IndexedDB handle is missing"@,
        SourceUse::Maintenance => "IndexedDB maintenance handle is missing"@,
    }
}

/// The report of a missing page store.
pub fn missing_source_message(purpose: SourceUse) -> (text: &'static str)
    ensures
        text@ == missing_source_text(purpose),
{
    match purpose {
        SourceUse::Read => "paged read is missing its IndexedDB source",
        SourceUse::Scan => "paged scan is missing its IndexedDB source",
        SourceUse::Projection => "projection rebuild is missing its IndexedDB source",
        SourceUse::Export => "paged export is missing its IndexedDB source",
        SourceUse::Checkpoint => "checkpoint IndexedDB handle is missing",
        SourceUse::Maintenance => "IndexedDB maintenance handle is missing",
    }
}

/// Whatever a page store is missed for, the report says so: no two purposes have
/// the same report.
pub proof fn law_missing_source_tells_its_purpose(a: SourceUse, b: SourceUse)
    requires
        a != b,
    ensures
        missing_source_text(a) != missing_source_text(b),
{
    reveal_strlit("paged read is missing its IndexedDB source");
    reveal_strlit("paged scan is missing its IndexedDB source");
    reveal_strlit("projection rebuild is missing its IndexedDB source");
    reveal_strlit("paged export is missing its IndexedDB source");
    reveal_strlit("checkpoint IndexedDB handle is missing");
    reveal_strlit("IndexedDB maintenance handle is missing");
    assert(missing_source_text(SourceUse::Read)[6] == 'r');
    assert(missing_source_text(SourceUse::Scan)[6] == 's');
    assert(missing_source_text(SourceUse::Projection)[6] == 't');
    assert(missing_source_text(SourceUse::Export)[6] == 'e');
    assert(missing_source_text(SourceUse::Checkpoint)[6] == 'o');
    assert(missing_source_text(SourceUse::Maintenance)[6] == 'd');
}

} // verus!
