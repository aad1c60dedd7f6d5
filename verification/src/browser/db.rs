//! The live state of one database handle: its flags and its page buffer.

use crate::browser::buffer::{
    evicted, read_outcome, BrowserBufferBackend, BufferView,
};
use crate::browser::buffer_error::BufferError;
use crate::browser::guard::{BrowserOpenMode, GuardError, HandleGuard};
use crate::browser::paging::{
    authority_accepts, authority_fault, configure_sparse_authority,
    BROWSER_AGGREGATE_RESIDENT_PAGE_LIMIT,
};
use crate::collections::{member_ids, page_bytes};
use crate::text::{decimal, push_decimal};
use std::collections::{HashMap, HashSet};
use vstd::prelude::*;
use vstd::string::*;

verus! {

broadcast use vstd::std_specs::hash::group_hash_axioms;

/// The valid-time part of a read view.
#[derive(Clone, Copy, Debug, PartialEq, Eq, Structural)]
pub enum ValidAt {
    /// One instant, in milliseconds.
    Timestamp(i64),
    /// Every valid-time window.
    AnyValidTime,
    /// A placeholder that a prepared query fills in later.
    Slot,
}

/// A selective-query handle pinned to one transaction and one valid time.
#[derive(Clone, Copy, Debug, PartialEq, Eq, Structural)]
pub struct BrowserReadView {
    /// The pinned transaction count.
    pub tx_count: u64,
    /// The pinned valid time.
    pub valid_at: ValidAt,
}

impl BrowserReadView {
    /// Transaction cursor pinned by this view.
    pub fn tx_cursor(&self) -> (cursor: u64)
        ensures
            cursor == self.tx_count,
    {
        self.tx_count
    }
}

/// Why a read view was refused.
#[derive(Clone, Copy, Debug, PartialEq, Eq, Structural)]
pub enum ReadViewError {
    /// The handle is busy or poisoned.
    Guard(GuardError),
    /// The requested transaction has not happened yet.
    NewerThanCurrent { as_of: u64, current: u64 },
}

impl ReadViewError {
    /// The text reported for this error.
    pub open spec fn text(self) -> Seq<char> {
        match self {
            ReadViewError::Guard(error) => error.text(),
            ReadViewError::NewerThanCurrent { as_of, current } => "read-view as_of "@ + decimal(
                as_of as nat,
            ) + " is newer than current transaction "@ + decimal(current as nat),
        }
    }

    /// Render this error for a caller.
    pub fn message(&self) -> (text: String)
        ensures
            text@ == self.text(),
    {
        match self {
            ReadViewError::Guard(error) => error.message().to_owned(),
            ReadViewError::NewerThanCurrent { as_of, current } => {
                let mut out = String::new();
                out.append("read-view as_of ");
                push_decimal(&mut out, *as_of);
                out.append(" is newer than current transaction ");
                push_decimal(&mut out, *current);
                assert(out@ =~= self.text());
                out
            },
        }
    }
}

/// What a handle holds.
#[verifier::ext_equal]
pub struct BrowserDbView {
    /// The handle's flags.
    pub guard: HandleGuard,
    /// The handle's page buffer.
    pub buffer: BufferView,
    /// Whether the handle publishes to a page store.
    pub persistent: bool,
}

/// The live state of one database handle.
pub struct BrowserDb {
    guard: HandleGuard,
    buffer: BrowserBufferBackend,
    persistent: bool,
}

impl View for BrowserDb {
    type V = BrowserDbView;

    closed spec fn view(&self) -> BrowserDbView {
        BrowserDbView {
            guard: self.guard,
            buffer: self.buffer@,
            persistent: self.persistent,
        }
    }
}

/// The state of a handle that goes on with another image.
pub open spec fn installed(view: BrowserDbView, buffer: BufferView, paged: bool) -> BrowserDbView {
    BrowserDbView { guard: HandleGuard { paged, ..view.guard }, buffer, ..view }
}

/// The image of a database that holds only its header page.
pub open spec fn header_image(page_zero: Seq<u8>) -> Map<u64, Seq<u8>> {
    Map::empty().insert(0, page_zero)
}

/// A dirty page could not be read back.
#[derive(Clone, Copy, Debug, PartialEq, Eq, Structural)]
pub struct DirtyPageError {
    /// The dirty page.
    pub page_id: u64,
    /// Why it could not be read.
    pub error: BufferError,
}

impl DirtyPageError {
    /// The text reported for this error.
    pub open spec fn text(self) -> Seq<char> {
        "failed to read dirty browser page "@ + decimal(self.page_id as nat) + ": "@
            + self.error.text()
    }

    /// Render this error for a caller.
    pub fn message(&self) -> (text: String)
        ensures
            text@ == self.text(),
    {
        let mut out = String::new();
        out.append("failed to read dirty browser page ");
        push_decimal(&mut out, self.page_id);
        out.append(": ");
        out.append(self.error.message().as_str());
        assert(out@ =~= self.text());
        out
    }
}

/// Drain the dirty pages of a buffer, with their bytes.
pub fn take_dirty_pages(buffer: &mut BrowserBufferBackend) -> (result: Result<
    Vec<(u64, Vec<u8>)>,
    DirtyPageError,
>)
    ensures
        final(buffer)@ == (BufferView { dirty: Set::empty(), ..old(buffer)@ }),
        match result {
            Ok(pages) => {
                &&& pages@.len() == old(buffer)@.dirty.len()
                &&& forall|i: int|
                    0 <= i < pages@.len() ==> old(buffer)@.dirty.contains((#[trigger] pages@[i]).0)
                        && read_outcome(old(buffer)@, pages@[i].0) == Ok::<Seq<u8>, BufferError>(
                        pages@[i].1@,
                    )
                &&& forall|i: int, j: int|
                    0 <= i < j < pages@.len() ==> #[trigger] pages@[i].0 != #[trigger] pages@[j].0
                &&& forall|id: u64| #[trigger]
                    old(buffer)@.dirty.contains(id) ==> exists|i: int|
                        0 <= i < pages@.len() && (#[trigger] pages@[i]).0 == id
            },
            Err(fault) => {
                &&& old(buffer)@.dirty.contains(fault.page_id)
                &&& read_outcome(old(buffer)@, fault.page_id) == Err::<Seq<u8>, BufferError>(
                    fault.error,
                )
            },
        },
        old(buffer)@.wf() ==> result is Ok && final(buffer)@.wf(),
{
    let ghost before = buffer@;
    let dirty = buffer.take_dirty();
    let ids = member_ids(&dirty);
    let mut pages: Vec<(u64, Vec<u8>)> = Vec::new();
    let mut i: usize = 0;
    while i < ids.len()
        invariant
            i <= ids.len(),
            pages@.len() == i,
            ids@.no_duplicates(),
            ids@.to_set() == before.dirty,
            before == old(buffer)@,
            buffer@ == (BufferView { dirty: Set::empty(), ..before }),
            forall|j: int|
                0 <= j < i ==> (#[trigger] pages@[j]).0 == ids@[j] && read_outcome(
                    before,
                    pages@[j].0,
                ) == Ok::<Seq<u8>, BufferError>(pages@[j].1@),
        decreases ids.len() - i,
    {
        let id: u64 = ids[i];
        assert(ids@.contains(id));
        assert(before.dirty.contains(id));
        match buffer.read_page_raw(id) {
            Ok(page) => pages.push((id, page)),
            Err(error) => {
                assert(read_outcome(before, id) == Err::<Seq<u8>, BufferError>(error));
                return Err(DirtyPageError { page_id: id, error });
            },
        }
        i += 1;
    }
    proof {
        assert forall|i: int| 0 <= i < pages@.len() implies before.dirty.contains(
            (#[trigger] pages@[i]).0,
        ) by {
            assert(ids@.contains(ids@[i]));
        }
        assert forall|id: u64| #[trigger] before.dirty.contains(id) implies exists|i: int|
            0 <= i < pages@.len() && (#[trigger] pages@[i]).0 == id by {
            assert(ids@.to_set().contains(id));
            let k = choose|k: int| 0 <= k < ids@.len() && ids@[k] == id;
            assert(pages@[k].0 == id);
        }
    }
    Ok(pages)
}

impl BrowserDb {
    /// Open an in-memory database on a fresh header page.
    pub fn open_in_memory(page_zero: Vec<u8>) -> (db: Self)
        ensures
            db@.guard.idle(),
            db@.guard.open_mode == BrowserOpenMode::EagerCompatibility,
            !db@.guard.paged,
            !db@.persistent,
            db@.buffer == (BufferView {
                pages: header_image(page_zero@),
                dirty: Set::empty(),
                pinned: Set::empty(),
                logical_page_count: 1,
                sparse: false,
            }),
    {
        let mut pages: HashMap<u64, Vec<u8>> = HashMap::new();
        pages.insert(0, page_zero);
        assert(page_bytes(pages@) =~= header_image(page_zero@));
        assert(pages@.len() == 1);
        BrowserDb {
            guard: HandleGuard::new(BrowserOpenMode::EagerCompatibility, false),
            buffer: BrowserBufferBackend::load_pages(pages),
            persistent: false,
        }
    }

    /// Open a persistent database on a buffer that was loaded from the page
    /// store.
    pub fn open_from_idb_mode(
        buffer: BrowserBufferBackend,
        mode: BrowserOpenMode,
        paged: bool,
    ) -> (db: Self)
        ensures
            db@.guard.idle(),
            db@.guard.open_mode == mode,
            db@.guard.paged == paged,
            db@.persistent,
            db@.buffer == buffer@,
    {
        BrowserDb { guard: HandleGuard::new(mode, paged), buffer, persistent: true }
    }

    /// The handle's flags.
    pub fn guard(&self) -> (guard: HandleGuard)
        ensures
            guard == self@.guard,
    {
        self.guard
    }

    /// Whether the handle publishes to a page store.
    pub fn is_persistent(&self) -> (persistent: bool)
        ensures
            persistent == self@.persistent,
    {
        self.persistent
    }

    /// The handle's page buffer.
    pub fn buffer(&self) -> (buffer: &BrowserBufferBackend)
        ensures
            buffer@ == self@.buffer,
    {
        &self.buffer
    }

    /// The handle's page buffer, for an engine that writes pages to it.
    pub fn buffer_mut(&mut self) -> (buffer: &mut BrowserBufferBackend)
        ensures
            buffer@ == old(self)@.buffer,
            final(self)@ == (BrowserDbView { buffer: final(buffer)@, ..old(self)@ }),
    {
        &mut self.buffer
    }

    /// Capture a read view at a transaction that has happened, by default the
    /// current one.
    pub fn create_read_view(&self, as_of: Option<u64>, current: u64, valid_at: ValidAt) -> (result:
        Result<BrowserReadView, ReadViewError>)
        ensures
            result == match self@.guard.usable_fault() {
                Some(fault) => Err::<BrowserReadView, ReadViewError>(ReadViewError::Guard(fault)),
                None => match as_of {
                    None => Ok(BrowserReadView { tx_count: current, valid_at }),
                    Some(as_of) => if as_of > current {
                        Err(ReadViewError::NewerThanCurrent { as_of, current })
                    } else {
                        Ok(BrowserReadView { tx_count: as_of, valid_at })
                    },
                },
            },
    {
        if let Err(fault) = self.ensure_usable() {
            return Err(ReadViewError::Guard(fault));
        }
        let tx_count: u64 = match as_of {
            Some(as_of) => as_of,
            None => current,
        };
        if tx_count > current {
            return Err(ReadViewError::NewerThanCurrent { as_of: tx_count, current });
        }
        Ok(BrowserReadView { tx_count, valid_at })
    }

    /// Accept an operation on an idle handle.
    pub fn ensure_usable(&self) -> (result: Result<(), GuardError>)
        ensures
            result == match self@.guard.usable_fault() {
                Some(fault) => Err::<(), GuardError>(fault),
                None => Ok(()),
            },
    {
        self.guard.ensure_usable()
    }

    /// Mark a paged read as under way, if this handle pages.
    pub fn begin_paged_read(&mut self) -> (result: Result<bool, GuardError>)
        ensures
            result == if !old(self)@.guard.paged {
                Ok::<bool, GuardError>(false)
            } else {
                match old(self)@.guard.paged_read_fault() {
                    Some(fault) => Err(fault),
                    None => Ok(true),
                }
            },
            final(self)@ == if result == Ok::<bool, GuardError>(true) {
                BrowserDbView {
                    guard: HandleGuard { paged_read_in_flight: true, ..old(self)@.guard },
                    ..old(self)@
                }
            } else {
                old(self)@
            },
    {
        self.guard.begin_paged_read()
    }

    /// End a paged read and give up every page that was staged for it.
    pub fn finish_paged_read(&mut self)
        ensures
            evicted(old(self)@.buffer, 0, final(self)@.buffer),
            final(self)@ == (BrowserDbView {
                guard: HandleGuard { paged_read_in_flight: false, ..old(self)@.guard },
                buffer: final(self)@.buffer,
                ..old(self)@
            }),
    {
        self.guard.finish_paged_read();
        let _removed = self.buffer.evict_all_clean_unpinned();
    }

    /// Mark a mutation as under way.
    pub fn begin_mutation(&mut self) -> (result: Result<(), GuardError>)
        ensures
            result == match old(self)@.guard.mutation_fault() {
                Some(fault) => Err::<(), GuardError>(fault),
                None => Ok(()),
            },
            final(self)@ == if result is Ok {
                BrowserDbView { guard: old(self)@.guard.mutating(), ..old(self)@ }
            } else {
                old(self)@
            },
    {
        self.guard.begin_mutation()
    }

    /// Record that the mutation under way has started to change live state.
    pub fn advance_mutation(&mut self)
        ensures
            final(self)@ == (BrowserDbView {
                guard: HandleGuard { mutation_advanced: true, ..old(self)@.guard },
                ..old(self)@
            }),
    {
        self.guard.advance_mutation();
    }

    /// End a mutation.
    pub fn finish_mutation(&mut self, failed: bool)
        ensures
            final(self)@ == (BrowserDbView {
                guard: old(self)@.guard.settled(failed),
                ..old(self)@
            }),
    {
        self.guard.finish_mutation(failed);
    }

    /// Give up every clean, unpinned page of a paged handle.
    pub fn evict_sparse_staging(&mut self)
        ensures
            if old(self)@.guard.paged {
                evicted(old(self)@.buffer, 0, final(self)@.buffer) && final(self)@ == (
                BrowserDbView { buffer: final(self)@.buffer, ..old(self)@ })
            } else {
                final(self)@ == old(self)@
            },
    {
        if self.guard.paged {
            let _removed = self.buffer.evict_all_clean_unpinned();
        }
    }

    /// Bring a paged handle down to its streaming residency limit.
    pub fn evict_aggregate_staging(&mut self)
        ensures
            if old(self)@.guard.paged {
                evicted(
                    old(self)@.buffer,
                    BROWSER_AGGREGATE_RESIDENT_PAGE_LIMIT as nat,
                    final(self)@.buffer,
                ) && final(self)@ == (BrowserDbView { buffer: final(self)@.buffer, ..old(self)@ })
            } else {
                final(self)@ == old(self)@
            },
    {
        if self.guard.paged {
            let _removed = self.buffer.evict_clean_unpinned_to(
                BROWSER_AGGREGATE_RESIDENT_PAGE_LIMIT,
            );
        }
    }

    /// Drain the dirty pages of a write that has to be published.
    pub fn take_dirty_pages(&mut self) -> (result: Result<Vec<(u64, Vec<u8>)>, DirtyPageError>)
        ensures
            final(self)@ == (BrowserDbView {
                buffer: BufferView { dirty: Set::empty(), ..old(self)@.buffer },
                ..old(self)@
            }),
            match result {
                Ok(pages) => {
                    &&& pages@.len() == old(self)@.buffer.dirty.len()
                    &&& forall|i: int|
                        0 <= i < pages@.len() ==> old(self)@.buffer.dirty.contains(
                            (#[trigger] pages@[i]).0,
                        ) && read_outcome(old(self)@.buffer, pages@[i].0) == Ok::<
                            Seq<u8>,
                            BufferError,
                        >(pages@[i].1@)
                    &&& forall|id: u64| #[trigger]
                        old(self)@.buffer.dirty.contains(id) ==> exists|i: int|
                            0 <= i < pages@.len() && (#[trigger] pages@[i]).0 == id
                },
                Err(fault) => {
                    &&& old(self)@.buffer.dirty.contains(fault.page_id)
                    &&& read_outcome(old(self)@.buffer, fault.page_id) == Err::<
                        Seq<u8>,
                        BufferError,
                    >(fault.error)
                },
            },
            old(self)@.buffer.wf() ==> result is Ok,
    {
        take_dirty_pages(&mut self.buffer)
    }

    /// Give a paged handle the authority pins of its new image.
    pub fn configure_authority(&mut self, pins: HashSet<u64>) -> (result: Result<(), BufferError>)
        ensures
            if !old(self)@.guard.paged {
                result == Ok::<(), BufferError>(()) && final(self)@ == old(self)@
            } else {
                match result {
                    Ok(_) => {
                        &&& authority_accepts(old(self)@.buffer, pins@)
                        &&& final(self)@ == (BrowserDbView {
                            buffer: BufferView { pinned: pins@, sparse: true, ..old(self)@.buffer },
                            ..old(self)@
                        })
                    },
                    Err(fault) => {
                        &&& !authority_accepts(old(self)@.buffer, pins@)
                        &&& authority_fault(old(self)@.buffer, pins@, fault)
                        &&& final(self)@ == old(self)@
                    },
                }
            },
    {
        if !self.guard.paged {
            return Ok(());
        }
        configure_sparse_authority(&mut self.buffer, pins)
    }

    /// Make a replacement image live once it is durable. A replacement that
    /// could not be made durable leaves the handle on its own image.
    pub fn install<E>(
        &mut self,
        durable: Result<(), E>,
        buffer: BrowserBufferBackend,
        paged: bool,
    ) -> (result: Result<(), E>)
        ensures
            result == durable,
            final(self)@ == match durable {
                Ok(_) => installed(old(self)@, buffer@, paged),
                Err(_) => old(self)@,
            },
    {
        if let Ok(_) = durable {
            self.buffer = buffer;
            self.guard.paged = paged;
        }
        durable
    }

    /// Settle a failed flush: where the previous durable image could be
    /// reopened it becomes live again, and the handle stays usable. The result
    /// is the error to report.
    pub fn restore_after_failed_flush(
        &mut self,
        write_error: String,
        reopened: Result<(BrowserBufferBackend, bool), String>,
    ) -> (report: String)
        ensures
            match reopened {
                Ok((buffer, paged)) => {
                    &&& report@ == write_error@
                    &&& final(self)@ == (BrowserDbView {
                        guard: HandleGuard {
                            mutation_failure_rolled_back: true,
                            paged,
                            ..old(self)@.guard
                        },
                        buffer: buffer@,
                        ..old(self)@
                    })
                },
                Err(reopen_error) => {
                    &&& report@ == restore_failure_text(write_error@, reopen_error@)
                    &&& final(self)@ == old(self)@
                },
            },
    {
        match reopened {
            Ok((buffer, paged)) => {
                self.buffer = buffer;
                self.guard.roll_back_mutation(paged);
                write_error
            },
            Err(reopen_error) => {
                let mut out = String::new();
                out.append(
                    "IndexedDB write failed and previous durable graph could not be reopened: write=",
                );
                out.append(write_error.as_str());
                out.append("; reopen=");
                out.append(reopen_error.as_str());
                assert(out@ =~= restore_failure_text(write_error@, reopen_error@));
                out
            },
        }
    }
}

/// The report of a flush that failed and could not be undone.
pub open spec fn restore_failure_text(write_error: Seq<char>, reopen_error: Seq<char>) -> Seq<char> {
    "IndexedDB write failed and previous durable graph could not be reopened: write="@ + write_error
        + "; reopen="@ + reopen_error
}

/// A replacement that was refused leaves an idle handle as it was, and one that
/// was made durable leaves it idle on the new image: neither poisons it.
pub proof fn law_replacement_is_all_or_nothing(
    view: BrowserDbView,
    buffer: BufferView,
    paged: bool,
)
    requires
        view.guard.idle(),
        !view.guard.mutation_failure_rolled_back,
        !view.guard.mutation_advanced,
    ensures
        ({
            let begun = BrowserDbView { guard: view.guard.mutating(), ..view };
            let replaced = installed(begun, buffer, paged);
            &&& (BrowserDbView { guard: begun.guard.settled(false), ..begun }) == view
            &&& (BrowserDbView { guard: replaced.guard.settled(false), ..replaced }) == installed(
                view,
                buffer,
                paged,
            )
        }),
{
}

/// The text of a JavaScript error, which need not be a string.
pub fn js_value_message(text: Option<String>) -> (message: String)
    ensures
        message@ == match text {
            Some(text) => text@,
            None => "non-string JavaScript error"@,
        },
{
    match text {
        Some(text) => text,
        None => "non-string JavaScript error".to_owned(),
    }
}

/// A handle that goes on with another image holds exactly that image, pages if
/// it was told to, and keeps everything else.
pub proof fn law_installed_image_is_the_one_given(
    view: BrowserDbView,
    buffer: BufferView,
    paged: bool,
)
    ensures
        installed(view, buffer, paged).buffer == buffer,
        installed(view, buffer, paged).guard.paged == paged,
        installed(view, buffer, paged).guard.open_mode == view.guard.open_mode,
        installed(view, buffer, paged).guard.durability_poisoned == view.guard.durability_poisoned,
        installed(view, buffer, paged).persistent == view.persistent,
{
}

/// A fresh database holds page 0 and no other page.
pub proof fn law_fresh_image_is_its_header_page(page_zero: Seq<u8>, id: u64)
    ensures
        header_image(page_zero).contains_key(id) <==> id == 0,
        header_image(page_zero)[0] == page_zero,
{
}

} // verus!
