//! Exclusion and durability flags of one database handle.

use vstd::prelude::*;
use vstd::string::*;

verus! {

/// How a caller asked for a database to be opened.
#[derive(Clone, Copy, Debug, PartialEq, Eq, Structural)]
pub enum BrowserOpenMode {
    /// The whole published image becomes resident.
    EagerCompatibility,
    /// Pages become resident on demand.
    Paged,
}

impl BrowserOpenMode {
    /// Whether pages are fetched on demand.
    pub fn is_paged(self) -> (paged: bool)
        ensures
            paged == (self == BrowserOpenMode::Paged),
    {
        match self {
            BrowserOpenMode::Paged => true,
            BrowserOpenMode::EagerCompatibility => false,
        }
    }
}

/// Why a handle refused to start an operation.
#[derive(Clone, Copy, Debug, PartialEq, Eq, Structural)]
pub enum GuardError {
    /// A failed write left memory and store possibly apart.
    DurabilityUncertain,
    /// A read was asked for while a mutation awaits durability.
    MutationAwaitingDurability,
    /// An operation was asked for while a paged read awaits pages.
    PagedReadAwaitingPages,
    /// A paged read was asked for while another operation is under way.
    OperationInProgress,
    /// A mutation was asked for while another one is under way.
    MutationInProgress,
    /// A mutation was asked for while a paged read awaits pages.
    PagedReadBlocksMutation,
}

impl GuardError {
    /// The text reported for this error.
    pub open spec fn text(self) -> Seq<char> {
        match self {
            GuardError::DurabilityUncertain =>
                "BrowserDb durability state is uncertain after a failed write; discard this handle and reopen"@,
            GuardError::MutationAwaitingDurability =>
                "BrowserDb mutation is awaiting durability; await it before querying or exporting from this handle"@,
            GuardError::PagedReadAwaitingPages =>
                "BrowserDb paged read is awaiting IndexedDB; await it before starting another operation on this handle"@,
            GuardError::OperationInProgress =>
                "BrowserDb operation already in progress; await it before starting a paged read"@,
            GuardError::MutationInProgress =>
                "BrowserDb mutation already in progress; await it before starting another write, checkpoint, import, or maintenance call"@,
            GuardError::PagedReadBlocksMutation =>
                "BrowserDb paged read is awaiting IndexedDB; await it before starting a mutation"@,
        }
    }

    /// Render this error for a caller.
    pub fn message(&self) -> (text: &'static str)
        ensures
            text@ == self.text(),
    {
        match self {
            GuardError::DurabilityUncertain =>
                "BrowserDb durability state is uncertain after a failed write; discard this handle and reopen",
            GuardError::MutationAwaitingDurability =>
                "BrowserDb mutation is awaiting durability; await it before querying or exporting from this handle",
            GuardError::PagedReadAwaitingPages =>
                "BrowserDb paged read is awaiting IndexedDB; await it before starting another operation on this handle",
            GuardError::OperationInProgress =>
                "BrowserDb operation already in progress; await it before starting a paged read",
            GuardError::MutationInProgress =>
                "BrowserDb mutation already in progress; await it before starting another write, checkpoint, import, or maintenance call",
            GuardError::PagedReadBlocksMutation =>
                "BrowserDb paged read is awaiting IndexedDB; await it before starting a mutation",
        }
    }
}

/// The flags of one handle.
#[derive(Clone, Copy, Debug, PartialEq, Eq, Structural)]
pub struct HandleGuard {
    /// A mutation is under way. Covers every await of that mutation.
    pub mutation_in_flight: bool,
    /// The live image changed but its commit failed. The only safe recovery is
    /// to discard the handle and reopen.
    pub durability_poisoned: bool,
    /// The failed commit was followed by a successful reload of the previous
    /// durable image.
    pub mutation_failure_rolled_back: bool,
    /// Live state has started to advance. An error before this point is an
    /// ordinary rejection.
    pub mutation_advanced: bool,
    /// Pages are fetched on demand.
    pub paged: bool,
    /// The contract that the caller chose at open time.
    pub open_mode: BrowserOpenMode,
    /// A paged read is under way.
    pub paged_read_in_flight: bool,
}

impl HandleGuard {
    /// A mutation and a paged read are never under way at the same time.
    pub open spec fn wf(self) -> bool {
        !(self.mutation_in_flight && self.paged_read_in_flight)
    }

    /// Nothing is under way and the handle can be used.
    pub open spec fn idle(self) -> bool {
        !self.mutation_in_flight && !self.durability_poisoned && !self.paged_read_in_flight
    }

    /// The reason, if any, not to start an ordinary operation.
    pub open spec fn usable_fault(self) -> Option<GuardError> {
        if self.durability_poisoned {
            Some(GuardError::DurabilityUncertain)
        } else if self.mutation_in_flight {
            Some(GuardError::MutationAwaitingDurability)
        } else if self.paged_read_in_flight {
            Some(GuardError::PagedReadAwaitingPages)
        } else {
            None
        }
    }

    /// The reason, if any, not to start a paged read.
    pub open spec fn paged_read_fault(self) -> Option<GuardError> {
        if self.durability_poisoned {
            Some(GuardError::DurabilityUncertain)
        } else if self.mutation_in_flight || self.paged_read_in_flight {
            Some(GuardError::OperationInProgress)
        } else {
            None
        }
    }

    /// The reason, if any, not to start a mutation.
    pub open spec fn mutation_fault(self) -> Option<GuardError> {
        if self.durability_poisoned {
            Some(GuardError::DurabilityUncertain)
        } else if self.mutation_in_flight {
            Some(GuardError::MutationInProgress)
        } else if self.paged_read_in_flight {
            Some(GuardError::PagedReadBlocksMutation)
        } else {
            None
        }
    }

    /// The flags once a mutation has started.
    pub open spec fn mutating(self) -> HandleGuard {
        HandleGuard {
            mutation_in_flight: true,
            mutation_failure_rolled_back: false,
            mutation_advanced: false,
            ..self
        }
    }

    /// The flags once a mutation has ended.
    pub open spec fn settled(self, failed: bool) -> HandleGuard {
        HandleGuard {
            mutation_in_flight: false,
            durability_poisoned: self.durability_poisoned || (failed && self.mutation_advanced
                && !self.mutation_failure_rolled_back),
            mutation_failure_rolled_back: false,
            mutation_advanced: false,
            ..self
        }
    }

    /// The flags of a handle that has just been opened.
    pub fn new(open_mode: BrowserOpenMode, paged: bool) -> (guard: Self)
        ensures
            guard == (HandleGuard {
                mutation_in_flight: false,
                durability_poisoned: false,
                mutation_failure_rolled_back: false,
                mutation_advanced: false,
                paged,
                open_mode,
                paged_read_in_flight: false,
            }),
            guard.wf(),
            guard.idle(),
    {
        HandleGuard {
            mutation_in_flight: false,
            durability_poisoned: false,
            mutation_failure_rolled_back: false,
            mutation_advanced: false,
            paged,
            open_mode,
            paged_read_in_flight: false,
        }
    }

    /// Accept an operation on an idle handle.
    pub fn ensure_usable(&self) -> (result: Result<(), GuardError>)
        ensures
            result == match self.usable_fault() {
                Some(fault) => Err::<(), GuardError>(fault),
                None => Ok(()),
            },
    {
        if self.durability_poisoned {
            return Err(GuardError::DurabilityUncertain);
        }
        if self.mutation_in_flight {
            return Err(GuardError::MutationAwaitingDurability);
        }
        if self.paged_read_in_flight {
            return Err(GuardError::PagedReadAwaitingPages);
        }
        Ok(())
    }

    /// Start a paged read. Reads of other handles never wait, so they need no
    /// guard: the result says whether one was taken.
    pub fn begin_paged_read(&mut self) -> (result: Result<bool, GuardError>)
        ensures
            result == if !old(self).paged {
                Ok::<bool, GuardError>(false)
            } else {
                match old(self).paged_read_fault() {
                    Some(fault) => Err(fault),
                    None => Ok(true),
                }
            },
            *final(self) == if result == Ok::<bool, GuardError>(true) {
                HandleGuard { paged_read_in_flight: true, ..*old(self) }
            } else {
                *old(self)
            },
            old(self).wf() ==> final(self).wf(),
    {
        if !self.paged {
            return Ok(false);
        }
        if self.durability_poisoned {
            return Err(GuardError::DurabilityUncertain);
        }
        if self.mutation_in_flight || self.paged_read_in_flight {
            return Err(GuardError::OperationInProgress);
        }
        self.paged_read_in_flight = true;
        Ok(true)
    }

    /// End a paged read.
    pub fn finish_paged_read(&mut self)
        ensures
            *final(self) == (HandleGuard { paged_read_in_flight: false, ..*old(self) }),
    {
        self.paged_read_in_flight = false;
    }

    /// Start a mutation.
    pub fn begin_mutation(&mut self) -> (result: Result<(), GuardError>)
        ensures
            result == match old(self).mutation_fault() {
                Some(fault) => Err::<(), GuardError>(fault),
                None => Ok(()),
            },
            *final(self) == if result is Ok {
                old(self).mutating()
            } else {
                *old(self)
            },
            old(self).wf() ==> final(self).wf(),
    {
        if self.durability_poisoned {
            return Err(GuardError::DurabilityUncertain);
        }
        if self.mutation_in_flight {
            return Err(GuardError::MutationInProgress);
        }
        if self.paged_read_in_flight {
            return Err(GuardError::PagedReadBlocksMutation);
        }
        self.mutation_in_flight = true;
        self.mutation_failure_rolled_back = false;
        self.mutation_advanced = false;
        Ok(())
    }

    /// Record that live state has started to advance.
    pub fn advance_mutation(&mut self)
        ensures
            *final(self) == (HandleGuard { mutation_advanced: true, ..*old(self) }),
    {
        self.mutation_advanced = true;
    }

    /// Record that the previous durable image is live again after a failed
    /// commit.
    pub fn roll_back_mutation(&mut self, paged: bool)
        ensures
            *final(self) == (HandleGuard {
                mutation_failure_rolled_back: true,
                paged,
                ..*old(self)
            }),
    {
        self.paged = paged;
        self.mutation_failure_rolled_back = true;
    }

    /// End a mutation. A failure after live state advanced poisons the handle,
    /// unless the previous image was restored.
    pub fn finish_mutation(&mut self, failed: bool)
        ensures
            *final(self) == old(self).settled(failed),
    {
        self.mutation_in_flight = false;
        self.durability_poisoned = self.durability_poisoned || (failed && self.mutation_advanced
            && !self.mutation_failure_rolled_back);
        self.mutation_failure_rolled_back = false;
        self.mutation_advanced = false;
    }
}

/// While a mutation is under way the handle starts neither a read, nor a paged
/// read, nor another mutation.
pub proof fn law_mutation_excludes_everything(guard: HandleGuard)
    requires
        guard.mutation_in_flight,
    ensures
        guard.usable_fault() is Some,
        guard.paged_read_fault() is Some,
        guard.mutation_fault() is Some,
{
}

/// While a paged read is under way the handle starts neither another read nor a
/// mutation.
pub proof fn law_paged_read_excludes_everything(guard: HandleGuard)
    requires
        guard.paged_read_in_flight,
    ensures
        guard.usable_fault() is Some,
        guard.paged_read_fault() is Some,
        guard.mutation_fault() is Some,
{
}

/// A poisoned handle refuses every operation, and no mutation that ends clears
/// the poison.
pub proof fn law_poison_is_permanent(guard: HandleGuard, failed: bool)
    requires
        guard.durability_poisoned,
    ensures
        guard.usable_fault() == Some(GuardError::DurabilityUncertain),
        guard.paged_read_fault() == Some(GuardError::DurabilityUncertain),
        guard.mutation_fault() == Some(GuardError::DurabilityUncertain),
        guard.settled(failed).durability_poisoned,
{
}

/// A mutation that fails before live state advances leaves an idle handle
/// idle.
pub proof fn law_early_rejection_does_not_poison(guard: HandleGuard)
    requires
        guard.idle(),
    ensures
        guard.mutating().settled(true).idle(),
        guard.mutating().settled(false).idle(),
{
}

/// A mutation that fails after live state advanced poisons the handle, unless
/// the previous durable image was restored.
pub proof fn law_failed_publication_poisons(guard: HandleGuard, paged: bool)
    requires
        guard.idle(),
    ensures
        ({
            let advanced = HandleGuard { mutation_advanced: true, ..guard.mutating() };
            let restored = HandleGuard { mutation_failure_rolled_back: true, paged, ..advanced };
            &&& advanced.settled(true).durability_poisoned
            &&& !advanced.settled(false).durability_poisoned
            &&& restored.settled(true).idle()
        }),
{
}

/// An idle handle starts every kind of operation, and a handle that is not idle
/// starts none. What keeps it from it is named: the uncertain durability first,
/// then the mutation, then the paged read that is under way.
pub proof fn law_only_an_idle_handle_starts_operations(guard: HandleGuard)
    ensures
        guard.usable_fault() is None <==> guard.idle(),
        guard.paged_read_fault() is None <==> guard.idle(),
        guard.mutation_fault() is None <==> guard.idle(),
        guard.idle() <==> !guard.mutation_in_flight && !guard.durability_poisoned
            && !guard.paged_read_in_flight,
        !guard.durability_poisoned && guard.mutation_in_flight ==> {
            &&& guard.usable_fault() == Some(GuardError::MutationAwaitingDurability)
            &&& guard.paged_read_fault() == Some(GuardError::OperationInProgress)
            &&& guard.mutation_fault() == Some(GuardError::MutationInProgress)
        },
        !guard.durability_poisoned && !guard.mutation_in_flight && guard.paged_read_in_flight ==> {
            &&& guard.usable_fault() == Some(GuardError::PagedReadAwaitingPages)
            &&& guard.paged_read_fault() == Some(GuardError::OperationInProgress)
            &&& guard.mutation_fault() == Some(GuardError::PagedReadBlocksMutation)
        },
{
}

/// A mutation that starts is under way and has neither advanced nor been rolled
/// back; one that ends is no longer under way. Neither changes how the handle
/// pages, how it was opened, or whether a paged read is under way.
pub proof fn law_mutation_flags_come_and_go(guard: HandleGuard, failed: bool)
    ensures
        guard.mutating().mutation_in_flight,
        !guard.mutating().mutation_advanced,
        !guard.mutating().mutation_failure_rolled_back,
        guard.mutating().durability_poisoned == guard.durability_poisoned,
        guard.mutating().paged == guard.paged,
        guard.mutating().open_mode == guard.open_mode,
        guard.mutating().paged_read_in_flight == guard.paged_read_in_flight,
        !guard.settled(failed).mutation_in_flight,
        !guard.settled(failed).mutation_advanced,
        !guard.settled(failed).mutation_failure_rolled_back,
        guard.settled(failed).paged == guard.paged,
        guard.settled(failed).open_mode == guard.open_mode,
        guard.settled(failed).paged_read_in_flight == guard.paged_read_in_flight,
        !failed ==> guard.settled(failed).durability_poisoned == guard.durability_poisoned,
{
}

} // verus!
