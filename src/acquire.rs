use vstd::prelude::*;

verus! {

/// The next operation of a context that blocks until it holds the lock.
///
/// Acquiring alternates two phases. In the first the context attempts the
/// compare-and-swap. When that fails it polls the flag with relaxed reads,
/// giving a spin hint after each read that saw the flag locked, and returns
/// to the exchange only once a read sees the flag unlocked. Only a
/// successful exchange leads to `Held`.
#[derive(PartialEq, Eq, Structural, Clone, Copy, Debug)]
pub enum Acquire {
    /// Attempt the compare-and-swap from unlocked to locked.
    Exchange,
    /// Read the flag with relaxed ordering.
    Poll,
    /// The lock is held by this context; acquiring is over.
    Held,
}

impl Acquire {
    /// The step after this one, given what its operation reported: for
    /// `Exchange` whether the swap took the lock, for `Poll` whether the
    /// flag read locked. `Held` stays `Held`.
    pub open spec fn after(self, report: bool) -> Acquire {
        match self {
            Acquire::Exchange => if report { Acquire::Held } else { Acquire::Poll },
            Acquire::Poll => if report { Acquire::Poll } else { Acquire::Exchange },
            Acquire::Held => Acquire::Held,
        }
    }

    /// Whether a spin hint is due after this step reported `report`: after
    /// each poll that saw the flag locked.
    pub open spec fn spins_after(self, report: bool) -> bool {
        self == Acquire::Poll && report
    }

    /// The first step of acquiring: an exchange.
    pub fn start() -> (r: Acquire)
        ensures
            r == Acquire::Exchange,
    {
        Acquire::Exchange
    }

    /// Whether acquiring is over.
    pub fn is_held(&self) -> (r: bool)
        ensures
            r == (*self == Acquire::Held),
    {
        match self {
            Acquire::Held => true,
            _ => false,
        }
    }

    /// The step that follows this one when its operation reported `report`.
    pub fn next(self, report: bool) -> (r: Acquire)
        ensures
            r == self.after(report),
    {
        match self {
            Acquire::Exchange => if report {
                Acquire::Held
            } else {
                Acquire::Poll
            },
            Acquire::Poll => if report {
                Acquire::Poll
            } else {
                Acquire::Exchange
            },
            Acquire::Held => Acquire::Held,
        }
    }

    /// Whether to give the processor a spin hint before the next step.
    pub fn should_spin(&self, report: bool) -> (r: bool)
        ensures
            r == self.spins_after(report),
    {
        match self {
            Acquire::Poll => report,
            _ => false,
        }
    }

    /// Only a successful exchange ends acquiring.
    pub proof fn lemma_held_only_by_exchange(self, report: bool)
        requires
            self != Acquire::Held,
        ensures
            self.after(report) == Acquire::Held <==> (self == Acquire::Exchange && report),
    {
    }

    /// A poll never leads straight back to the exchange while it sees the
    /// flag locked: the exchange is retried only after a read saw it
    /// unlocked.
    pub proof fn lemma_exchange_waits_for_unlocked(self, report: bool)
        ensures
            self == Acquire::Poll ==> (self.after(report) == Acquire::Exchange <==> !report),
    {
    }
}

} // verus!
