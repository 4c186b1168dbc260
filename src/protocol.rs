//! An abstract model of one or more spin locks and the contexts that use
//! them, with the protocol's properties proved of that model.
//!
//! The model is separate from [`crate::RawSpinlock`]: no proof ties that
//! type's methods to the operations here, so what is proved here holds of
//! the model only. The acquire steps are the one part the model shares with
//! the running code: a step follows [`Acquire::after`], which
//! [`Acquire::next`] is proved to compute.
use crate::acquire::Acquire;
use vstd::prelude::*;

verus! {

/// What the compare-and-swap from unlocked to locked does to a flag that
/// holds `flag`: the flag afterwards, and whether the swap took the lock.
/// A swap that fails leaves the flag as it was, which is locked.
pub open spec fn exchange(flag: bool) -> (bool, bool) {
    (true, !flag)
}

/// One operation of one context on a shared lock.
pub enum Event {
    /// The context makes one attempt without waiting.
    TryLock(int),
    /// The context starts a blocking acquire.
    Begin(int),
    /// The context performs the next step of its blocking acquire.
    Step(int),
    /// The context releases the lock it holds.
    Unlock(int),
}

impl Event {
    pub open spec fn context(self) -> int {
        match self {
            Event::TryLock(i) => i,
            Event::Begin(i) => i,
            Event::Step(i) => i,
            Event::Unlock(i) => i,
        }
    }
}

/// One lock and the contexts that use it.
pub struct Shared {
    /// The lock's flag.
    pub flag: bool,
    /// For each context, `None` while it neither holds nor waits for the
    /// lock, else the step of acquiring it is at.
    pub contexts: Seq<Option<Acquire>>,
}

impl Shared {
    /// A new lock, unlocked, among `n` idle contexts.
    pub open spec fn init(n: nat) -> Shared {
        Shared { flag: false, contexts: Seq::new(n, |i: int| None) }
    }

    pub open spec fn is_context(self, i: int) -> bool {
        0 <= i < self.contexts.len()
    }

    /// Context `i` neither holds nor waits for the lock.
    pub open spec fn idle(self, i: int) -> bool {
        self.is_context(i) && self.contexts[i] is None
    }

    /// Context `i` holds the lock.
    pub open spec fn holds(self, i: int) -> bool {
        self.is_context(i) && self.contexts[i] == Some(Acquire::Held)
    }

    /// Context `i` is blocked in acquiring the lock.
    pub open spec fn waiting(self, i: int) -> bool {
        self.is_context(i) && self.contexts[i] is Some && self.contexts[i] != Some(Acquire::Held)
    }

    /// At most one context holds the lock, and the flag is set exactly
    /// while one does.
    pub open spec fn inv(self) -> bool {
        &&& forall|i: int, j: int| self.holds(i) && self.holds(j) ==> i == j
        &&& self.flag <==> exists|i: int| self.holds(i)
    }

    /// Whether `e` may happen now: a context attempts or starts acquiring
    /// only while idle, steps only while waiting, and releases only what it
    /// holds.
    pub open spec fn enabled(self, e: Event) -> bool {
        match e {
            Event::TryLock(i) => self.idle(i),
            Event::Begin(i) => self.idle(i),
            Event::Step(i) => self.waiting(i),
            Event::Unlock(i) => self.holds(i),
        }
    }

    /// Whether `e` makes its context the holder of the lock.
    pub open spec fn acquires(self, e: Event) -> bool {
        match e {
            Event::TryLock(i) => exchange(self.flag).1,
            Event::Step(i) => self.contexts[i] == Some(Acquire::Exchange) && exchange(self.flag).1,
            _ => false,
        }
    }

    /// The lock and contexts after `e`.
    pub open spec fn apply(self, e: Event) -> Shared {
        match e {
            Event::TryLock(i) => {
                let (flag, acquired) = exchange(self.flag);
                Shared {
                    flag,
                    contexts: if acquired {
                        self.contexts.update(i, Some(Acquire::Held))
                    } else {
                        self.contexts
                    },
                }
            },
            Event::Begin(i) => Shared {
                flag: self.flag,
                contexts: self.contexts.update(i, Some(Acquire::Exchange)),
            },
            Event::Step(i) => {
                let step = self.contexts[i]->Some_0;
                if step == Acquire::Exchange {
                    let (flag, acquired) = exchange(self.flag);
                    Shared { flag, contexts: self.contexts.update(i, Some(step.after(acquired))) }
                } else {
                    Shared {
                        flag: self.flag,
                        contexts: self.contexts.update(i, Some(step.after(self.flag))),
                    }
                }
            },
            Event::Unlock(i) => Shared { flag: false, contexts: self.contexts.update(i, None) },
        }
    }

    /// Whether each of `events` is enabled when its turn comes.
    pub open spec fn runs(self, events: Seq<Event>) -> bool
        decreases events.len(),
    {
        events.len() == 0 || (self.enabled(events[0]) && self.apply(events[0]).runs(
            events.drop_first(),
        ))
    }

    /// The lock and contexts after `events`, in order.
    pub open spec fn run(self, events: Seq<Event>) -> Shared
        decreases events.len(),
    {
        if events.len() == 0 {
            self
        } else {
            self.apply(events[0]).run(events.drop_first())
        }
    }

    /// Whether no event of `events` makes its context the holder.
    pub open spec fn none_acquires(self, events: Seq<Event>) -> bool
        decreases events.len(),
    {
        events.len() == 0 || (!self.acquires(events[0]) && self.apply(
            events[0],
        ).none_acquires(events.drop_first()))
    }
}

/// A new lock satisfies the invariant.
pub proof fn lemma_init_inv(n: nat)
    ensures
        Shared::init(n).inv(),
{
}

/// Every enabled event preserves the invariant.
pub proof fn lemma_apply_inv(s: Shared, e: Event)
    requires
        s.inv(),
        s.enabled(e),
    ensures
        s.apply(e).inv(),
{
    let t = s.apply(e);
    let i = e.context();
    if s.acquires(e) {
        assert forall|j: int| !s.holds(j) by {}
        assert(t.contexts == s.contexts.update(i, Some(Acquire::Held)));
        assert forall|j: int| t.holds(j) implies j == i by {
            assert(s.holds(j) || j == i);
        }
        assert(t.holds(i));
    } else if e is Unlock {
        assert forall|j: int| !t.holds(j) by {
            if j != i {
                assert(!s.holds(j));
            }
        }
    } else {
        assert forall|j: int| t.holds(j) == s.holds(j) by {}
        assert(t.flag == s.flag);
        if s.flag {
            let h = choose|h: int| s.holds(h);
            assert(t.holds(h));
        }
    }
}

/// The invariant holds after every run of enabled events.
pub proof fn lemma_run_inv(s: Shared, events: Seq<Event>)
    requires
        s.inv(),
        s.runs(events),
    ensures
        s.run(events).inv(),
    decreases events.len(),
{
    if events.len() > 0 {
        lemma_apply_inv(s, events[0]);
        lemma_run_inv(s.apply(events[0]), events.drop_first());
    }
}

/// Mutual exclusion: once a context holds the lock, no operation of any
/// context acquires it until the holder releases it. In particular every
/// attempt without waiting fails, and the holder still holds the lock.
pub proof fn lemma_mutual_exclusion(s: Shared, i: int, events: Seq<Event>)
    requires
        s.inv(),
        s.holds(i),
        s.runs(events),
        forall|k: int| 0 <= k < events.len() ==> events[k] != Event::Unlock(i),
    ensures
        s.none_acquires(events),
        s.run(events).holds(i),
    decreases events.len(),
{
    if events.len() > 0 {
        let e = events[0];
        assert(e != Event::Unlock(i));
        lemma_apply_inv(s, e);
        let rest = events.drop_first();
        assert forall|k: int| 0 <= k < rest.len() implies rest[k] != Event::Unlock(i) by {
            assert(rest[k] == events[k + 1]);
        }
        lemma_mutual_exclusion(s.apply(e), i, rest);
    }
}

/// Re-acquirability: once the holder releases the lock, an attempt without
/// waiting by any idle context succeeds, a context about to exchange takes
/// the lock with that exchange, and a polling context reads the flag
/// unlocked and then takes the lock with its next exchange.
pub proof fn lemma_reacquire(s: Shared, i: int, j: int)
    requires
        s.inv(),
        s.holds(i),
        s.is_context(j),
    ensures
        s.apply(Event::Unlock(i)).idle(j) ==> s.apply(Event::Unlock(i)).acquires(Event::TryLock(j)),
        s.apply(Event::Unlock(i)).contexts[j] == Some(Acquire::Exchange) ==> s.apply(
            Event::Unlock(i),
        ).acquires(Event::Step(j)),
        s.apply(Event::Unlock(i)).contexts[j] == Some(Acquire::Poll) ==> ({
            let t = s.apply(Event::Unlock(i)).apply(Event::Step(j));
            t.contexts[j] == Some(Acquire::Exchange) && t.acquires(Event::Step(j))
        }),
{
}

/// A lock attempted without waiting, released, and attempted again: on a
/// free lock an attempt by `i` succeeds, any further attempt fails while `i`
/// holds the lock and leaves everything as it was, and once `i` releases the
/// lock an attempt by `j` succeeds.
pub proof fn lemma_try_lock_cycle(s: Shared, i: int, j: int)
    requires
        s.inv(),
        !s.flag,
        s.idle(i),
        s.idle(j),
    ensures
        s.acquires(Event::TryLock(i)),
        s.apply(Event::TryLock(i)).holds(i),
        !s.apply(Event::TryLock(i)).acquires(Event::TryLock(j)),
        s.apply(Event::TryLock(i)).apply(Event::TryLock(j)) == s.apply(Event::TryLock(i)),
        s.apply(Event::TryLock(i)).apply(Event::Unlock(i)).acquires(Event::TryLock(j)),
{
}

/// Several locks, each with its own flag and contexts.
pub type Locks = Seq<Shared>;

/// An event `e` on lock `l`: the other locks stay as they were.
pub open spec fn apply_on(locks: Locks, l: int, e: Event) -> Locks {
    locks.update(l, locks[l].apply(e))
}

/// The locks after `events`, each an event on one lock, in order.
pub open spec fn run_on(locks: Locks, events: Seq<(int, Event)>) -> Locks
    decreases events.len(),
{
    if events.len() == 0 {
        locks
    } else {
        run_on(apply_on(locks, events[0].0, events[0].1), events.drop_first())
    }
}

/// Independence: events on other locks leave a lock exactly as it was, so
/// every later attempt on it has the outcome it would have had without them.
pub proof fn lemma_independent(locks: Locks, events: Seq<(int, Event)>, b: int)
    requires
        0 <= b < locks.len(),
        forall|k: int| 0 <= k < events.len() ==> #[trigger] events[k].0 != b,
        forall|k: int| 0 <= k < events.len() ==> 0 <= #[trigger] events[k].0 < locks.len(),
    ensures
        run_on(locks, events).len() == locks.len(),
        run_on(locks, events)[b] == locks[b],
    decreases events.len(),
{
    if events.len() > 0 {
        let next = apply_on(locks, events[0].0, events[0].1);
        let rest = events.drop_first();
        assert forall|k: int| 0 <= k < rest.len() implies #[trigger] rest[k].0 != b
            && 0 <= rest[k].0 < next.len() by {
            assert(rest[k] == events[k + 1]);
        }
        lemma_independent(next, rest, b);
    }
}

/// Releasing one of several held locks: the released lock can be taken
/// again at once, while every other lock keeps its holder and refuses
/// attempts.
pub proof fn lemma_release_one(locks: Locks, c: int, i: int, d: int, h: int, j: int)
    requires
        0 <= c < locks.len(),
        0 <= d < locks.len(),
        c != d,
        locks[c].inv(),
        locks[c].holds(i),
        locks[d].inv(),
        locks[d].holds(h),
    ensures
        apply_on(locks, c, Event::Unlock(i))[c].acquires(Event::TryLock(j)),
        apply_on(locks, c, Event::Unlock(i))[d].holds(h),
        !apply_on(locks, c, Event::Unlock(i))[d].acquires(Event::TryLock(j)),
{
}

} // verus!
