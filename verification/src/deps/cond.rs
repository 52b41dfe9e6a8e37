//! The bookkeeping of a condition variable that pairs with an arbitrary
//! lock: who is parked, how many wake-ups are owed, and which broadcast a
//! waiter has seen.

use vstd::prelude::*;

verus! {

/// The bookkeeping of a condition variable's waiters.
///
/// A waiter registers while it still holds the caller's lock, so a signal
/// racing with its wait cannot slip past it; it then leaves once it takes a
/// wake-up token issued by a signal, or once a broadcast has moved the
/// generation on.
#[derive(Debug)]
pub struct Waiters {
    parked: u64,
    tokens: u64,
    generation: u64,
}

impl Waiters {
    /// Threads registered and not yet gone.
    pub closed spec fn parked_count(&self) -> nat {
        self.parked as nat
    }

    /// Wake-up tokens issued by signals and not yet taken.
    pub closed spec fn token_count(&self) -> nat {
        self.tokens as nat
    }

    /// The broadcast generation.
    pub closed spec fn current_generation(&self) -> u64 {
        self.generation
    }

    /// Never more tokens than parked waiters to take them.
    pub closed spec fn wf(&self) -> bool {
        self.tokens <= self.parked
    }

    /// No waiter, no token.
    pub fn new() -> (w: Waiters)
        ensures
            w.wf(),
            w.parked_count() == 0,
            w.token_count() == 0,
            w.current_generation() == 0,
    {
        Waiters { parked: 0, tokens: 0, generation: 0 }
    }

    /// How many waiters are registered.
    pub fn parked(&self) -> (n: u64)
        ensures
            n == self.parked_count(),
    {
        self.parked
    }

    /// Registers a waiter and hands back the generation it waits in.
    pub fn register(&mut self) -> (generation: u64)
        requires
            old(self).wf(),
            old(self).parked_count() < u64::MAX,
        ensures
            final(self).wf(),
            generation == old(self).current_generation(),
            final(self).parked_count() == old(self).parked_count() + 1,
            final(self).token_count() == old(self).token_count(),
            final(self).current_generation() == old(self).current_generation(),
    {
        self.parked = self.parked + 1;
        self.generation
    }

    /// Whether a waiter registered in `generation` may go while `tokens`
    /// wake-ups are owed and the generation is `current`.
    pub open spec fn may_leave(tokens: nat, current: u64, generation: u64) -> bool {
        tokens > 0 || generation != current
    }

    /// Whether the waiter registered in `generation` may go: it takes a
    /// token when one is owed, or goes because a broadcast has moved the
    /// generation on; otherwise it keeps waiting and nothing changes.
    pub fn try_leave(&mut self, generation: u64) -> (leave: bool)
        requires
            old(self).wf(),
            old(self).parked_count() > 0,
        ensures
            final(self).wf(),
            final(self).current_generation() == old(self).current_generation(),
            leave == Waiters::may_leave(old(self).token_count(), old(self).current_generation(), generation),
            old(self).token_count() > 0 ==> leave && final(self).token_count() == old(self).token_count() - 1
                && final(self).parked_count() == old(self).parked_count() - 1,
            old(self).token_count() == 0 && generation != old(self).current_generation() ==> leave
                && final(self).token_count() == 0
                && final(self).parked_count() == old(self).parked_count() - 1,
            old(self).token_count() == 0 && generation == old(self).current_generation() ==> !leave
                && final(self).token_count() == 0
                && final(self).parked_count() == old(self).parked_count(),
    {
        if self.tokens > 0 {
            self.tokens = self.tokens - 1;
            self.parked = self.parked - 1;
            return true;
        }
        if self.generation != generation {
            self.parked = self.parked - 1;
            return true;
        }
        false
    }

    /// Owes one more wake-up if a parked waiter is not owed one yet, and
    /// reports whether a thread must be notified.
    pub fn signal(&mut self) -> (notify: bool)
        requires
            old(self).wf(),
        ensures
            final(self).wf(),
            final(self).parked_count() == old(self).parked_count(),
            final(self).current_generation() == old(self).current_generation(),
            notify == (old(self).parked_count() > old(self).token_count()),
            final(self).token_count() == old(self).token_count() + (if notify { 1int } else { 0int }),
    {
        if self.parked > self.tokens {
            self.tokens = self.tokens + 1;
            return true;
        }
        false
    }

    /// Releases every parked waiter by moving the generation on, and reports
    /// whether any thread must be notified.
    pub fn broadcast(&mut self) -> (notify: bool)
        requires
            old(self).wf(),
        ensures
            final(self).wf(),
            final(self).parked_count() == old(self).parked_count(),
            notify == (old(self).parked_count() > 0),
            notify ==> final(self).token_count() == 0
                && final(self).current_generation() == old(self).current_generation().wrapping_add(1),
            !notify ==> final(self).token_count() == old(self).token_count()
                && final(self).current_generation() == old(self).current_generation(),
    {
        if self.parked > 0 {
            self.generation = self.generation.wrapping_add(1);
            self.tokens = 0;
            return true;
        }
        false
    }
}


/// A waiter registered in generation `g` may leave once a broadcast has
/// passed over it: the broadcast clears the owed wake-ups and moves the
/// generation to `g + 1`, wrapping, which is never `g`.
pub proof fn law_broadcast_releases(g: u64)
    ensures
        Waiters::may_leave(0, g.wrapping_add(1), g),
{
}

} // verus!
