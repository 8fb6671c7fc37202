//! How the old versions of a cell are reclaimed.

use vstd::prelude::*;

use crate::backoff::{amounts_to, outcomes_with, retry_by_turns};
use crate::rcu::{asked_cleanup, asked_cleanups, CleanupTry, Rcu, CLEANUP_ATTEMPTS};

verus! {

/// Asked for to reclaim old versions.
pub struct Sweep {
    hidden: (),
}

/// What it takes to ask for a cleanup as often as is allowed.
fn sweeps() -> (sweeps: Vec<Sweep>)
    ensures
        sweeps@.len() == CLEANUP_ATTEMPTS,
{
    let mut sweeps: Vec<Sweep> = Vec::new();
    for i in 0..CLEANUP_ATTEMPTS
        invariant
            sweeps@.len() == i,
    {
        sweeps.push(Sweep { hidden: () });
    }
    sweeps
}

impl<T> Rcu<T> {
    /// Whether one try can settle a cleanup in this way, or leave it unsettled: a call
    /// of `Contents::try_clean` on what the cell held did.
    pub open spec fn one_cleanup_try(self, settled: Option<bool>) -> bool {
        exists|call: CleanupTry<T>| #[trigger]
            asked_cleanup(self.cell(), call) && settled == call.1.1.verdict()
    }

    /// Whether asking for a cleanup, as often as is allowed, can come to this result.
    pub open spec fn cleanup_result(self, cleaned: bool) -> bool {
        exists|calls: Seq<CleanupTry<T>>| #[trigger] asked_cleanups(self.cell(), calls, cleaned)
    }

    /// Tries of a cleanup that amount to `settled` come to that result.
    proof fn lemma_cleanup_tries(self, outcomes: Seq<Option<bool>>, settled: Option<bool>)
        requires
            forall|i: int|
                0 <= i < outcomes.len() ==> self.one_cleanup_try(#[trigger] outcomes[i]),
            amounts_to(outcomes, CLEANUP_ATTEMPTS as nat, settled),
        ensures
            self.cleanup_result(settled == Some(true)),
    {
        let calls = Seq::new(
            outcomes.len(),
            |i: int|
                choose|call: CleanupTry<T>| #[trigger]
                    asked_cleanup(self.cell(), call) && outcomes[i] == call.1.1.verdict(),
        );
        assert forall|i: int| 0 <= i < calls.len() implies asked_cleanup(
            self.cell(),
            #[trigger] calls[i],
        ) && outcomes[i] == calls[i].1.1.verdict() by {
            assert(self.one_cleanup_try(outcomes[i]));
        }
        assert(asked_cleanups(self.cell(), calls, settled == Some(true)));
    }

    /// Reclaims old versions where that is possible.
    ///
    /// Handles that live long must call this, or [`Rcu::try_clean_fast`], from
    /// time to time: every version is retained until then.
    pub fn clean(&mut self)
        ensures
            exists|cleaned: bool| old(self).cleanup_result(cleaned),
            final(self).cell() == old(self).cell(),
            final(self).membership() == old(self).membership(),
    {
        self.try_clean_fast();
    }

    /// Reclaims every version but the newest one, and tells whether it did.
    ///
    /// Nothing is reclaimed where there is one version only, or where another
    /// handle is registered, or where an update was in progress each time that
    /// the cleanup was asked for.
    pub fn try_clean_fast(&mut self) -> (cleaned: bool)
        ensures
            old(self).cleanup_result(cleaned),
            final(self).cell() == old(self).cell(),
            final(self).membership() == old(self).membership(),
    {
        self.try_clean_fast_with(|| { std::hint::spin_loop(); })
    }

    /// Cleans up as [`Rcu::try_clean_fast`] does, and calls `yield_now` where it is
    /// time to offer the processor to another thread.
    pub fn try_clean_fast_with<Y: Fn()>(&mut self, yield_now: Y) -> (cleaned: bool)
        requires
            call_requires(yield_now, ()),
        ensures
            old(self).cleanup_result(cleaned),
            final(self).cell() == old(self).cell(),
            final(self).membership() == old(self).membership(),
    {
        let handle: &Self = self;
        let attempt = |sweep: Sweep| -> (cleaned: Option<bool>)
            ensures
                handle.one_cleanup_try(cleaned),
            { handle.try_clean_once(sweep).settled() };
        let ghost tries = attempt;
        let turns = sweeps();
        let ghost all = turns@;
        let settled = retry_by_turns(turns, attempt, yield_now);
        proof {
            let outcomes = choose|outcomes: Seq<Option<bool>>| #[trigger]
                outcomes_with(tries, all, outcomes) && amounts_to(
                    outcomes,
                    CLEANUP_ATTEMPTS as nat,
                    settled,
                );
            handle.lemma_cleanup_tries(outcomes, settled);
        }
        match settled {
            Some(cleaned) => cleaned,
            None => false,
        }
    }
}

} // verus!
