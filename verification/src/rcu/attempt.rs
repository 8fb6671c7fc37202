//! One try of an update or of a cleanup. A try uses up what it is made with, and the
//! next one is not for it to make.

use vstd::prelude::*;

use crate::contents::Contents;
use crate::rcu::cleanup::Sweep;
use crate::rcu::update::Intent;
use crate::rcu::{asked_cleanup, asked_update, CleanupTry, Rcu, RcuGuard};
use crate::state::{Cleanup, Step};

verus! {

impl<T: Clone> Rcu<T> {
    /// Asks once for an update.
    pub(super) fn try_assign_pointer(&self, intent: Intent) -> (guard: Option<RcuGuard<'_, T>>)
        ensures
            self.one_update_try(guard),
    {
        let (contents, lock) = self.body.acquire_write();
        proof {
            self.lineage().lemma_step(contents@, Step::Begin);
            self.lineage().lemma_versions(contents@);
        }
        let (begun, ticket) = contents.begin(intent);
        lock.release_write(begun);
        assert(asked_update(self.cell(), (contents, (begun, ticket))));
        match ticket {
            None => None,
            Some(ticket) => Some(RcuGuard::granted(&self.body, ticket)),
        }
    }
}

impl<T> Rcu<T> {
    /// Asks once for a cleanup. The versions that go are dropped after the lock is
    /// released.
    pub(super) fn try_clean_once(&self, sweep: Sweep) -> (outcome: Cleanup)
        ensures
            exists|call: CleanupTry<T>| #[trigger]
                asked_cleanup(self.cell(), call) && outcome == call.1.1,
    {
        let (contents, lock) = self.body.acquire_write();
        proof {
            self.lineage().lemma_step(contents@, Step::Clean);
        }
        let (cleaned, outcome, _retired) = contents.try_clean(sweep);
        lock.release_write(cleaned);
        proof {
            let call: CleanupTry<T> = (contents, (cleaned, outcome, _retired));
            assert(call_ensures(Contents::<T>::try_clean, (call.0, sweep), call.1));
            assert(asked_cleanup(self.cell(), call));
        }
        outcome
    }
}

} // verus!
