//! How updates of a cell begin.

use vstd::prelude::*;

use crate::backoff::{amounts_to, outcomes_with, retry_by_turns};
use crate::error::RcuError;
use crate::rcu::{asked_update, asked_updates, Rcu, RcuGuard, UpdateTry, UPDATE_ATTEMPTS};

verus! {

/// Asked for to begin an update.
pub struct Intent {
    hidden: (),
}

/// What it takes to ask for an update as often as is allowed.
fn intents() -> (intents: Vec<Intent>)
    ensures
        intents@.len() == UPDATE_ATTEMPTS,
{
    let mut intents: Vec<Intent> = Vec::new();
    for i in 0..UPDATE_ATTEMPTS
        invariant
            intents@.len() == i,
    {
        intents.push(Intent { hidden: () });
    }
    intents
}

impl<T: Clone> Rcu<T> {
    /// Whether `guard` is as an update of this cell starts: it holds a copy of a
    /// version of the cell.
    pub open spec fn starts(self, guard: RcuGuard<'_, T>) -> bool {
        &&& guard.cell() == self.cell()
        &&& self.lineage().may_hold(guard.original())
        &&& cloned(guard.original(), guard.value())
    }

    /// Whether one try can have this outcome: a call of `Contents::begin` on what the
    /// cell held gave it.
    pub open spec fn one_update_try(self, guard: Option<RcuGuard<'_, T>>) -> bool {
        exists|call: UpdateTry<T>| #[trigger]
            asked_update(self.cell(), call) && match guard {
                Some(g) => call.1.1 == Some(g.ticket()) && self.starts(g),
                None => call.1.1 is None,
            }
    }

    /// Whether asking for an update, as often as is allowed, can come to this result.
    pub open spec fn update_result(self, guard: Result<RcuGuard<'_, T>, RcuError>) -> bool {
        match guard {
            Ok(g) => self.starts(g) && exists|calls: Seq<UpdateTry<T>>| #[trigger]
                asked_updates(self.cell(), calls, Some(g.ticket())),
            Err(RcuError::AlreadyUpdating) => exists|calls: Seq<UpdateTry<T>>| #[trigger]
                asked_updates(self.cell(), calls, None),
        }
    }

    /// Tries of an update that amount to `settled` come to that result.
    proof fn lemma_update_tries(
        self,
        outcomes: Seq<Option<RcuGuard<'_, T>>>,
        settled: Option<RcuGuard<'_, T>>,
    )
        requires
            forall|i: int|
                0 <= i < outcomes.len() ==> self.one_update_try(#[trigger] outcomes[i]),
            amounts_to(outcomes, UPDATE_ATTEMPTS as nat, settled),
        ensures
            self.update_result(
                match settled {
                    Some(g) => Ok(g),
                    None => Err(RcuError::AlreadyUpdating),
                },
            ),
    {
        let calls = Seq::new(
            outcomes.len(),
            |i: int|
                choose|call: UpdateTry<T>| #[trigger]
                    asked_update(self.cell(), call) && match outcomes[i] {
                        Some(g) => call.1.1 == Some(g.ticket()) && self.starts(g),
                        None => call.1.1 is None,
                    },
        );
        assert forall|i: int| 0 <= i < calls.len() implies asked_update(
            self.cell(),
            #[trigger] calls[i],
        ) && match outcomes[i] {
            Some(g) => calls[i].1.1 == Some(g.ticket()) && self.starts(g),
            None => calls[i].1.1 is None,
        } by {
            assert(self.one_update_try(outcomes[i]));
        }
        assert(asked_updates(
            self.cell(),
            calls,
            match settled {
                Some(g) => Some(g.ticket()),
                None => None,
            },
        ));
    }

    /// Begins an update.
    ///
    /// # Errors
    ///
    /// [`RcuError::AlreadyUpdating`] where another update was in progress each
    /// time that this one was asked for.
    pub fn assign_pointer(&self) -> (guard: Result<RcuGuard<'_, T>, RcuError>)
        ensures
            self.update_result(guard),
    {
        self.assign_pointer_with(|| { std::hint::spin_loop(); })
    }

    /// Begins an update as [`Rcu::assign_pointer`] does, and calls `yield_now`
    /// where it is time to offer the processor to another thread.
    pub fn assign_pointer_with<Y: Fn()>(&self, yield_now: Y) -> (guard: Result<
        RcuGuard<'_, T>,
        RcuError,
    >)
        requires
            call_requires(yield_now, ()),
        ensures
            self.update_result(guard),
    {
        let attempt = |intent: Intent| -> (guard: Option<RcuGuard<'_, T>>)
            ensures
                self.one_update_try(guard),
            { self.try_assign_pointer(intent) };
        let ghost tries = attempt;
        let turns = intents();
        let ghost all = turns@;
        let settled = retry_by_turns(turns, attempt, yield_now);
        proof {
            let outcomes = choose|outcomes: Seq<Option<RcuGuard<'_, T>>>| #[trigger]
                outcomes_with(tries, all, outcomes) && amounts_to(
                    outcomes,
                    UPDATE_ATTEMPTS as nat,
                    settled,
                );
            self.lemma_update_tries(outcomes, settled);
        }
        match settled {
            Some(guard) => Ok(guard),
            None => Err(RcuError::AlreadyUpdating),
        }
    }
}

} // verus!
