//! How often a refused operation tries again, and how long it waits in between.

use vstd::arithmetic::power2::pow2;
use vstd::prelude::*;

verus! {

/// `std::hint::spin_loop` tells the processor that the thread is waiting. It
/// returns nothing and changes nothing.
pub assume_specification[ std::hint::spin_loop ]();

/// What to do before the next try.
#[derive(Clone, Copy, Debug, PartialEq, Eq, Structural)]
pub struct Pause {
    /// How many times to spin.
    pub spins: u32,
    /// Whether to offer the processor to another thread after that.
    pub yields: bool,
}

/// The pause after the given number of refused tries: twice as long after each
/// of the first four, and with a yield from the third on.
pub open spec fn pause_after(refused: nat) -> Pause {
    Pause {
        spins: pow2(
            if refused < 4 {
                refused
            } else {
                4
            },
        ) as u32,
        yields: refused > 2,
    }
}

/// Counts refused tries up to a limit.
pub struct Backoff {
    refused: u8,
    limit: u8,
}

impl Backoff {
    /// How many tries were refused.
    pub closed spec fn refused(self) -> nat {
        self.refused as nat
    }

    /// How many refused tries there may be.
    pub closed spec fn limit(self) -> nat {
        self.limit as nat
    }

    /// No try was refused yet.
    pub fn new(limit: u8) -> (b: Self)
        ensures
            b.refused() == 0,
            b.limit() == limit,
    {
        Backoff { refused: 0, limit }
    }

    /// Whether there is a try left.
    pub fn may_try(&self) -> (r: bool)
        ensures
            r == (self.refused() < self.limit()),
    {
        self.refused < self.limit
    }

    /// Counts a refused try and says how to wait after it.
    pub fn refuse(&mut self) -> (p: Pause)
        requires
            old(self).refused() < old(self).limit(),
        ensures
            final(self).refused() == old(self).refused() + 1,
            final(self).limit() == old(self).limit(),
            p == pause_after(final(self).refused()),
    {
        self.refused = self.refused + 1;
        let doublings: u8 = if self.refused < 4 {
            self.refused
        } else {
            4
        };
        proof {
            vstd::arithmetic::power2::lemma2_to64();
            assert(1u32 << 1u8 == 2 && 1u32 << 2u8 == 4 && 1u32 << 3u8 == 8 && 1u32 << 4u8 == 16)
                by (bit_vector);
        }
        Pause { spins: 1u32 << doublings, yields: self.refused > 2 }
    }
}

/// Whether tries with the given outcomes, in this order, amount to `settled` where
/// `limit` tries are allowed: each try but the last was refused, and the last one
/// either settled the matter or was the last that is allowed.
pub open spec fn amounts_to<R>(outcomes: Seq<Option<R>>, limit: nat, settled: Option<R>) -> bool {
    &&& outcomes.len() <= limit
    &&& forall|i: int| 0 <= i < outcomes.len() - 1 ==> (#[trigger] outcomes[i]) is None
    &&& if outcomes.len() == 0 {
        settled is None
    } else {
        settled == outcomes.last()
    }
    &&& settled is None ==> outcomes.len() == limit
}

/// Every one of the outcomes is one that `attempt` can have.
pub open spec fn outcomes_of<R, A: Fn() -> Option<R>>(attempt: A, outcomes: Seq<Option<R>>) -> bool {
    forall|i: int| 0 <= i < outcomes.len() ==> call_ensures(attempt, (), #[trigger] outcomes[i])
}

/// Every one of the outcomes is one that `attempt` can have with the turn that it was
/// made with. Turns are taken from the end, each one once.
pub open spec fn outcomes_with<P, R, A: Fn(P) -> Option<R>>(
    attempt: A,
    turns: Seq<P>,
    outcomes: Seq<Option<R>>,
) -> bool {
    forall|i: int|
        0 <= i < outcomes.len() ==> call_ensures(
            attempt,
            (turns[turns.len() - 1 - i],),
            #[trigger] outcomes[i],
        )
}

/// Makes an attempt until one settles the matter, and no more of them than there are
/// turns: each attempt uses up a turn, and whoever cannot make turns cannot make
/// further attempts. After each that is refused it pauses, and calls `yield_now`
/// where it is time to offer the processor to another thread.
pub fn retry_by_turns<P, R, A: Fn(P) -> Option<R>, Y: Fn()>(
    turns: Vec<P>,
    attempt: A,
    yield_now: Y,
) -> (settled: Option<R>)
    requires
        turns@.len() <= u8::MAX,
        forall|i: int| 0 <= i < turns@.len() ==> call_requires(attempt, (#[trigger] turns@[i],)),
        call_requires(yield_now, ()),
    ensures
        exists|outcomes: Seq<Option<R>>| #[trigger]
            outcomes_with(attempt, turns@, outcomes) && amounts_to(
                outcomes,
                turns@.len(),
                settled,
            ),
{
    let ghost all = turns@;
    let mut backoff = Backoff::new(turns.len() as u8);
    let mut left = turns;
    let ghost mut outcomes: Seq<Option<R>> = Seq::empty();
    loop
        invariant
            all == turns@,
            all.len() <= u8::MAX,
            forall|i: int| 0 <= i < all.len() ==> call_requires(attempt, (#[trigger] all[i],)),
            call_requires(yield_now, ()),
            backoff.limit() == all.len(),
            backoff.refused() == outcomes.len(),
            outcomes.len() <= all.len(),
            left@ == all.take(all.len() - outcomes.len()),
            outcomes_with(attempt, all, outcomes),
            forall|i: int| 0 <= i < outcomes.len() ==> (#[trigger] outcomes[i]) is None,
        ensures
            outcomes.len() == all.len(),
        decreases all.len() - outcomes.len(),
    {
        match left.pop() {
            None => {
                break ;
            },
            Some(turn) => {
                assert(turn == all[all.len() - 1 - outcomes.len()]);
                let outcome = attempt(turn);
                proof {
                    outcomes = outcomes.push(outcome);
                }
                if outcome.is_some() {
                    assert(outcomes_with(attempt, all, outcomes));
                    assert(amounts_to(outcomes, all.len(), outcome));
                    return outcome;
                }
                assert(left@ =~= all.take(all.len() - outcomes.len()));
                wait(backoff.refuse(), &yield_now);
            },
        }
    }
    assert(amounts_to(outcomes, all.len(), None));
    None
}

/// The attempt can be made.
spec fn callable<R, A: Fn() -> Option<R>>(attempt: &A) -> bool {
    call_requires(*attempt, ())
}

/// The attempt can have this outcome.
spec fn gives<R, A: Fn() -> Option<R>>(attempt: &A, outcome: Option<R>) -> bool {
    call_ensures(*attempt, (), outcome)
}

/// Makes an attempt until one settles the matter, and no more than `limit` of them.
/// After each that is refused it pauses, and calls `yield_now` where it is time to
/// offer the processor to another thread.
pub fn retry<R, A: Fn() -> Option<R>, Y: Fn()>(limit: u8, attempt: A, yield_now: Y) -> (settled:
    Option<R>)
    requires
        call_requires(attempt, ()),
        call_requires(yield_now, ()),
    ensures
        exists|outcomes: Seq<Option<R>>| #[trigger]
            outcomes_of(attempt, outcomes) && amounts_to(outcomes, limit as nat, settled),
{
    let mut turns: Vec<()> = Vec::new();
    for i in 0..limit
        invariant
            turns@.len() == i,
    {
        turns.push(());
    }
    let ghost all = turns@;
    let attempt_once: &A = &attempt;
    let by_turn = |_turn: ()| -> (outcome: Option<R>)
        requires
            callable(attempt_once),
        ensures
            gives(attempt_once, outcome),
        { attempt_once() };
    let ghost tries = by_turn;
    let settled = retry_by_turns(turns, by_turn, yield_now);
    proof {
        let outcomes = choose|outcomes: Seq<Option<R>>| #[trigger]
            outcomes_with(tries, all, outcomes) && amounts_to(outcomes, all.len(), settled);
        assert(outcomes_of(attempt, outcomes));
    }
    settled
}

/// Spins, and then yields where the pause calls for it.
fn wait<Y: Fn()>(pause: Pause, yield_now: &Y)
    requires
        call_requires(*yield_now, ()),
{
    for _spin in 0..pause.spins {
        std::hint::spin_loop();
    }
    if pause.yields {
        yield_now();
    }
}

} // verus!
