//! The cell that threads share, and the guard of an update.
//!
//! A cell is a body, in its [`Contents`], behind a lock that is held for one
//! transition of the body at a time: never while a value is compared, copied, changed
//! or dropped, and never for as long as an update lasts. Other threads come in between
//! two transitions, so what an operation meets is known only as far as it holds at all
//! times: the contents of a cell are what some sequence of transitions makes of the
//! value that the cell was created with. The contracts here say that an operation
//! took the contents out of this cell, called the operation of [`Contents`] that they
//! name on these contents, put what it made of them back, and returned its result.
//! What the call does is stated, exactly, where the contents have it.
//!
//! An operation can change a cell in no other way than its own. What a change asks
//! for, see [`Contents`], is not at hand where another kind of operation is written.
//! And each operation asks of `T` no more than sets it apart, so that it cannot call
//! one that asks for something else: to begin an update asks that values can be
//! copied, to end one and to register a handle ask that they can be compared, and to
//! read, to clean up and to remove a handle ask for nothing.

use std::sync::Arc;

use vstd::prelude::*;
use vstd::rwlock::{ReadHandle, RwLock, RwLockPredicate, WriteHandle};

use crate::body::RcuBody;
use crate::contents::{Contents, Membership, Ticket};
use crate::laws::law_read_gives_last_published;
use crate::state::{last_published, published_values_meet, Cleanup, RcuState, Step};
use crate::state::{lemma_initial_reachable, lemma_reachable_versions, lemma_step_reachable};

use self::cleanup::Sweep;
use self::founding::Founding;
use self::guard::Closing;
use self::register::Joining;
use self::update::Intent;

pub mod attempt;
pub mod cleanup;
pub mod founding;
pub mod guard;
pub mod reading;
pub mod register;
pub mod release;
pub mod update;

pub use self::guard::RcuGuard;

verus! {

/// How many times an update is asked for before it counts as refused.
pub const UPDATE_ATTEMPTS: u8 = 7;

/// How many times a cleanup is asked for before it counts as refused.
pub const CLEANUP_ATTEMPTS: u8 = 5;

/// What holds of the contents of a cell at all times.
#[verifier::reject_recursive_types(T)]
pub struct Lineage<T> {
    /// The value that the cell was created with.
    pub first: T,
    /// The values that may be published in the cell.
    pub admits: spec_fn(T) -> bool,
}

impl<T> Lineage<T> {
    /// Any value may be published.
    pub open spec fn any(first: T) -> Self {
        Lineage { first, admits: |v: T| true }
    }

    /// Whether the cell can be in the given state.
    pub open spec fn allows(self, state: RcuState<T>) -> bool {
        state.reachable(self.first, self.admits)
    }

    /// Whether `v` can be a version: the first one, or one that was published.
    pub open spec fn may_hold(self, v: T) -> bool {
        v == self.first || (self.admits)(v)
    }

    /// Whether `v` is what a read can give after some history of the cell: the value
    /// published last in it, or the first one where none was published.
    pub open spec fn may_read(self, v: T) -> bool {
        exists|steps: Seq<Step<T>>| #[trigger]
            published_values_meet(steps, self.admits) && v == last_published(steps, self.first)
    }

    /// In every state that the cell can be in, the newest version is what a read can
    /// give.
    pub proof fn lemma_may_read(self, state: RcuState<T>)
        requires
            self.allows(state),
        ensures
            self.may_read(state.latest()),
    {
        let steps = choose|steps: Seq<Step<T>>| #[trigger]
            published_values_meet(steps, self.admits) && state == RcuState::initial(self.first).run(
                steps,
            );
        law_read_gives_last_published(RcuState::initial(self.first), steps);
    }

    /// A cell that was just made is in a state that it can be in.
    pub proof fn lemma_initial(self)
        ensures
            self.allows(RcuState::initial(self.first)),
    {
        lemma_initial_reachable(self.first, self.admits);
    }

    /// A step that publishes nothing but an admitted value leads from a state that
    /// the cell can be in to one that it can be in.
    pub proof fn lemma_step(self, state: RcuState<T>, step: Step<T>)
        requires
            self.allows(state),
            step.publishes_only(self.admits),
        ensures
            self.allows(state.step(step)),
    {
        lemma_step_reachable(state, step, self.first, self.admits);
    }

    /// In every state that the cell can be in there is a value to read, the oldest
    /// version is the first one or one that was published, and the versions after it
    /// were published.
    pub proof fn lemma_versions(self, state: RcuState<T>)
        requires
            self.allows(state),
        ensures
            state.wf(),
            forall|i: int|
                1 <= i < state.versions.len() ==> (self.admits)(#[trigger] state.versions[i]),
            self.may_hold(state.oldest()),
            self.may_hold(state.latest()),
    {
        lemma_reachable_versions(state, self.first, self.admits);
    }
}

impl<T> RwLockPredicate<Contents<T>> for Lineage<T> {
    open spec fn inv(self, contents: Contents<T>) -> bool {
        self.allows(contents@)
    }
}

/// The contents of a cell behind their lock. As a mathematical value it stands for
/// the place, not for the contents: two equal ones are one and the same cell.
pub type SharedBody<T> = RwLock<Contents<T>, Lineage<T>>;

/// A call of [`Contents::begin`]: what it was made on, and what it returned.
pub type UpdateTry<T> = (Contents<T>, (Contents<T>, Option<Ticket<T>>));

/// A call of [`Contents::try_clean`]: what it was made on, and what it returned.
pub type CleanupTry<T> = (Contents<T>, (Contents<T>, Cleanup, Vec<Arc<T>>));

/// The contents `before` were taken out of the cell, and `after` was put back, under
/// one hold of its lock.
pub open spec fn exchanged<T>(
    cell: SharedBody<T>,
    before: Contents<T>,
    after: Contents<T>,
) -> bool {
    &&& cell.inv(before)
    &&& cell.inv(after)
    &&& exists|lock: WriteHandle<'_, Contents<T>, Lineage<T>>| #[trigger]
        call_ensures(SharedBody::<T>::acquire_write, (&cell,), (before, lock)) && call_ensures(
            WriteHandle::<'_, Contents<T>, Lineage<T>>::release_write,
            (lock, after),
            (),
        )
}

/// The contents of the cell were looked at under one hold of its lock, with other
/// readers, and left there.
pub open spec fn looked_at<T>(
    cell: SharedBody<T>,
    lock: ReadHandle<'_, Contents<T>, Lineage<T>>,
) -> bool {
    &&& call_ensures(SharedBody::<T>::acquire_read, (&cell,), lock)
    &&& call_ensures(ReadHandle::<'_, Contents<T>, Lineage<T>>::release_read, (lock,), ())
}

/// The cell was made of what [`Contents::new`] makes of `v`.
pub open spec fn created<T>(cell: SharedBody<T>, v: T) -> bool {
    exists|founding: Founding, r: (Contents<T>, Membership)| #[trigger]
        call_ensures(Contents::<T>::new, (v, founding), r) && call_ensures(
            SharedBody::<T>::new,
            (r.0, Ghost(cell.pred())),
            cell,
        )
}

/// The contents of the cell were taken out for good and taken apart.
pub open spec fn taken_apart<T>(cell: SharedBody<T>) -> bool {
    exists|contents: Contents<T>, versions: Vec<Arc<T>>| #[trigger]
        call_ensures(SharedBody::<T>::into_inner, (cell,), contents) && #[trigger] call_ensures(
            Contents::<T>::into_versions,
            (contents,),
            versions,
        )
}

/// The newest version in the cell was read.
pub open spec fn read_from<T>(cell: SharedBody<T>, v: Arc<T>) -> bool {
    exists|lock: ReadHandle<'_, Contents<T>, Lineage<T>>| #[trigger]
        looked_at(cell, lock) && call_ensures(RcuBody::<T>::read, (&lock.view().body(),), v)
}

/// A handle was registered in the cell, with the given membership.
pub open spec fn joined<T>(cell: SharedBody<T>, membership: Membership) -> bool {
    exists|before: Contents<T>, joining: Joining, after: Contents<T>| #[trigger]
        call_ensures(Contents::<T>::join, (before, joining), (after, membership)) && exchanged(
            cell,
            before,
            after,
        )
}

/// The handle that had the membership was removed from the cell.
pub open spec fn left<T>(cell: SharedBody<T>, membership: Membership) -> bool {
    exists|before: Contents<T>, r: (Contents<T>, Vec<Arc<T>>)| #[trigger]
        call_ensures(Contents::<T>::leave, (before, membership), r) && exchanged(cell, before, r.0)
}

/// The update of the cell that the ticket was granted for was ended, with the given
/// value or with none.
pub open spec fn ended<T: PartialEq>(
    cell: SharedBody<T>,
    ticket: Ticket<T>,
    published: Option<T>,
) -> bool {
    exists|before: Contents<T>, closing: Closing, after: Contents<T>| #[trigger]
        call_ensures(Contents::<T>::end, (before, ticket, published, closing), after) && exchanged(
            cell,
            before,
            after,
        )
}

/// An update of the cell was asked for.
pub open spec fn asked_update<T: Clone>(
    cell: SharedBody<T>,
    call: UpdateTry<T>,
) -> bool {
    &&& exists|intent: Intent| #[trigger]
        call_ensures(Contents::<T>::begin, (call.0, intent), call.1)
    &&& exchanged(cell, call.0, call.1.0)
}

/// A cleanup of the cell was asked for.
pub open spec fn asked_cleanup<T>(cell: SharedBody<T>, call: CleanupTry<T>) -> bool {
    &&& exists|sweep: Sweep| #[trigger]
        call_ensures(Contents::<T>::try_clean, (call.0, sweep), call.1)
    &&& exchanged(cell, call.0, call.1.0)
}

/// An update of the cell was asked for, call by call, until one call let it in, with
/// a ticket, or until no try was left.
pub open spec fn asked_updates<T: Clone>(
    cell: SharedBody<T>,
    calls: Seq<UpdateTry<T>>,
    ticket: Option<Ticket<T>>,
) -> bool {
    &&& 0 < calls.len() <= UPDATE_ATTEMPTS
    &&& forall|i: int| 0 <= i < calls.len() ==> asked_update(cell, #[trigger] calls[i])
    &&& forall|i: int| 0 <= i < calls.len() - 1 ==> (#[trigger] calls[i]).1.1 is None
    &&& calls.last().1.1 == ticket
    &&& ticket is None ==> calls.len() == UPDATE_ATTEMPTS
}

/// A cleanup of the cell was asked for, call by call, until one call was not refused
/// on account of an update, or until no try was left. Versions were reclaimed if
/// `cleaned`.
pub open spec fn asked_cleanups<T>(
    cell: SharedBody<T>,
    calls: Seq<CleanupTry<T>>,
    cleaned: bool,
) -> bool {
    &&& 0 < calls.len() <= CLEANUP_ATTEMPTS
    &&& forall|i: int| 0 <= i < calls.len() ==> asked_cleanup(cell, #[trigger] calls[i])
    &&& forall|i: int| 0 <= i < calls.len() - 1 ==> (#[trigger] calls[i]).1.1 == Cleanup::Busy
    &&& calls.last().1.1 == Cleanup::Busy ==> calls.len() == CLEANUP_ATTEMPTS
    &&& cleaned == (calls.last().1.1 == Cleanup::Done)
}

/// A handle of a cell that many readers and one writer at a time can use.
///
/// Readers get the newest version that was complete when they asked and keep it
/// for as long as they like; they wait for no update. A writer works on a copy,
/// which becomes the newest version when its guard goes. The versions before it
/// are retained until a cleanup.
///
/// Cloning a handle registers one more handle of the same cell, and a cleanup is
/// only possible while one handle is registered. A handle ends with
/// [`Rcu::drop`]. One that merely goes out of scope stays registered, so that old
/// versions are never reclaimed again, and the value of the cell is never dropped.
#[verifier::reject_recursive_types(T)]
pub struct Rcu<T> {
    body: Arc<SharedBody<T>>,
    membership: Membership,
}

impl<T> Rcu<T> {
    /// The cell that this is a handle of.
    pub closed spec fn cell(self) -> SharedBody<T> {
        *self.body
    }

    /// What this handle was registered with.
    pub closed spec fn membership(self) -> Membership {
        self.membership
    }

    /// What holds of the contents of the cell.
    pub open spec fn lineage(self) -> Lineage<T> {
        self.cell().pred()
    }
}

} // verus!
