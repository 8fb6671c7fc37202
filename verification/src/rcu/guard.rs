//! The guard of an update, and how updates of a cell end.

use std::ops::{Deref, DerefMut};

use vstd::prelude::*;
use vstd::std_specs::cmp::PartialEqSpec;

use crate::contents::Ticket;
use crate::rcu::{ended, Lineage, SharedBody};
use crate::state::Step;

verus! {

/// Asked for to end an update, beside its ticket.
pub struct Closing {
    hidden: (),
}

/// A writer's copy of the value.
///
/// The copy is made of the newest version. The guard ends the update with
/// [`RcuGuard::drop`]; one that merely goes out of scope leaves its update in
/// progress.
#[verifier::reject_recursive_types(T)]
pub struct RcuGuard<'a, T> {
    value: T,
    body: &'a SharedBody<T>,
    ticket: Ticket<T>,
}

impl<'a, T> Deref for RcuGuard<'a, T> {
    type Target = T;

    /// The writer's copy.
    fn deref(&self) -> (v: &T)
        ensures
            *v == self.value(),
    {
        &self.value
    }
}

impl<'a, T> DerefMut for RcuGuard<'a, T> {
    /// The writer's copy, to be changed.
    fn deref_mut(&mut self) -> (v: &mut T)
        ensures
            *v == old(self).value(),
            *final(v) == final(self).value(),
            final(self).original() == old(self).original(),
            final(self).ticket() == old(self).ticket(),
            final(self).cell() == old(self).cell(),
    {
        &mut self.value
    }
}

impl<'a, T> RcuGuard<'a, T> {
    /// The writer's copy.
    pub closed spec fn value(self) -> T {
        self.value
    }

    /// What the update was granted with.
    pub closed spec fn ticket(self) -> Ticket<T> {
        self.ticket
    }

    /// The version that the copy was made of.
    pub open spec fn original(self) -> T {
        self.ticket().original()
    }

    /// The cell that is being updated.
    pub closed spec fn cell(self) -> SharedBody<T> {
        *self.body
    }

    /// What holds of the contents of the cell.
    pub open spec fn lineage(self) -> Lineage<T> {
        self.cell().pred()
    }
}

impl<'a, T: Clone> RcuGuard<'a, T> {
    /// The guard of an update that was granted, with a copy of the version that it
    /// starts from.
    pub(super) fn granted(body: &'a SharedBody<T>, ticket: Ticket<T>) -> (guard: Self)
        ensures
            guard.ticket() == ticket,
            guard.cell() == *body,
            cloned(ticket.original(), guard.value()),
    {
        let value = ticket.start().clone();
        RcuGuard { value, body, ticket }
    }
}

impl<'a, T: PartialEq> RcuGuard<'a, T> {
    /// Whether the copy differs from the version it was made of.
    pub fn is_modified(&self) -> (modified: bool)
        ensures
            call_ensures(T::ne, (&self.original(), &self.value()), modified),
            T::obeys_eq_spec() ==> modified == !self.original().eq_spec(&self.value()),
    {
        self.ticket.start().ne(&self.value)
    }

    /// What the update was granted with, and what it publishes: the copy where it differs from the version it was
    /// made of, and nothing otherwise.
    fn into_update(self) -> (r: (Ticket<T>, Option<T>))
        ensures
            r.0 == self.ticket(),
            call_ensures(T::ne, (&self.original(), &self.value()), r.1 is Some),
            r.1 matches Some(v) ==> v == self.value(),
            T::obeys_eq_spec() ==> (r.1 is Some) == !self.original().eq_spec(&self.value()),
    {
        if self.is_modified() {
            (self.ticket, Some(self.value))
        } else {
            (self.ticket, None)
        }
    }

    /// Ends the update, and tells whether it published the copy: it does where the
    /// copy differs from the version it was made of. Otherwise the cell is as it
    /// was before the update.
    pub fn drop(self) -> (published: bool)
        requires
            call_ensures(T::ne, (&self.original(), &self.value()), true) ==> (
            self.lineage().admits)(self.value()),
        ensures
            call_ensures(T::ne, (&self.original(), &self.value()), published),
            T::obeys_eq_spec() ==> published == !self.original().eq_spec(&self.value()),
            ended(
                self.cell(),
                self.ticket(),
                if published {
                    Some(self.value())
                } else {
                    None
                },
            ),
    {
        let cell = self.body;
        let (ticket, update) = self.into_update();
        let published = update.is_some();
        let (contents, lock) = cell.acquire_write();
        proof {
            cell.pred().lemma_step(contents@, Step::End(update));
        }
        let ended = contents.end(ticket, update, Closing { hidden: () });
        lock.release_write(ended);
        published
    }
}

} // verus!
