//! What the lock of a cell guards: a body, and what it takes to change it.
//!
//! A body in a cell can be changed by the operations here alone, and each of them
//! asks for something that only those have who may call it. An update is ended with
//! the [`Ticket`] that it was granted with, and a handle is removed with the
//! [`Membership`] that it was registered with: neither can be made or copied, and
//! both are used up. Every other change asks for a value that one module alone can
//! make.

use std::sync::Arc;

use vstd::prelude::*;

use crate::body::{pointees, RcuBody};
use crate::rcu::cleanup::Sweep;
use crate::rcu::founding::Founding;
use crate::rcu::guard::Closing;
use crate::rcu::register::Joining;
use crate::rcu::update::Intent;
use crate::state::{Cleanup, RcuState};

verus! {

/// Shows that a handle is registered. It is used up when the handle is removed.
pub struct Membership {
    hidden: (),
}

/// Shows that an update was granted, and keeps the version that it starts from. It
/// is used up when the update ends.
pub struct Ticket<T> {
    original: Arc<T>,
}

impl<T> Ticket<T> {
    /// The pointer that the update was granted with.
    pub closed spec fn pointer(self) -> Arc<T> {
        self.original
    }

    /// The version that the update starts from.
    pub open spec fn original(self) -> T {
        *self.pointer()
    }

    /// The version that the update starts from.
    pub fn start(&self) -> (v: &T)
        ensures
            *v == self.original(),
    {
        &self.original
    }
}

/// The contents of a cell.
pub struct Contents<T> {
    body: RcuBody<T>,
}

impl<T> View for Contents<T> {
    type V = RcuState<T>;

    open spec fn view(&self) -> RcuState<T> {
        self.body()@
    }
}

impl<T> Contents<T> {
    /// The body.
    pub closed spec fn body(self) -> RcuBody<T> {
        self.body
    }

    /// The contents of a new cell, with its first handle registered.
    pub fn new(v: T, _founding: Founding) -> (r: (Self, Membership))
        ensures
            call_ensures(RcuBody::<T>::new, (v,), r.0.body()),
            r.0@ == RcuState::initial(v),
    {
        (Contents { body: RcuBody::new(v) }, Membership { hidden: () })
    }

    /// The body, to look at.
    pub fn as_body(&self) -> (body: &RcuBody<T>)
        ensures
            *body == self.body(),
    {
        &self.body
    }

    /// Registers one more handle.
    pub fn join(self, _joining: Joining) -> (r: (Self, Membership))
        ensures
            call_ensures(RcuBody::<T>::join, (self.body(),), r.0.body()),
            r.0@ == self@.join(),
    {
        (Contents { body: self.body.join() }, Membership { hidden: () })
    }

    /// Removes a handle. The versions that go are handed out.
    pub fn leave(self, _membership: Membership) -> (r: (Self, Vec<Arc<T>>))
        ensures
            call_ensures(RcuBody::<T>::leave, (self.body(),), (r.0.body(), r.1)),
            r.0@ == self@.leave(),
    {
        let (body, retired) = self.body.leave();
        (Contents { body }, retired)
    }

    /// Reclaims old versions where that is possible. The versions that go are handed
    /// out.
    pub fn try_clean(self, _sweep: Sweep) -> (r: (Self, Cleanup, Vec<Arc<T>>))
        ensures
            call_ensures(RcuBody::<T>::try_clean, (self.body(),), (r.0.body(), r.1, r.2)),
            r.0@ == self@.clean(),
            r.1 == self@.cleanup(),
            pointees(r.2@) == if r.1 == Cleanup::Done {
                self@.superseded()
            } else {
                Seq::empty()
            },
    {
        let (body, outcome, retired) = self.body.try_clean();
        (Contents { body }, outcome, retired)
    }

    /// Takes the contents of a cell that is gone apart.
    pub fn into_versions(self) -> (versions: Vec<Arc<T>>)
        ensures
            call_ensures(RcuBody::<T>::into_versions, (self.body(),), versions),
            pointees(versions@) == self@.versions.reverse(),
    {
        self.body.into_versions()
    }
}

impl<T: Clone> Contents<T> {
    /// Starts an update. Refused, with nothing changed, while another one is in
    /// progress.
    pub fn begin(self, _intent: Intent) -> (r: (Self, Option<Ticket<T>>))
        ensures
            call_ensures(
                RcuBody::<T>::begin_update,
                (self.body(),),
                (
                    r.0.body(),
                    match r.1 {
                        Some(ticket) => Some(ticket.pointer()),
                        None => None,
                    },
                ),
            ),
            self@.updating ==> r.1 is None && r.0@ == self@,
            !self@.updating ==> r.1 is Some && r.1->0.original() == self@.latest() && r.0@
                == self@.begin(),
    {
        let (body, base) = self.body.begin_update();
        match base {
            None => (Contents { body }, None),
            Some(original) => (Contents { body }, Some(Ticket { original })),
        }
    }
}

impl<T: PartialEq> Contents<T> {
    /// Ends the update that the ticket was granted for.
    pub fn end(self, _ticket: Ticket<T>, published: Option<T>, _closing: Closing) -> (after: Self)
        ensures
            call_ensures(RcuBody::<T>::end_update, (self.body(), published), after.body()),
            after@ == self@.end(published),
    {
        Contents { body: self.body.end_update(published) }
    }
}

} // verus!
