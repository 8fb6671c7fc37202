//! How handles of a cell are registered.

use vstd::prelude::*;

use crate::rcu::{joined, Rcu};
use crate::state::Step;

verus! {

/// Asked for to register a handle.
pub struct Joining {
    hidden: (),
}

impl<T: PartialEq> Clone for Rcu<T> {
    /// Registers one more handle of the same cell.
    fn clone(&self) -> (handle: Self)
        ensures
            handle.cell() == self.cell(),
            joined(self.cell(), handle.membership()),
    {
        let (contents, lock) = self.body.acquire_write();
        proof {
            self.lineage().lemma_step(contents@, Step::Join);
        }
        let (joined, membership) = contents.join(Joining { hidden: () });
        lock.release_write(joined);
        Rcu { body: self.body.clone(), membership }
    }
}

impl<T: PartialEq> Rcu<T> {
    /// Registers one more handle of the same cell, for a reader.
    pub fn read_lock(&self) -> (handle: Self)
        ensures
            handle.cell() == self.cell(),
            joined(self.cell(), handle.membership()),
    {
        self.clone()
    }
}

} // verus!
