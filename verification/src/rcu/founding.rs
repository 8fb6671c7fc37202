//! How a cell is made.

use std::sync::Arc;

use vstd::prelude::*;
use vstd::rwlock::RwLock;

use crate::contents::Contents;
use crate::rcu::{created, Lineage, Rcu};

verus! {

/// Asked for to make the contents of a cell.
pub struct Founding {
    hidden: (),
}

impl<T> Rcu<T> {
    /// A cell with the given value, in which any value may be published.
    pub fn new(v: T) -> (rcu: Self)
        ensures
            rcu.lineage() == Lineage::any(v),
            created(rcu.cell(), v),
    {
        Rcu::with_invariant(v, Ghost(Lineage::any(v).admits))
    }

    /// A cell with the given value, in which only the values that meet `inv` may
    /// be published.
    pub fn with_invariant(v: T, Ghost(inv): Ghost<spec_fn(T) -> bool>) -> (rcu: Self)
        ensures
            rcu.lineage() == (Lineage { first: v, admits: inv }),
            created(rcu.cell(), v),
    {
        let ghost lineage = Lineage { first: v, admits: inv };
        proof {
            lineage.lemma_initial();
        }
        let (contents, membership) = Contents::new(v, Founding { hidden: () });
        Rcu { body: Arc::new(RwLock::new(contents, Ghost(lineage))), membership }
    }
}

} // verus!
