//! What can be seen of a cell.

use std::sync::Arc;

use vstd::prelude::*;
use vstd::rwlock::ReadHandle;

use crate::body::{pointees, RcuBody};
use crate::contents::Contents;
use crate::rcu::{looked_at, read_from, Lineage, Rcu};

verus! {

impl<T> Rcu<T> {
    /// The newest version.
    pub fn read(&self) -> (v: Arc<T>)
        ensures
            read_from(self.cell(), v),
            self.lineage().may_read(*v),
            self.lineage().may_hold(*v),
    {
        let lock = self.body.acquire_read();
        let v = lock.borrow().as_body().read();
        proof {
            self.lineage().lemma_versions(lock.view()@);
            self.lineage().lemma_may_read(lock.view()@);
        }
        let ghost held = lock;
        lock.release_read();
        assert(looked_at(self.cell(), held));
        v
    }

    /// The oldest version retained: the one that the last cleanup left, or the first
    /// one.
    pub fn current(&self) -> (v: Arc<T>)
        ensures
            exists|lock: ReadHandle<'_, Contents<T>, Lineage<T>>| #[trigger]
                looked_at(self.cell(), lock) && call_ensures(
                    RcuBody::<T>::current,
                    (&lock.view().body(),),
                    v,
                ),
            self.lineage().may_hold(*v),
    {
        let lock = self.body.acquire_read();
        let v = lock.borrow().as_body().current();
        proof {
            self.lineage().lemma_versions(lock.view()@);
        }
        let ghost held = lock;
        lock.release_read();
        assert(looked_at(self.cell(), held));
        v
    }

    /// The versions published since the oldest one retained, newest first. A cleanup
    /// leaves none.
    pub fn chain(&self) -> (newer: Vec<Arc<T>>)
        ensures
            exists|lock: ReadHandle<'_, Contents<T>, Lineage<T>>| #[trigger]
                looked_at(self.cell(), lock) && call_ensures(
                    RcuBody::<T>::chain,
                    (&lock.view().body(),),
                    newer,
                ),
            forall|i: int| 0 <= i < newer@.len() ==> (self.lineage().admits)(*#[trigger] newer@[i]),
    {
        let lock = self.body.acquire_read();
        let newer = lock.borrow().as_body().chain();
        proof {
            let state = lock.view()@;
            let above = state.versions.skip(1);
            self.lineage().lemma_versions(state);
            assert(pointees(newer@).len() == newer@.len());
            assert forall|i: int| 0 <= i < newer@.len() implies (self.lineage().admits)(
                *#[trigger] newer@[i],
            ) by {
                assert(pointees(newer@)[i] == above.reverse()[i]);
                assert(above[above.len() - 1 - i] == state.versions[above.len() - i]);
            }
        }
        let ghost held = lock;
        lock.release_read();
        assert(looked_at(self.cell(), held));
        newer
    }
}

} // verus!
