//! How handles of a cell go.

use std::sync::Arc;

use vstd::prelude::*;

use crate::rcu::{left, taken_apart, Rcu, SharedBody};
use crate::state::Step;

verus! {

/// `Arc::into_inner` consumes a pointer and hands out what it points to where no
/// other pointer to that is left. Whether one is left depends on the other
/// threads, so nothing is said about when there is a result.
#[verifier::external_body]
fn into_inner<V>(pointer: Arc<V>) -> (owned: Option<V>)
    ensures
        owned matches Some(v) ==> v == *pointer,
{
    Arc::into_inner(pointer)
}

impl<T> Rcu<T> {
    /// Where no other pointer to the cell was left, its contents were taken out and
    /// taken apart, version by version.
    pub closed spec fn taken_apart_if_last(self) -> bool {
        exists|owned: Option<SharedBody<T>>| #[trigger]
            call_ensures(into_inner::<SharedBody<T>>, (self.body,), owned) && match owned {
                Some(cell) => taken_apart(cell),
                None => true,
            }
    }

    /// Ends a handle. Old versions are reclaimed first where that is possible,
    /// which takes that no other handle is registered. With the last handle the
    /// cell itself goes.
    pub fn drop(self)
        ensures
            left(self.cell(), self.membership()),
            self.taken_apart_if_last(),
    {
        let (contents, lock) = self.body.acquire_write();
        proof {
            self.lineage().lemma_step(contents@, Step::Leave);
        }
        let (left, _retired) = contents.leave(self.membership);
        lock.release_write(left);
        if let Some(lock) = into_inner(self.body) {
            let _versions = lock.into_inner().into_versions();
        }
    }
}

} // verus!
