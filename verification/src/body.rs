//! The shared body of an RCU cell, and every transition it can make.

use std::sync::Arc;

use vstd::prelude::*;

use crate::state::{Cleanup, RcuState};

verus! {

/// One version of the value, linked to the versions behind it.
///
/// In a body the first node holds the oldest version. Its link leads to the newest
/// one, and each further link to the next older one.
#[derive(Debug)]
pub struct Value<T> {
    current: Arc<T>,
    next: Option<Box<Value<T>>>,
}

/// The versions of a chain that runs from the newest to the oldest, oldest first.
pub closed spec fn chain_versions<T>(chain: Option<Box<Value<T>>>) -> Seq<T>
    decreases chain,
{
    match chain {
        None => Seq::empty(),
        Some(node) => chain_versions(node.next).push(*node.current),
    }
}

/// The values behind shared pointers.
pub open spec fn pointees<T>(pointers: Seq<Arc<T>>) -> Seq<T> {
    pointers.map_values(|p: Arc<T>| *p)
}

/// The state that all handles of one cell share.
#[derive(Debug)]
pub struct RcuBody<T> {
    /// Number of registered handles.
    counter: usize,
    /// Whether an update is in progress.
    updating: bool,
    /// The oldest version retained, and the versions published since.
    value: Value<T>,
}

impl<T> View for RcuBody<T> {
    type V = RcuState<T>;

    closed spec fn view(&self) -> RcuState<T> {
        RcuState {
            readers: self.counter,
            updating: self.updating,
            versions: seq![*self.value.current] + chain_versions(self.value.next),
        }
    }
}

/// Appends the versions of `chain` to `out`, newest first, and takes the chain
/// apart node by node.
fn unlink<T>(chain: Option<Box<Value<T>>>, out: &mut Vec<Arc<T>>)
    ensures
        pointees(final(out)@) == pointees(old(out)@) + chain_versions(chain).reverse(),
{
    let mut rest = chain;
    loop
        invariant
            pointees(out@) + chain_versions(rest).reverse() == pointees(old(out)@)
                + chain_versions(chain).reverse(),
        ensures
            pointees(out@) == pointees(old(out)@) + chain_versions(chain).reverse(),
        decreases rest,
    {
        let ghost before = out@;
        let ghost rest_before = rest;
        match rest {
            None => {
                assert(pointees(out@) + chain_versions(rest).reverse() =~= pointees(out@));
                break ;
            },
            Some(node) => {
                let Value { current, next } = *node;
                out.push(current);
                rest = next;
                assert(pointees(out@) =~= pointees(before).push(*current));
                assert(pointees(out@) + chain_versions(rest).reverse() =~= pointees(before)
                    + chain_versions(rest_before).reverse());
            },
        }
    }
}

impl<T> RcuBody<T> {
    /// A body with one handle and one version.
    pub fn new(v: T) -> (body: Self)
        ensures
            body@ == RcuState::initial(v),
    {
        let body = RcuBody {
            counter: 1,
            updating: false,
            value: Value { current: Arc::new(v), next: None },
        };
        assert(body@.versions =~= seq![v]);
        body
    }

    /// There is always a value to read: what holds of well-formed states holds of
    /// every body.
    pub proof fn lemma_wf(self)
        ensures
            self@.wf(),
    {
    }

    /// The version that a reader gets: the newest one published, or the first
    /// one while none was.
    pub fn read(&self) -> (v: Arc<T>)
        ensures
            *v == self@.latest(),
    {
        match &self.value.next {
            None => self.value.current.clone(),
            Some(newest) => newest.current.clone(),
        }
    }

    /// The oldest version retained: the one that the last cleanup left, or the first
    /// one.
    pub fn current(&self) -> (v: Arc<T>)
        ensures
            *v == self@.oldest(),
    {
        self.value.current.clone()
    }

    /// The versions published since the oldest one retained, newest first.
    pub fn chain(&self) -> (newer: Vec<Arc<T>>)
        ensures
            pointees(newer@) == self@.versions.skip(1).reverse(),
    {
        let mut newer: Vec<Arc<T>> = Vec::new();
        let mut rest: &Option<Box<Value<T>>> = &self.value.next;
        assert(self@.versions.skip(1) =~= chain_versions(self.value.next));
        loop
            invariant
                pointees(newer@) + chain_versions(*rest).reverse() == self@.versions.skip(
                    1,
                ).reverse(),
            ensures
                pointees(newer@) == self@.versions.skip(1).reverse(),
            decreases rest,
        {
            let ghost before = newer@;
            let ghost rest_before = *rest;
            match rest {
                None => {
                    assert(pointees(newer@) + chain_versions(*rest).reverse() =~= pointees(newer@));
                    break ;
                },
                Some(node) => {
                    newer.push(node.current.clone());
                    rest = &node.next;
                    assert(pointees(newer@) =~= pointees(before).push(*node.current));
                    assert(pointees(newer@) + chain_versions(*rest).reverse() =~= pointees(before)
                        + chain_versions(rest_before).reverse());
                },
            }
        }
        newer
    }

    /// Registers one more handle.
    pub fn join(self) -> (body: Self)
        ensures
            body@ == self@.join(),
    {
        RcuBody { counter: self.counter.wrapping_add(1), ..self }
    }

    /// Starts an update and hands out the version it starts from, which is the one
    /// that readers get. Refused, with nothing changed, while another update is in
    /// progress.
    pub fn begin_update(self) -> (r: (Self, Option<Arc<T>>))
        ensures
            self@.updating ==> r.1 is None && r.0@ == self@,
            !self@.updating ==> r.1 is Some && *r.1->0 == self@.latest() && r.0@ == self@.begin(),
    {
        if self.updating {
            (self, None)
        } else {
            let latest = self.read();
            (RcuBody { updating: true, ..self }, Some(latest))
        }
    }

    /// Ends an update. A published value becomes the newest version; the versions
    /// before it stay, behind it.
    pub fn end_update(self, published: Option<T>) -> (body: Self)
        ensures
            body@ == self@.end(published),
    {
        let mut body = self;
        if let Some(v) = published {
            let older = body.value.next.take();
            body.value.next = Some(Box::new(Value { current: Arc::new(v), next: older }));
            assert(body@.versions =~= self@.versions.push(v));
        }
        body.updating = false;
        body
    }

    /// Reclaims every version but the newest one. Refused, with nothing changed,
    /// where there is nothing to reclaim, while the number of handles is not one,
    /// and during an update.
    ///
    /// The newest version is moved, never cloned, so it is kept exactly whatever the
    /// type's `clone` does. The versions that go are handed out, newest first, so
    /// that the caller decides where they are dropped.
    pub fn try_clean(self) -> (r: (Self, Cleanup, Vec<Arc<T>>))
        ensures
            r.0@ == self@.clean(),
            r.1 == self@.cleanup(),
            pointees(r.2@) == if r.1 == Cleanup::Done {
                self@.superseded()
            } else {
                Seq::empty()
            },
    {
        let mut body = self;
        let mut retired: Vec<Arc<T>> = Vec::new();
        assert(pointees(retired@) =~= Seq::empty());
        if body.value.next.is_none() {
            return (body, Cleanup::Nothing, retired);
        }
        if body.counter != 1 {
            return (body, Cleanup::Shared, retired);
        }
        if body.updating {
            return (body, Cleanup::Busy, retired);
        }
        if let Some(newest) = body.value.next.take() {
            let Value { current: mut latest, next: older } = *newest;
            std::mem::swap(&mut body.value.current, &mut latest);
            unlink(older, &mut retired);
            let ghost newer = retired@;
            retired.push(latest);
            assert(pointees(retired@) =~= pointees(newer).push(*latest));
            assert(self@.versions =~= seq![*latest] + chain_versions(older).push(
                *body.value.current,
            ));
            assert(body@.versions =~= seq![self@.latest()]);
            assert(pointees(retired@) =~= self@.superseded());
        }
        (body, Cleanup::Done, retired)
    }

    /// Removes a handle: cleans up where that is possible, then counts one handle
    /// less. The versions that go are handed out, newest first.
    pub fn leave(self) -> (r: (Self, Vec<Arc<T>>))
        ensures
            r.0@ == self@.leave(),
            pointees(r.1@) == if self@.cleanup() == Cleanup::Done {
                self@.superseded()
            } else {
                Seq::empty()
            },
    {
        let (body, _, retired) = self.try_clean();
        (RcuBody { counter: body.counter.wrapping_sub(1), ..body }, retired)
    }

    /// Takes a body apart, node by node, and hands out its versions, newest first.
    pub fn into_versions(self) -> (versions: Vec<Arc<T>>)
        ensures
            pointees(versions@) == self@.versions.reverse(),
    {
        let mut versions: Vec<Arc<T>> = Vec::new();
        let Value { current, next } = self.value;
        unlink(next, &mut versions);
        let ghost newer = versions@;
        versions.push(current);
        assert(pointees(versions@) =~= pointees(newer).push(*current));
        assert(pointees(versions@) =~= self@.versions.reverse());
        versions
    }
}

} // verus!
