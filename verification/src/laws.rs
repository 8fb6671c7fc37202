//! What holds of the library as a whole.
//!
//! The laws speak of the transitions of [`RcuState`], which are what the contracts
//! of [`RcuBody`] say its operations do, of calls of these operations and of those of
//! [`Contents`], and of [`pause_after`], which is what `Backoff` hands out.

use std::sync::Arc;

use vstd::arithmetic::div_mod::lemma_small_mod;
use vstd::arithmetic::div_mod::{lemma_fundamental_div_mod, lemma_fundamental_div_mod_converse};
use vstd::arithmetic::power2::lemma2_to64;
use vstd::prelude::*;
use vstd::rwlock::ReadHandle;
use vstd::std_specs::cmp::PartialEqSpec;

use crate::backoff::pause_after;
use crate::body::{pointees, RcuBody};
use crate::contents::{Contents, Membership, Ticket};
use crate::rcu::cleanup::Sweep;
use crate::rcu::guard::Closing;
use crate::rcu::register::Joining;
use crate::rcu::update::Intent;
use crate::rcu::{asked_cleanup, asked_cleanups, asked_update, asked_updates, ended, exchanged};
use crate::rcu::{looked_at, read_from, CleanupTry, Lineage, Rcu, SharedBody, UpdateTry};
use crate::state::{last_published, Cleanup, RcuState, Step};

verus! {

/// The step publishes a value.
pub open spec fn publishes<T>(step: Step<T>) -> bool {
    step matches Step::End(Some(_))
}

/// How many more handles the steps register than they remove.
pub open spec fn net_handles<T>(steps: Seq<Step<T>>) -> int
    decreases steps.len(),
{
    if steps.len() == 0 {
        0
    } else {
        net_handles(steps.drop_last()) + match steps.last() {
            Step::Join => 1int,
            Step::Leave => -1int,
            _ => 0int,
        }
    }
}

/// How many guards are live after the steps, where none is before them: a request
/// for an update that is not refused makes one, and the end of an update ends one.
pub open spec fn live_guards<T>(s: RcuState<T>, steps: Seq<Step<T>>) -> int
    decreases steps.len(),
{
    if steps.len() == 0 {
        0
    } else {
        let before = steps.drop_last();
        live_guards(s, before) + match steps.last() {
            Step::Begin => if s.run(before).updating {
                0int
            } else {
                1int
            },
            Step::End(_) => -1int,
            _ => 0int,
        }
    }
}

/// An update ends with a guard that is live, and a guard ends once.
pub open spec fn ends_are_of_guards<T>(s: RcuState<T>, steps: Seq<Step<T>>) -> bool {
    forall|i: int|
        0 <= i < steps.len() && (#[trigger] steps[i]) is End ==> live_guards(s, steps.take(i)) > 0
}

/// A whole update whose guard holds `v` when it goes: the copy is published where
/// it differs from the version that the update started from.
pub open spec fn update<T: PartialEq>(s: RcuState<T>, v: T) -> RcuState<T> {
    s.begin().end(
        if s.latest().eq_spec(&v) {
            None
        } else {
            Some(v)
        },
    )
}

/// The state after one update with each of the given values, in turn.
pub open spec fn update_all<T: PartialEq>(s: RcuState<T>, values: Seq<T>) -> RcuState<T>
    decreases values.len(),
{
    if values.len() == 0 {
        s
    } else {
        update(update_all(s, values.drop_last()), values.last())
    }
}

/// The state after updates and cleanups, in turn. An update applies a function to
/// its copy; a cleanup has none.
pub open spec fn work<T: PartialEq>(s: RcuState<T>, jobs: Seq<Option<spec_fn(T) -> T>>) -> RcuState<
    T,
>
    decreases jobs.len(),
{
    if jobs.len() == 0 {
        s
    } else {
        let before = work(s, jobs.drop_last());
        match jobs.last() {
            Some(f) => update(before, f(before.latest())),
            None => before.clean(),
        }
    }
}

/// The functions of the updates, applied one after the other.
pub open spec fn compose<T>(jobs: Seq<Option<spec_fn(T) -> T>>, v: T) -> T
    decreases jobs.len(),
{
    if jobs.len() == 0 {
        v
    } else {
        let before = compose(jobs.drop_last(), v);
        match jobs.last() {
            Some(f) => f(before),
            None => before,
        }
    }
}

/// The updates alone.
pub open spec fn without_cleanups<T>(jobs: Seq<Option<spec_fn(T) -> T>>) -> Seq<
    Option<spec_fn(T) -> T>,
>
    decreases jobs.len(),
{
    if jobs.len() == 0 {
        jobs
    } else {
        let before = without_cleanups(jobs.drop_last());
        match jobs.last() {
            Some(f) => before.push(Some(f)),
            None => before,
        }
    }
}

/// Whatever handles come and go, whatever updates and cleanups are asked for: a
/// read gives the value that was published last, or what it gave before where
/// none was published. There is always a value to read.
pub proof fn law_read_gives_last_published<T>(s: RcuState<T>, steps: Seq<Step<T>>)
    requires
        s.wf(),
    ensures
        s.run(steps).wf(),
        s.run(steps).latest() == last_published(steps, s.latest()),
    decreases steps.len(),
{
    if steps.len() > 0 {
        law_read_gives_last_published(s, steps.drop_last());
    }
}

/// A cell that was made with `first` and went through the given steps is read, by
/// whichever handle: the value published last comes back, or `first` where none was
/// published.
pub proof fn law_read_after_a_history<T>(
    first: T,
    steps: Seq<Step<T>>,
    body: RcuBody<T>,
    v: Arc<T>,
)
    requires
        body@ == RcuState::initial(first).run(steps),
        call_ensures(RcuBody::<T>::read, (&body,), v),
    ensures
        *v == last_published(steps, first),
{
    law_read_gives_last_published(RcuState::initial(first), steps);
}

/// Once a value is published, reads give it until another one is.
pub proof fn law_published_value_stays<T>(
    s: RcuState<T>,
    before: Seq<Step<T>>,
    v: T,
    after: Seq<Step<T>>,
)
    requires
        s.wf(),
        forall|i: int| 0 <= i < after.len() ==> !publishes(#[trigger] after[i]),
    ensures
        s.run(before.push(Step::End(Some(v))) + after).latest() == v,
    decreases after.len(),
{
    let head = before.push(Step::End(Some(v)));
    law_read_gives_last_published(s, head + after);
    if after.len() == 0 {
        assert(head + after =~= head);
    } else {
        let shorter = after.drop_last();
        assert forall|i: int| 0 <= i < shorter.len() implies !publishes(#[trigger] shorter[i]) by {
            assert(shorter[i] == after[i]);
        }
        law_published_value_stays(s, before, v, shorter);
        law_read_gives_last_published(s, head + shorter);
        assert((head + after).drop_last() =~= head + shorter);
        assert(!publishes(after[after.len() - 1]));
    }
}

/// What is read was written: it is the first value or one that some step published.
pub proof fn law_only_written_values_are_read<T>(first: T, steps: Seq<Step<T>>)
    ensures
        ({
            let v = RcuState::initial(first).run(steps).latest();
            v == first || exists|i: int|
                0 <= i < steps.len() && #[trigger] steps[i] == Step::End(Some(v))
        }),
    decreases steps.len(),
{
    law_read_gives_last_published(RcuState::initial(first), steps);
    if steps.len() > 0 {
        let shorter = steps.drop_last();
        law_only_written_values_are_read(first, shorter);
        law_read_gives_last_published(RcuState::initial(first), shorter);
        let v = last_published(shorter, first);
        if exists|i: int| 0 <= i < shorter.len() && #[trigger] shorter[i] == Step::End(Some(v)) {
            let i = choose|i: int|
                0 <= i < shorter.len() && #[trigger] shorter[i] == Step::End(Some(v));
            assert(steps[i] == shorter[i]);
        }
        assert(steps[steps.len() - 1] == steps.last());
    }
}

/// A read changes nothing, and reads with nothing in between agree.
pub proof fn law_reads_agree<T>(body: RcuBody<T>, x: Arc<T>, y: Arc<T>)
    requires
        call_ensures(RcuBody::<T>::read, (&body,), x),
        call_ensures(RcuBody::<T>::read, (&body,), y),
    ensures
        *x == *y,
{
}

/// An update in progress makes no difference to a read.
pub proof fn law_read_ignores_updates<T>(
    body: RcuBody<T>,
    begun: (RcuBody<T>, Option<Arc<T>>),
    before: Arc<T>,
    during: Arc<T>,
)
    requires
        call_ensures(RcuBody::<T>::begin_update, (body,), begun),
        call_ensures(RcuBody::<T>::read, (&body,), before),
        call_ensures(RcuBody::<T>::read, (&begun.0,), during),
    ensures
        *before == *during,
{
}

/// Handles of one cell are views of one value: what one handle looks at the other
/// one looks at too, and both read the same.
pub proof fn law_handles_agree<T>(
    a: Rcu<T>,
    b: Rcu<T>,
    lock: ReadHandle<'_, Contents<T>, Lineage<T>>,
    x: Arc<T>,
    y: Arc<T>,
)
    requires
        a.cell() == b.cell(),
        looked_at(a.cell(), lock),
        call_ensures(RcuBody::<T>::read, (&lock.view().body(),), x),
        call_ensures(RcuBody::<T>::read, (&lock.view().body(),), y),
    ensures
        looked_at(b.cell(), lock),
        read_from(a.cell(), x),
        read_from(b.cell(), y),
        *x == *y,
{
}

/// While an update is in progress no other update starts, nothing is published
/// and nothing is reclaimed: readers get what they got before it started.
pub proof fn law_one_update_at_a_time<T>(s: RcuState<T>, steps: Seq<Step<T>>)
    requires
        s.updating,
        forall|i: int| 0 <= i < steps.len() ==> !((#[trigger] steps[i]) is End),
    ensures
        s.run(steps).updating,
        s.run(steps).versions == s.versions,
    decreases steps.len(),
{
    if steps.len() > 0 {
        let shorter = steps.drop_last();
        assert forall|i: int| 0 <= i < shorter.len() implies !((#[trigger] shorter[i]) is End) by {
            assert(shorter[i] == steps[i]);
        }
        law_one_update_at_a_time(s, shorter);
        assert(!(steps[steps.len() - 1] is End));
    }
}

/// There is a single writer: when one request for an update was granted, the next
/// one that is granted comes after an update has ended, whatever happened in
/// between and whichever handles asked.
pub proof fn law_no_second_writer<T: Clone>(
    first: UpdateTry<T>,
    between: Seq<Step<T>>,
    second: UpdateTry<T>,
    intents: (Intent, Intent),
)
    requires
        call_ensures(Contents::<T>::begin, (first.0, intents.0), first.1),
        first.1.1 is Some,
        second.0@ == first.1.0@.run(between),
        call_ensures(Contents::<T>::begin, (second.0, intents.1), second.1),
        second.1.1 is Some,
    ensures
        exists|i: int| 0 <= i < between.len() && (#[trigger] between[i]) is End,
{
    if forall|i: int| 0 <= i < between.len() ==> !((#[trigger] between[i]) is End) {
        law_one_update_at_a_time(first.1.0@, between);
    }
}

/// A request for an update that is refused leaves the cell alone, try by try: the
/// update that was in progress still is, and readers, handles and versions are as
/// they were.
pub proof fn law_refused_update_changes_nothing<T: Clone>(
    cell: SharedBody<T>,
    calls: Seq<UpdateTry<T>>,
)
    requires
        asked_updates(cell, calls, None),
    ensures
        forall|i: int|
            0 <= i < calls.len() ==> (#[trigger] calls[i]).0@.updating && calls[i].1.0@
                == calls[i].0@,
{
    assert forall|i: int| 0 <= i < calls.len() implies (#[trigger] calls[i]).0@.updating
        && calls[i].1.0@ == calls[i].0@ by {
        assert(asked_update(cell, calls[i]));
    }
}

/// A request for an update that is granted found no update in progress. Its last
/// try, and no other one, changes the cell: an update is in progress from there on,
/// and nothing else is different. The guard starts from what a read gave there.
pub proof fn law_granted_update_is_the_only_one<T: Clone>(
    cell: SharedBody<T>,
    calls: Seq<UpdateTry<T>>,
    ticket: Ticket<T>,
    seen: Arc<T>,
)
    requires
        asked_updates(cell, calls, Some(ticket)),
        call_ensures(RcuBody::<T>::read, (&calls.last().0.body(),), seen),
    ensures
        forall|i: int|
            0 <= i < calls.len() - 1 ==> (#[trigger] calls[i]).0@.updating && calls[i].1.0@
                == calls[i].0@,
        !calls.last().0@.updating,
        calls.last().1.0@.updating,
        calls.last().1.0@.versions == calls.last().0@.versions,
        calls.last().1.0@.readers == calls.last().0@.readers,
        ticket.original() == *seen,
{
    assert forall|i: int| 0 <= i < calls.len() - 1 implies (#[trigger] calls[i]).0@.updating
        && calls[i].1.0@ == calls[i].0@ by {
        assert(asked_update(cell, calls[i]));
    }
    assert(asked_update(cell, calls[calls.len() - 1]));
}

/// An update in progress is ended by its guard alone: it outlasts every handle that
/// comes or goes, every cleanup and every other request for an update, and these
/// publish nothing and reclaim nothing meanwhile.
pub proof fn law_only_a_guard_ends_an_update<T: Clone>(
    contents: Contents<T>,
    joined: (Joining, (Contents<T>, Membership)),
    left: (Membership, (Contents<T>, Vec<Arc<T>>)),
    asked: (Intent, (Contents<T>, Option<Ticket<T>>)),
    cleaned: (Sweep, (Contents<T>, Cleanup, Vec<Arc<T>>)),
)
    requires
        contents@.updating,
        call_ensures(Contents::<T>::join, (contents, joined.0), joined.1),
        call_ensures(Contents::<T>::leave, (contents, left.0), left.1),
        call_ensures(Contents::<T>::begin, (contents, asked.0), asked.1),
        call_ensures(Contents::<T>::try_clean, (contents, cleaned.0), cleaned.1),
    ensures
        joined.1.0@.updating,
        left.1.0@.updating,
        asked.1.0@.updating,
        asked.1.1 is None,
        cleaned.1.0@.updating,
        cleaned.1.1 != Cleanup::Done,
        cleaned.1.2@.len() == 0,
        joined.1.0@.versions == contents@.versions,
        left.1.0@.versions == contents@.versions,
        asked.1.0@.versions == contents@.versions,
        cleaned.1.0@.versions == contents@.versions,
{
    assert(pointees(cleaned.1.2@).len() == cleaned.1.2@.len());
}

/// When a guard ends its update, no update is in progress, the handles are those
/// that were there, and a read gives what the guard published, or what it gave
/// before where the guard published nothing. The next request for an update is
/// granted, from that very value.
pub proof fn law_ended_update_is_over<T: Clone + PartialEq>(
    before: Contents<T>,
    ticket: Ticket<T>,
    published: Option<T>,
    closing: Closing,
    after: Contents<T>,
    reads: (Arc<T>, Arc<T>),
    intent: Intent,
    next: (Contents<T>, Option<Ticket<T>>),
)
    requires
        call_ensures(Contents::<T>::end, (before, ticket, published, closing), after),
        call_ensures(RcuBody::<T>::read, (&before.body(),), reads.0),
        call_ensures(RcuBody::<T>::read, (&after.body(),), reads.1),
        call_ensures(Contents::<T>::begin, (after, intent), next),
    ensures
        !after@.updating,
        after@.readers == before@.readers,
        match published {
            Some(v) => *reads.1 == v && after@.versions.drop_last() == before@.versions,
            None => *reads.1 == *reads.0 && after@.versions == before@.versions,
        },
        next.1 is Some,
        next.1->0.original() == *reads.1,
{
    before.body().lemma_wf();
    if let Some(v) = published {
        assert(after@.versions.drop_last() =~= before@.versions);
    }
}

/// An update that publishes nothing leaves no trace: the cell is as it was before
/// the request that was granted.
pub proof fn law_unchanged_update_leaves_no_trace<T: Clone + PartialEq>(
    before: Contents<T>,
    intent: Intent,
    begun: (Contents<T>, Option<Ticket<T>>),
    closing: Closing,
    after: Contents<T>,
)
    requires
        call_ensures(Contents::<T>::begin, (before, intent), begun),
        begun.1 is Some,
        call_ensures(Contents::<T>::end, (begun.0, begun.1->0, None, closing), after),
    ensures
        after@ == before@,
{
}

/// A guard that ended its update took the cell from some contents to contents with
/// no update in progress and with the same handles. Where it published its copy,
/// that is the one version added; where it did not, the versions are the same.
pub proof fn law_guard_ends_its_update<T: PartialEq>(
    cell: SharedBody<T>,
    ticket: Ticket<T>,
    published: Option<T>,
)
    requires
        ended(cell, ticket, published),
    ensures
        exists|before: Contents<T>, after: Contents<T>| #[trigger]
            exchanged(cell, before, after) && !after@.updating && after@.readers == before@.readers
                && match published {
                Some(v) => after@.versions == before@.versions.push(v),
                None => after@.versions == before@.versions,
            },
{
    let (before, closing, after) = choose|
        before: Contents<T>,
        closing: Closing,
        after: Contents<T>,
    | #[trigger]
        call_ensures(Contents::<T>::end, (before, ticket, published, closing), after) && exchanged(
            cell,
            before,
            after,
        );
    assert(exchanged(cell, before, after));
}

/// A cleanup publishes nothing: at each try a read gives after it what it gave before,
/// and handles and updates are not touched. Where versions were reclaimed, the
/// version that a read gives is the only one left, and where none were, no try
/// changed anything.
pub proof fn law_cleanup_publishes_nothing<T>(
    cell: SharedBody<T>,
    calls: Seq<CleanupTry<T>>,
    cleaned: bool,
    i: int,
    reads: (Arc<T>, Arc<T>),
)
    requires
        asked_cleanups(cell, calls, cleaned),
        0 <= i < calls.len(),
        call_ensures(RcuBody::<T>::read, (&calls[i].0.body(),), reads.0),
        call_ensures(RcuBody::<T>::read, (&calls[i].1.0.body(),), reads.1),
    ensures
        *reads.1 == *reads.0,
        calls[i].1.0@.readers == calls[i].0@.readers,
        calls[i].1.0@.updating == calls[i].0@.updating,
        !cleaned || i < calls.len() - 1 ==> calls[i].1.0@ == calls[i].0@ && calls[i].1.2@.len()
            == 0,
        cleaned && i == calls.len() - 1 ==> calls[i].1.0@.versions == seq![*reads.0]
            && calls[i].0@.versions.len() > 1 && calls[i].0@.readers == 1 && !calls[i].0@.updating,
{
    assert(asked_cleanup(cell, calls[i]));
    assert(pointees(calls[i].1.2@).len() == calls[i].1.2@.len());
    calls[i].0.body().lemma_wf();
}

/// A read gives the value that a guard published last, whatever handles came and went
/// and whatever updates and cleanups were asked for since.
pub proof fn law_read_gives_what_a_guard_published<T: PartialEq>(
    before: Contents<T>,
    ticket: Ticket<T>,
    v: T,
    closing: Closing,
    after: Contents<T>,
    since: Seq<Step<T>>,
    met: Contents<T>,
    seen: Arc<T>,
)
    requires
        call_ensures(Contents::<T>::end, (before, ticket, Some(v), closing), after),
        forall|i: int| 0 <= i < since.len() ==> !publishes(#[trigger] since[i]),
        met@ == after@.run(since),
        call_ensures(RcuBody::<T>::read, (&met.body(),), seen),
    ensures
        *seen == v,
{
    before.body().lemma_wf();
    law_read_gives_last_published(after@, since);
    lemma_none_published(since, v);
}

/// Steps that publish no value have none that was published last.
proof fn lemma_none_published<T>(steps: Seq<Step<T>>, otherwise: T)
    requires
        forall|i: int| 0 <= i < steps.len() ==> !publishes(#[trigger] steps[i]),
    ensures
        last_published(steps, otherwise) == otherwise,
    decreases steps.len(),
{
    if steps.len() > 0 {
        let shorter = steps.drop_last();
        assert forall|i: int| 0 <= i < shorter.len() implies !publishes(#[trigger] shorter[i]) by {
            assert(shorter[i] == steps[i]);
        }
        lemma_none_published(shorter, otherwise);
        assert(!publishes(steps[steps.len() - 1]));
    }
}

/// A handle that comes changes the number of handles and nothing else.
pub proof fn law_handle_comes<T>(
    before: Contents<T>,
    joining: Joining,
    r: (Contents<T>, Membership),
)
    requires
        call_ensures(Contents::<T>::join, (before, joining), r),
    ensures
        r.0@.readers == (before@.readers + 1) % (usize::MAX + 1),
        r.0@.updating == before@.updating,
        r.0@.versions == before@.versions,
{
    lemma_small_mod(before@.readers as nat, (usize::MAX + 1) as nat);
    lemma_mod_neighbours(before@.readers as int, usize::MAX + 1);
}

/// A handle that goes is one handle less. It ends no update and publishes nothing: a
/// read gives what it gave before. Versions are reclaimed by the last handle only,
/// with no update in progress, and what is then left is what a read gave.
pub proof fn law_handle_goes<T>(
    before: Contents<T>,
    membership: Membership,
    r: (Contents<T>, Vec<Arc<T>>),
    reads: (Arc<T>, Arc<T>),
)
    requires
        call_ensures(Contents::<T>::leave, (before, membership), r),
        call_ensures(RcuBody::<T>::read, (&before.body(),), reads.0),
        call_ensures(RcuBody::<T>::read, (&r.0.body(),), reads.1),
    ensures
        r.0@.readers == (before@.readers - 1) % (usize::MAX + 1),
        r.0@.updating == before@.updating,
        *reads.1 == *reads.0,
        r.0@.versions == if before@.readers == 1 && !before@.updating {
            seq![*reads.0]
        } else {
            before@.versions
        },
        r.1@.len() + r.0@.versions.len() == before@.versions.len(),
{
    before.body().lemma_wf();
    lemma_small_mod(before@.readers as nat, (usize::MAX + 1) as nat);
    lemma_mod_neighbours(before@.readers as int, usize::MAX + 1);
    assert(pointees(r.1@).len() == r.1@.len());
    if before@.versions.len() == 1 {
        assert(before@.versions =~= seq![*reads.0]);
    }
}

/// Where updates end only with the guards that they were granted to, at most one
/// guard is live at any moment, and the flag of the cell tells whether one is.
pub proof fn law_single_writer<T>(s: RcuState<T>, steps: Seq<Step<T>>)
    requires
        !s.updating,
        ends_are_of_guards(s, steps),
    ensures
        live_guards(s, steps) == if s.run(steps).updating {
            1int
        } else {
            0int
        },
    decreases steps.len(),
{
    if steps.len() > 0 {
        let shorter = steps.drop_last();
        assert forall|i: int|
            0 <= i < shorter.len() && (#[trigger] shorter[i]) is End implies live_guards(
            s,
            shorter.take(i),
        ) > 0 by {
            assert(shorter[i] == steps[i]);
            assert(shorter.take(i) =~= steps.take(i));
        }
        law_single_writer(s, shorter);
        assert(steps.take(steps.len() - 1) =~= shorter);
        assert(steps[steps.len() - 1] == steps.last());
    }
}

/// When an update has ended another one can start.
pub proof fn law_update_possible_again<T>(s: RcuState<T>, published: Option<T>)
    ensures
        !s.end(published).updating,
        s.end(published).step(Step::Begin).updating,
{
}

/// When an update has ended, readers get the value that its guard held, or the
/// value they got before where the two are equal. A changed value is added to the
/// versions before it; an update that changes nothing leaves no trace.
pub proof fn law_update_visible<T: PartialEq>(s: RcuState<T>, v: T)
    requires
        s.wf(),
        !s.updating,
    ensures
        update(s, v).latest() == v || update(s, v).latest().eq_spec(&v),
        !s.latest().eq_spec(&v) ==> update(s, v).latest() == v && update(s, v).versions
            == s.versions.push(v),
        s.latest().eq_spec(&v) ==> update(s, v) == s,
        !update(s, v).updating,
        update(s, v).readers == s.readers,
{
}

/// Each update builds on the one before, and none is lost: after any updates and
/// cleanups a read gives what the updates make, one after the other, of the value
/// that was there.
pub proof fn law_updates_build_on_each_other<T: PartialEq>(
    s: RcuState<T>,
    jobs: Seq<Option<spec_fn(T) -> T>>,
)
    requires
        s.wf(),
        !s.updating,
        forall|a: T, b: T| #[trigger] a.eq_spec(&b) ==> a == b,
    ensures
        work(s, jobs).wf(),
        !work(s, jobs).updating,
        work(s, jobs).latest() == compose(jobs, s.latest()),
    decreases jobs.len(),
{
    if jobs.len() > 0 {
        let shorter = jobs.drop_last();
        law_updates_build_on_each_other(s, shorter);
        let before = work(s, shorter);
        if let Some(f) = jobs.last() {
            law_update_visible(before, f(before.latest()));
        } else {
            law_cleanup_transparent(before);
        }
    }
}

/// Cleaning up is a matter of memory alone: with or without the cleanups, the
/// updates lead to the same value.
pub proof fn law_cleanups_do_not_influence_updates<T: PartialEq>(
    s: RcuState<T>,
    jobs: Seq<Option<spec_fn(T) -> T>>,
)
    requires
        s.wf(),
    ensures
        work(s, jobs).wf(),
        work(s, without_cleanups(jobs)).wf(),
        work(s, jobs).latest() == work(s, without_cleanups(jobs)).latest(),
    decreases jobs.len(),
{
    if jobs.len() > 0 {
        let shorter = jobs.drop_last();
        law_cleanups_do_not_influence_updates(s, shorter);
        if let Some(f) = jobs.last() {
            let before = without_cleanups(shorter);
            assert(before.push(Some(f)).drop_last() =~= before);
        }
    }
}

/// Without a cleanup in between, every update that changes the value keeps one more
/// version.
pub proof fn law_versions_accumulate<T: PartialEq>(s: RcuState<T>, values: Seq<T>)
    requires
        s.wf(),
        !s.updating,
        forall|i: int|
            0 <= i < values.len() ==> !(seq![s.latest()] + values)[i].eq_spec(&#[trigger] values[i]),
    ensures
        update_all(s, values) == (RcuState { versions: s.versions + values, ..s }),
    decreases values.len(),
{
    if values.len() == 0 {
        assert(s.versions + values =~= s.versions);
    } else {
        let shorter = values.drop_last();
        assert forall|i: int| 0 <= i < shorter.len() implies !(seq![s.latest()]
            + shorter)[i].eq_spec(&#[trigger] shorter[i]) by {
            assert(shorter[i] == values[i]);
            assert((seq![s.latest()] + shorter)[i] == (seq![s.latest()] + values)[i]);
        }
        law_versions_accumulate(s, shorter);
        let n = values.len() - 1;
        assert(!(seq![s.latest()] + values)[n].eq_spec(&values[n]));
        assert((s.versions + shorter).last() == (seq![s.latest()] + values)[n]);
        assert((s.versions + shorter).push(values.last()) =~= s.versions + values);
    }
}

/// A cleanup changes nothing that readers see, nor the number of handles, nor
/// whether an update is in progress.
pub proof fn law_cleanup_transparent<T>(s: RcuState<T>)
    requires
        s.wf(),
    ensures
        s.clean().wf(),
        s.clean().latest() == s.latest(),
        s.clean().readers == s.readers,
        s.clean().updating == s.updating,
{
}

/// A second cleanup with nothing in between changes nothing.
pub proof fn law_cleanup_idempotent<T>(s: RcuState<T>)
    ensures
        s.clean().clean() == s.clean(),
{
}

/// A cleanup that is possible leaves the newest version only. After it there is
/// nothing to reclaim.
pub proof fn law_cleanup_complete<T>(s: RcuState<T>)
    requires
        s.wf(),
        s.readers == 1,
        !s.updating,
    ensures
        s.clean().versions == seq![s.latest()],
        s.clean().cleanup() == Cleanup::Nothing,
{
    if s.versions.len() == 1 {
        assert(s.versions =~= seq![s.latest()]);
    }
}

/// Cleanups of equal contents have equal ends, whether the outcome is told, as by
/// `Rcu::try_clean_fast`, or not, as by `Rcu::clean`: both ask with such calls.
pub proof fn law_cleanup_is_determined<T>(
    a: CleanupTry<T>,
    b: CleanupTry<T>,
    sweeps: (Sweep, Sweep),
)
    requires
        a.0@ == b.0@,
        call_ensures(Contents::<T>::try_clean, (a.0, sweeps.0), a.1),
        call_ensures(Contents::<T>::try_clean, (b.0, sweeps.1), b.1),
    ensures
        a.1.0@ == b.1.0@,
        a.1.1 == b.1.1,
        pointees(a.1.2@) == pointees(b.1.2@),
{
}

/// What a cleanup reclaims and what it leaves are together, in order, what there
/// was: no version is lost, and none is both reclaimed and kept.
pub proof fn law_cleanup_loses_nothing<T>(s: RcuState<T>)
    requires
        s.wf(),
        s.cleanup() == Cleanup::Done,
    ensures
        s.superseded().reverse() + s.clean().versions == s.versions,
{
    assert(s.superseded().reverse() + s.clean().versions =~= s.versions);
}

/// Versions are only ever reclaimed by the one handle that is registered, and
/// never during an update.
pub proof fn law_cleanup_needs_sole_handle<T>(s: RcuState<T>, step: Step<T>)
    requires
        s.wf(),
        s.step(step).versions.len() < s.versions.len(),
    ensures
        s.readers == 1,
        !s.updating,
        step is Clean || step is Leave,
{
}

/// As long as two handles or more are registered, whatever else happened, a cleanup
/// reclaims nothing.
pub proof fn law_two_handles_prevent_cleanup<T>(s: RcuState<T>, steps: Seq<Step<T>>)
    requires
        2 <= s.readers + net_handles(steps) <= usize::MAX,
    ensures
        s.run(steps).cleanup() != Cleanup::Done,
        s.run(steps).cleanup() != Cleanup::Busy,
        s.run(steps).clean() == s.run(steps),
{
    law_handles_are_counted(s, steps);
    lemma_small_mod((s.readers + net_handles(steps)) as nat, (usize::MAX + 1) as nat);
}

/// A handle that goes while others are registered leaves the versions to them.
pub proof fn law_shared_cell_survives_a_handle<T>(s: RcuState<T>)
    requires
        s.readers != 1,
    ensures
        s.leave().versions == s.versions,
        s.leave().updating == s.updating,
{
}

/// The last handle reclaims every version but the newest one before it goes,
/// unless an update was left in progress.
pub proof fn law_last_handle_reclaims<T>(s: RcuState<T>)
    requires
        s.wf(),
        s.readers == 1,
        !s.updating,
    ensures
        s.leave().versions == seq![s.latest()],
        s.leave().readers == 0,
{
    law_cleanup_complete(s);
}

/// A handle that comes and goes while another one is registered leaves no trace.
pub proof fn law_join_then_leave<T>(s: RcuState<T>)
    requires
        s.readers != 0,
    ensures
        s.join().leave() == s,
{
}

/// The count of handles is the number registered less the number removed, up to
/// the wrap-around of a machine word.
pub proof fn law_handles_are_counted<T>(s: RcuState<T>, steps: Seq<Step<T>>)
    ensures
        s.run(steps).readers == (s.readers + net_handles(steps)) % (usize::MAX + 1),
    decreases steps.len(),
{
    if steps.len() == 0 {
        lemma_small_mod(s.readers as nat, (usize::MAX + 1) as nat);
    } else {
        law_handles_are_counted(s, steps.drop_last());
        lemma_mod_neighbours(s.readers + net_handles(steps.drop_last()), usize::MAX + 1);
    }
}

/// The remainders of the numbers just above and just below `x`.
proof fn lemma_mod_neighbours(x: int, m: int)
    requires
        m > 1,
    ensures
        (x + 1) % m == if x % m == m - 1 {
            0
        } else {
            x % m + 1
        },
        (x - 1) % m == if x % m == 0 {
            m - 1
        } else {
            x % m - 1
        },
{
    let q = x / m;
    let r = x % m;
    lemma_fundamental_div_mod(x, m);
    assert(m * q == q * m && (q + 1) * m == q * m + m && (q - 1) * m == q * m - m)
        by (nonlinear_arith);
    if r == m - 1 {
        lemma_fundamental_div_mod_converse(x + 1, m, q + 1, 0);
    } else {
        lemma_fundamental_div_mod_converse(x + 1, m, q, r + 1);
    }
    if r == 0 {
        lemma_fundamental_div_mod_converse(x - 1, m, q - 1, m - 1);
    } else {
        lemma_fundamental_div_mod_converse(x - 1, m, q, r - 1);
    }
}

/// Pauses never get shorter, and none is longer than sixteen spins.
pub proof fn law_pauses_grow_up_to_a_bound(refused: nat)
    ensures
        pause_after(refused).spins <= pause_after(refused + 1).spins <= 16,
        pause_after(refused).yields ==> pause_after(refused + 1).yields,
{
    lemma2_to64();
}

} // verus!
