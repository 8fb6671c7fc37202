//! What the shared body of an RCU cell is, as a mathematical value.
//!
//! Every executable operation on a body is specified by one transition of
//! [`RcuState`].

use vstd::prelude::*;

verus! {

/// What a request to reclaim old versions runs into.
#[derive(Clone, Copy, Debug, PartialEq, Eq, Structural)]
pub enum Cleanup {
    /// There is one version only.
    Nothing,
    /// The number of registered handles is not one.
    Shared,
    /// An update is in progress.
    Busy,
    /// The old versions go.
    Done,
}

impl Cleanup {
    /// Whether the old versions went, or nothing where it is worth asking again.
    pub open spec fn verdict(self) -> Option<bool> {
        match self {
            Cleanup::Done => Some(true),
            Cleanup::Nothing | Cleanup::Shared => Some(false),
            Cleanup::Busy => None,
        }
    }

    /// Whether the old versions went, or nothing where it is worth asking again.
    pub fn settled(self) -> (cleaned: Option<bool>)
        ensures
            cleaned == self.verdict(),
    {
        match self {
            Cleanup::Done => Some(true),
            Cleanup::Nothing | Cleanup::Shared => Some(false),
            Cleanup::Busy => None,
        }
    }
}

/// The contents of a body.
pub struct RcuState<T> {
    /// The number of registered handles.
    pub readers: usize,
    /// Whether an update is in progress.
    pub updating: bool,
    /// The retained versions, oldest first.
    pub versions: Seq<T>,
}

impl<T> RcuState<T> {
    /// There is always a value to read.
    pub open spec fn wf(self) -> bool {
        self.versions.len() > 0
    }

    /// A body as it is made: one handle, one version, no update.
    pub open spec fn initial(v: T) -> Self {
        RcuState { readers: 1, updating: false, versions: seq![v] }
    }

    /// The oldest version retained.
    pub open spec fn oldest(self) -> T {
        self.versions[0]
    }

    /// The version that a reader gets, and from which an update starts.
    pub open spec fn latest(self) -> T {
        self.versions.last()
    }

    /// One more handle is registered. The count wraps around.
    pub open spec fn join(self) -> Self {
        RcuState { readers: self.readers.wrapping_add(1), ..self }
    }

    /// An update starts; there must be none in progress.
    pub open spec fn begin(self) -> Self {
        RcuState { updating: true, ..self }
    }

    /// The update in progress ends: with a new version, or with none.
    pub open spec fn end(self, published: Option<T>) -> Self {
        RcuState {
            updating: false,
            versions: match published {
                Some(v) => self.versions.push(v),
                None => self.versions,
            },
            ..self
        }
    }

    /// What a request to reclaim old versions runs into.
    pub open spec fn cleanup(self) -> Cleanup {
        if self.versions.len() <= 1 {
            Cleanup::Nothing
        } else if self.readers != 1 {
            Cleanup::Shared
        } else if self.updating {
            Cleanup::Busy
        } else {
            Cleanup::Done
        }
    }

    /// The versions that a cleanup reclaims, newest first.
    pub open spec fn superseded(self) -> Seq<T> {
        self.versions.drop_last().reverse()
    }

    /// Old versions are reclaimed where that is possible; otherwise nothing changes.
    pub open spec fn clean(self) -> Self {
        if self.cleanup() == Cleanup::Done {
            RcuState { versions: seq![self.latest()], ..self }
        } else {
            self
        }
    }

    /// A handle goes: it cleans up where it can, and is then no longer counted.
    /// The count wraps around.
    pub open spec fn leave(self) -> Self {
        RcuState { readers: self.readers.wrapping_sub(1), ..self.clean() }
    }
}

/// One thing that can happen to a body.
pub enum Step<T> {
    /// A handle is registered.
    Join,
    /// A handle goes.
    Leave,
    /// An update is asked for.
    Begin,
    /// The update in progress ends, with or without a new version.
    End(Option<T>),
    /// A cleanup is asked for.
    Clean,
}

impl<T> RcuState<T> {
    /// The state after one step. A refused request changes nothing.
    pub open spec fn step(self, step: Step<T>) -> Self {
        match step {
            Step::Join => self.join(),
            Step::Leave => self.leave(),
            Step::Begin => if self.updating {
                self
            } else {
                self.begin()
            },
            Step::End(published) => self.end(published),
            Step::Clean => self.clean(),
        }
    }

    /// The state after a sequence of steps.
    pub open spec fn run(self, steps: Seq<Step<T>>) -> Self
        decreases steps.len(),
    {
        if steps.len() == 0 {
            self
        } else {
            self.run(steps.drop_last()).step(steps.last())
        }
    }

    /// Whether a body that was made with `first` can be in this state when every
    /// value published in it is one that `admits` accepts.
    pub open spec fn reachable(self, first: T, admits: spec_fn(T) -> bool) -> bool {
        exists|steps: Seq<Step<T>>| #[trigger]
            published_values_meet(steps, admits) && self == Self::initial(first).run(steps)
    }
}

/// The value that the steps publish last, or `otherwise` where they publish none.
pub open spec fn last_published<T>(steps: Seq<Step<T>>, otherwise: T) -> T
    decreases steps.len(),
{
    if steps.len() == 0 {
        otherwise
    } else {
        match steps.last() {
            Step::End(Some(v)) => v,
            _ => last_published(steps.drop_last(), otherwise),
        }
    }
}

/// Every value that the steps publish is one that `admits` accepts.
pub open spec fn published_values_meet<T>(steps: Seq<Step<T>>, admits: spec_fn(T) -> bool) -> bool {
    forall|i: int| 0 <= i < steps.len() ==> (#[trigger] steps[i]).publishes_only(admits)
}

impl<T> Step<T> {
    /// The step publishes no value but one that `admits` accepts.
    pub open spec fn publishes_only(self, admits: spec_fn(T) -> bool) -> bool {
        self matches Step::End(Some(v)) ==> admits(v)
    }
}

/// A body that was just made is in a reachable state.
pub proof fn lemma_initial_reachable<T>(first: T, admits: spec_fn(T) -> bool)
    ensures
        RcuState::initial(first).reachable(first, admits),
{
    let none = Seq::<Step<T>>::empty();
    assert(published_values_meet(none, admits));
    assert(RcuState::initial(first) == RcuState::initial(first).run(none));
}

/// A step that publishes nothing but an accepted value leads from a reachable
/// state to a reachable state.
pub proof fn lemma_step_reachable<T>(
    s: RcuState<T>,
    step: Step<T>,
    first: T,
    admits: spec_fn(T) -> bool,
)
    requires
        s.reachable(first, admits),
        step.publishes_only(admits),
    ensures
        s.step(step).reachable(first, admits),
{
    let steps = choose|steps: Seq<Step<T>>| #[trigger]
        published_values_meet(steps, admits) && s == RcuState::initial(first).run(steps);
    let longer = steps.push(step);
    assert(longer.drop_last() =~= steps);
    assert(published_values_meet(longer, admits));
    assert(s.step(step) == RcuState::initial(first).run(longer));
}

/// In a reachable state there is something to read, the oldest version is the first
/// value or an accepted one, and the versions after it are accepted ones.
pub proof fn lemma_reachable_versions<T>(s: RcuState<T>, first: T, admits: spec_fn(T) -> bool)
    requires
        s.reachable(first, admits),
    ensures
        s.wf(),
        s.oldest() == first || admits(s.oldest()),
        forall|i: int| 1 <= i < s.versions.len() ==> admits(#[trigger] s.versions[i]),
{
    let steps = choose|steps: Seq<Step<T>>| #[trigger]
        published_values_meet(steps, admits) && s == RcuState::initial(first).run(steps);
    lemma_run_versions(first, steps, admits);
}

proof fn lemma_run_versions<T>(first: T, steps: Seq<Step<T>>, admits: spec_fn(T) -> bool)
    requires
        published_values_meet(steps, admits),
    ensures
        ({
            let s = RcuState::initial(first).run(steps);
            &&& s.wf()
            &&& s.oldest() == first || admits(s.oldest())
            &&& forall|i: int| 1 <= i < s.versions.len() ==> admits(#[trigger] s.versions[i])
        }),
    decreases steps.len(),
{
    if steps.len() > 0 {
        let shorter = steps.drop_last();
        assert(published_values_meet(shorter, admits)) by {
            assert forall|i: int| 0 <= i < shorter.len() implies (
            #[trigger] shorter[i]).publishes_only(admits) by {
                assert(steps[i] == shorter[i]);
            }
        }
        lemma_run_versions(first, shorter, admits);
        assert(steps[steps.len() - 1] == steps.last());
    }
}

} // verus!
