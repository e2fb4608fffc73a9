//! A fixed set of sliding windows fed from one stream of samples.
//!
//! The registry is plain data: [`Registry::push_all`] needs it exclusively
//! and [`Registry::snapshot`] reads it whole, so every snapshot shows all
//! windows after the same pushes. A producer and a consumer that run at the
//! same time share it through [`crate::shared::SharedRegistry`].

use crate::time_window::TimeWindow;
use crate::window_model::expired;
use crate::window_model::in_capture_order;
use crate::window_model::lemma_max_reflects_recent_only;
use crate::window_model::AmplitudeSample;
use crate::window_model::WindowView;
use vstd::prelude::*;

verus! {

/// What a registry is, seen from outside: the retention span of each of
/// its windows, in the order given at construction, and every sample
/// pushed so far.
#[verifier::ext_equal]
pub struct RegistryView {
    pub retentions: Seq<u64>,
    pub history: Seq<AmplitudeSample>,
}

impl RegistryView {
    /// The window at place `i`: all of the history, pushed into a window of
    /// that place's retention.
    pub open spec fn window(self, i: int) -> WindowView {
        WindowView::replay(self.retentions[i], self.history)
    }

    /// The registry after `sample` was pushed into every window.
    pub open spec fn push_all(self, sample: AmplitudeSample) -> RegistryView {
        RegistryView { retentions: self.retentions, history: self.history.push(sample) }
    }

    /// For each window, its retention span and the level it reports.
    pub open spec fn snapshot(self) -> Seq<(u64, i32)> {
        Seq::new(self.retentions.len(), |i: int| (self.retentions[i], self.window(i).max()))
    }
}

/// Sliding windows of several retention spans over one stream.
pub struct Registry {
    windows: Vec<TimeWindow>,
    history: Ghost<Seq<AmplitudeSample>>,
}

impl View for Registry {
    type V = RegistryView;

    closed spec fn view(&self) -> RegistryView {
        RegistryView {
            retentions: Seq::new(self.windows@.len(), |i: int| self.windows@[i]@.retention),
            history: self.history@,
        }
    }
}

impl Registry {
    /// Every window is well formed and has seen the whole history, no more
    /// and no less. This holds of every registry that [`Registry::new`]
    /// made, whatever was pushed since.
    pub closed spec fn wf(&self) -> bool {
        forall|i: int|
            0 <= i < self.windows@.len() ==> (#[trigger] self.windows@[i]).wf() && self.windows@[i]@
                == WindowView::replay(self.windows@[i]@.retention, self.history@)
    }

    /// A registry with one empty window for each retention span, in the
    /// order given.
    pub fn new(retentions: &[u64]) -> (registry: Self)
        ensures
            registry.wf(),
            registry@.retentions == retentions@,
            registry@.history == Seq::<AmplitudeSample>::empty(),
    {
        let mut windows: Vec<TimeWindow> = Vec::new();
        let mut i: usize = 0;
        while i < retentions.len()
            invariant
                i <= retentions.len(),
                windows@.len() == i,
                forall|j: int|
                    0 <= j < i ==> (#[trigger] windows@[j]).wf() && windows@[j]@ == WindowView::empty(
                        retentions@[j],
                    ),
            decreases retentions.len() - i,
        {
            windows.push(TimeWindow::new(retentions[i]));
            i += 1;
        }
        let registry = Registry { windows, history: Ghost(Seq::empty()) };
        assert(registry@.retentions =~= retentions@);
        registry
    }

    /// The number of windows.
    pub fn len(&self) -> (len: usize)
        ensures
            len == self@.retentions.len(),
    {
        self.windows.len()
    }

    /// Pushes one sample into every window.
    pub fn push_all(&mut self, time: u64, value: i32)
        requires
            old(self).wf(),
        ensures
            final(self).wf(),
            final(self)@ == old(self)@.push_all((AmplitudeSample { time, db: value })),
    {
        let ghost sample = AmplitudeSample { time, db: value };
        let ghost before = self.history@;
        let ghost after = before.push(sample);
        let ghost retentions = self@.retentions;
        assert(after.drop_last() =~= before);
        let mut i: usize = 0;
        while i < self.windows.len()
            invariant
                i <= self.windows@.len(),
                self.history@ == before,
                sample == (AmplitudeSample { time, db: value }),
                after == before.push(sample),
                after.drop_last() == before,
                self.windows@.len() == retentions.len(),
                forall|j: int|
                    0 <= j < self.windows@.len() ==> (#[trigger] self.windows@[j]).wf()
                        && self.windows@[j]@.retention == retentions[j],
                forall|j: int|
                    0 <= j < i ==> (#[trigger] self.windows@[j])@ == WindowView::replay(
                        retentions[j],
                        after,
                    ),
                forall|j: int|
                    i <= j < self.windows@.len() ==> (#[trigger] self.windows@[j])@
                        == WindowView::replay(retentions[j], before),
            decreases self.windows@.len() - i,
        {
            self.windows[i].push(time, value);
            proof {
                assert(after.last() == sample);
                assert(WindowView::replay(retentions[i as int], after) == WindowView::replay(
                    retentions[i as int],
                    before,
                ).push(sample));
            }
            i += 1;
        }
        self.history = Ghost(after);
        assert(self@.retentions =~= retentions);
    }

    /// The retention span of each window with the level it reports, in the
    /// order of construction: all of them after the same pushes.
    pub fn snapshot(&self) -> (maxes: Vec<(u64, i32)>)
        requires
            self.wf(),
        ensures
            maxes@ == self@.snapshot(),
    {
        let mut maxes: Vec<(u64, i32)> = Vec::new();
        let mut i: usize = 0;
        while i < self.windows.len()
            invariant
                self.wf(),
                i <= self.windows@.len(),
                maxes@.len() == i,
                forall|j: int| 0 <= j < i ==> #[trigger] maxes@[j] == self@.snapshot()[j],
            decreases self.windows@.len() - i,
        {
            let window = &self.windows[i];
            maxes.push((window.retention(), window.max()));
            i += 1;
        }
        maxes
    }
}

/// A push reaches every window: after it, each window of the registry is
/// what that window was before with the sample pushed into it, and none is
/// left as it was. The spans stay as they were configured.
pub proof fn lemma_push_all_reaches_every_window(
    registry: RegistryView,
    sample: AmplitudeSample,
    i: int,
)
    requires
        0 <= i < registry.retentions.len(),
    ensures
        registry.push_all(sample).retentions == registry.retentions,
        registry.push_all(sample).window(i) == registry.window(i).push(sample),
        registry.push_all(sample).snapshot()[i] == (
            registry.retentions[i],
            registry.window(i).push(sample).max(),
        ),
{
    assert(registry.history.push(sample).drop_last() =~= registry.history);
}

/// Where the samples arrive in capture order, each entry of a snapshot is
/// the level of a sample within that window's retention of the newest
/// sample, and no sample within that retention is louder.
pub proof fn lemma_snapshot_reflects_recent_only(registry: RegistryView, i: int)
    requires
        0 <= i < registry.retentions.len(),
        registry.history.len() > 0,
        in_capture_order(registry.history),
    ensures
        registry.snapshot()[i].0 == registry.retentions[i],
        exists|k: int|
            0 <= k < registry.history.len() && !expired(
                #[trigger] registry.history[k],
                registry.history.last(),
                registry.retentions[i],
            ) && registry.history[k].db == registry.snapshot()[i].1,
        forall|k: int|
            0 <= k < registry.history.len() && !expired(
                #[trigger] registry.history[k],
                registry.history.last(),
                registry.retentions[i],
            ) ==> registry.history[k].db <= registry.snapshot()[i].1,
{
    lemma_max_reflects_recent_only(registry.retentions[i], registry.history);
}

} // verus!
