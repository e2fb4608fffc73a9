//! The mathematical model of a sliding window: which samples it retains
//! after a push, and which level it reports.

use crate::level::MIN_DB;
use vstd::prelude::*;

verus! {

/// One loudness reading: when it was captured, in nanoseconds on the
/// stream's clock, and its level in thousandths of a decibel.
#[derive(Clone, Copy, Debug, PartialEq, Eq)]
pub struct AmplitudeSample {
    pub time: u64,
    pub db: i32,
}

/// Whether the span from `oldest` to `newest` exceeds the retention. A
/// `newest` that was captured before `oldest` spans nothing.
pub open spec fn expired(oldest: AmplitudeSample, newest: AmplitudeSample, retention: u64) -> bool {
    newest.time - oldest.time > retention
}

/// How many samples eviction takes from the front of `samples`: it takes
/// the front while that has expired against the back, and never the last
/// sample that is left.
pub open spec fn evicted(samples: Seq<AmplitudeSample>, retention: u64) -> nat
    decreases samples.len(),
{
    if samples.len() > 1 && expired(samples.first(), samples.last(), retention) {
        1 + evicted(samples.drop_first(), retention)
    } else {
        0
    }
}

/// The highest level among `samples`, and the silence floor where there are
/// none.
pub open spec fn loudest(samples: Seq<AmplitudeSample>) -> i32
    decreases samples.len(),
{
    if samples.len() == 0 {
        MIN_DB
    } else if samples.len() == 1 {
        samples.last().db
    } else {
        let rest = loudest(samples.drop_last());
        if samples.last().db > rest {
            samples.last().db
        } else {
            rest
        }
    }
}

/// What a window is, seen from outside: its retention span and the samples
/// it retains, oldest first.
#[verifier::ext_equal]
pub struct WindowView {
    pub retention: u64,
    pub samples: Seq<AmplitudeSample>,
}

impl WindowView {
    /// A window that has seen no sample yet.
    pub open spec fn empty(retention: u64) -> WindowView {
        WindowView { retention, samples: Seq::empty() }
    }

    /// The window after `sample` has arrived: the sample joins at the back,
    /// then the front is evicted.
    pub open spec fn push(self, sample: AmplitudeSample) -> WindowView {
        let joined = self.samples.push(sample);
        WindowView {
            retention: self.retention,
            samples: joined.skip(evicted(joined, self.retention) as int),
        }
    }

    /// The level the window reports.
    pub open spec fn max(self) -> i32 {
        loudest(self.samples)
    }

    /// The window that results from pushing all of `history`, in order, into
    /// an empty window.
    pub open spec fn replay(retention: u64, history: Seq<AmplitudeSample>) -> WindowView
        decreases history.len(),
    {
        if history.len() == 0 {
            WindowView::empty(retention)
        } else {
            WindowView::replay(retention, history.drop_last()).push(history.last())
        }
    }
}

/// Whether the samples were captured in order: none before an earlier one.
pub open spec fn in_capture_order(samples: Seq<AmplitudeSample>) -> bool {
    forall|i: int, j: int| 0 <= i <= j < samples.len() ==> samples[i].time <= samples[j].time
}

/// Eviction stops short of the newest sample; every sample it takes has
/// expired against the newest; and the first one it leaves has not, unless
/// that is the newest itself.
pub proof fn lemma_evicted_is_expired_front(samples: Seq<AmplitudeSample>, retention: u64)
    requires
        samples.len() > 0,
    ensures
        evicted(samples, retention) < samples.len(),
        forall|i: int|
            0 <= i < evicted(samples, retention) ==> expired(
                #[trigger] samples[i],
                samples.last(),
                retention,
            ),
        evicted(samples, retention) < samples.len() - 1 ==> !expired(
            samples[evicted(samples, retention) as int],
            samples.last(),
            retention,
        ),
    decreases samples.len(),
{
    if samples.len() > 1 && expired(samples.first(), samples.last(), retention) {
        let rest = samples.drop_first();
        lemma_evicted_is_expired_front(rest, retention);
        assert(rest.last() == samples.last());
        assert(forall|i: int| 0 <= i < rest.len() ==> rest[i] == samples[i + 1]);
        assert forall|i: int| 0 <= i < evicted(samples, retention) implies expired(
            #[trigger] samples[i],
            samples.last(),
            retention,
        ) by {
            if i > 0 {
                assert(samples[i] == rest[i - 1]);
            }
        }
    }
}

/// The loudest level of a non-empty run of samples is the level of one of
/// them, and none of them is louder.
pub proof fn lemma_loudest_is_highest_level(samples: Seq<AmplitudeSample>)
    ensures
        samples.len() == 0 ==> loudest(samples) == MIN_DB,
        forall|i: int| 0 <= i < samples.len() ==> (#[trigger] samples[i]).db <= loudest(samples),
        samples.len() > 0 ==> exists|i: int|
            0 <= i < samples.len() && (#[trigger] samples[i]).db == loudest(samples),
    decreases samples.len(),
{
    if samples.len() == 1 {
        assert(samples[0].db == loudest(samples));
    } else if samples.len() > 1 {
        let front = samples.drop_last();
        lemma_loudest_is_highest_level(front);
        assert(forall|i: int| 0 <= i < front.len() ==> front[i] == samples[i]);
        if samples.last().db > loudest(front) {
            assert(samples[samples.len() - 1].db == loudest(samples));
        } else {
            let i = choose|i: int| 0 <= i < front.len() && (#[trigger] front[i]).db == loudest(front);
            assert(samples[i].db == loudest(samples));
        }
    }
}

/// A level that one of the samples has and none exceeds is the loudest.
pub proof fn lemma_highest_level_is_loudest(samples: Seq<AmplitudeSample>, db: i32, at: int)
    requires
        0 <= at < samples.len(),
        samples[at].db == db,
        forall|i: int| 0 <= i < samples.len() ==> (#[trigger] samples[i]).db <= db,
    ensures
        loudest(samples) == db,
{
    lemma_loudest_is_highest_level(samples);
}

/// A window never empties itself: after a push the newest sample is
/// retained, at the back, and the level reported is at least its level.
/// So a window reports the silence floor after a push only if the sample
/// pushed was at (or below) the floor.
pub proof fn lemma_push_keeps_newest(window: WindowView, sample: AmplitudeSample)
    ensures
        window.push(sample).retention == window.retention,
        window.push(sample).samples.len() > 0,
        window.push(sample).samples.last() == sample,
        window.push(sample).max() >= sample.db,
        window.push(sample).max() == MIN_DB ==> sample.db <= MIN_DB,
{
    let joined = window.samples.push(sample);
    lemma_evicted_is_expired_front(joined, window.retention);
    lemma_loudest_is_highest_level(window.push(sample).samples);
}

/// Every sample that a push leaves in the window was in it before, or is
/// the sample pushed; the order of arrival is kept; and what is missing
/// had expired against the sample pushed.
pub proof fn lemma_push_evicts_expired_front(window: WindowView, sample: AmplitudeSample) -> (gone:
    int)
    ensures
        0 <= gone <= window.samples.len(),
        window.push(sample).samples == window.samples.push(sample).skip(gone),
        forall|i: int| 0 <= i < gone ==> expired(#[trigger] window.samples[i], sample, window.retention),
        gone < window.samples.len() ==> !expired(window.samples[gone], sample, window.retention),
{
    let joined = window.samples.push(sample);
    lemma_evicted_is_expired_front(joined, window.retention);
    let gone = evicted(joined, window.retention) as int;
    assert forall|i: int| 0 <= i < gone implies expired(
        #[trigger] window.samples[i],
        sample,
        window.retention,
    ) by {
        assert(joined[i] == window.samples[i]);
    }
    if gone < window.samples.len() {
        assert(joined[gone] == window.samples[gone]);
    }
    gone
}

/// Where the samples arrive in capture order, the window retains exactly
/// those whose age against the newest is within the retention: `from` is
/// the place in the history from which on all samples are retained, and
/// every sample before it has expired.
pub proof fn lemma_replay_retains_recent(retention: u64, history: Seq<AmplitudeSample>) -> (from: int)
    requires
        history.len() > 0,
        in_capture_order(history),
    ensures
        0 <= from < history.len(),
        WindowView::replay(retention, history).retention == retention,
        WindowView::replay(retention, history).samples == history.skip(from),
        forall|i: int|
            0 <= i < history.len() ==> (from <= i <==> !expired(
                #[trigger] history[i],
                history.last(),
                retention,
            )),
    decreases history.len(),
{
    let earlier = history.drop_last();
    let newest = history.last();
    let before = WindowView::replay(retention, earlier);
    if earlier.len() == 0 {
        assert(before.samples.push(newest).len() == 1);
        assert(before.push(newest).samples =~= history.skip(0));
        0
    } else {
        assert(in_capture_order(earlier)) by {
            assert(forall|i: int| 0 <= i < earlier.len() ==> earlier[i] == history[i]);
        }
        let kept = lemma_replay_retains_recent(retention, earlier);
        let joined = before.samples.push(newest);
        assert(joined =~= history.skip(kept));
        lemma_evicted_is_expired_front(joined, retention);
        let gone = evicted(joined, retention) as int;
        let from = kept + gone;
        assert(joined.skip(gone) =~= history.skip(from));
        assert forall|i: int| 0 <= i < history.len() implies (from <= i <==> !expired(
            #[trigger] history[i],
            history.last(),
            retention,
        )) by {
            if i < kept {
                assert(earlier[i] == history[i]);
                assert(expired(earlier[i], earlier.last(), retention));
                assert(earlier.last() == history[earlier.len() - 1]);
            } else if i < from {
                assert(joined[i - kept] == history[i]);
            } else {
                assert(joined[gone] == history[from]);
                assert(joined.last() == newest);
                assert(!expired(history[from], newest, retention));
            }
        }
        from
    }
}

/// Where the samples arrive in capture order, the level a window reports
/// is the level of a sample within the retention of the newest, and no
/// sample within the retention of the newest is louder.
pub proof fn lemma_max_reflects_recent_only(retention: u64, history: Seq<AmplitudeSample>)
    requires
        history.len() > 0,
        in_capture_order(history),
    ensures
        exists|i: int|
            0 <= i < history.len() && !expired(#[trigger] history[i], history.last(), retention)
                && history[i].db == WindowView::replay(retention, history).max(),
        forall|i: int|
            0 <= i < history.len() && !expired(#[trigger] history[i], history.last(), retention)
                ==> history[i].db <= WindowView::replay(retention, history).max(),
{
    let from = lemma_replay_retains_recent(retention, history);
    let retained = history.skip(from);
    lemma_loudest_is_highest_level(retained);
    let at = choose|i: int| 0 <= i < retained.len() && (#[trigger] retained[i]).db == loudest(retained);
    assert(history[from + at] == retained[at]);
    assert forall|i: int|
        0 <= i < history.len() && !expired(
            #[trigger] history[i],
            history.last(),
            retention,
        ) implies history[i].db <= WindowView::replay(retention, history).max() by {
        assert(retained[i - from] == history[i]);
    }
}

} // verus!
