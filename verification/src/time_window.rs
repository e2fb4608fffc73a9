//! The sliding window: the loudest level among the samples of a trailing
//! span of time.
//!
//! A window keeps the capture times of its samples in order of arrival and
//! their levels in a priority queue that can drop an entry by its key, so
//! that a push costs a logarithmic number of steps however many samples
//! are retained. The queue files each sample under its arrival number, not
//! under its capture time: samples captured at the same instant each keep
//! an entry of their own.

use crate::level::MIN_DB;
use crate::queue::queue_entries;
use crate::queue::queue_new;
use crate::queue::queue_peek;
use crate::queue::queue_push;
use crate::queue::queue_remove;
use crate::window_model::evicted;
use crate::window_model::lemma_highest_level_is_loudest;
use crate::window_model::AmplitudeSample;
use crate::window_model::WindowView;
use keyed_priority_queue::KeyedPriorityQueue;
use std::collections::VecDeque;
use vstd::prelude::*;

verus! {

/// The key under which the sample at place `i` of the window is filed,
/// where the oldest sample, at place 0, is filed under `oldest`. Keys count
/// arrivals and wrap around.
spec fn key_at(oldest: u64, i: int) -> u64 {
    if oldest + i > u64::MAX {
        (oldest + i - 0x1_0000_0000_0000_0000) as u64
    } else {
        (oldest + i) as u64
    }
}

/// The place in the window of the sample that is filed under `key`.
spec fn place_of(oldest: u64, key: u64) -> int {
    if key < oldest {
        key - oldest + 0x1_0000_0000_0000_0000
    } else {
        key - oldest
    }
}

/// The queue files exactly the samples of the window: one entry for each
/// place, under that place's key.
spec fn filed(entries: Map<u64, i32>, times: Seq<u64>, oldest: u64) -> bool {
    &&& times.len() < 0x1_0000_0000_0000_0000
    &&& forall|key: u64| #[trigger] entries.contains_key(key) <==> place_of(oldest, key) < times.len()
}

/// The samples of the window, oldest first: the capture time from the
/// arrival sequence, the level from the queue.
spec fn samples_of(entries: Map<u64, i32>, times: Seq<u64>, oldest: u64) -> Seq<
    AmplitudeSample,
> {
    Seq::new(times.len(), |i: int| AmplitudeSample { time: times[i], db: entries[key_at(oldest, i)] })
}

/// A sliding window over a stream of loudness samples.
pub struct TimeWindow {
    retention: u64,
    maxes: KeyedPriorityQueue<u64, i32>,
    times: VecDeque<u64>,
    oldest: u64,
}

impl View for TimeWindow {
    type V = WindowView;

    closed spec fn view(&self) -> WindowView {
        WindowView {
            retention: self.retention,
            samples: samples_of(queue_entries(self.maxes), self.times@, self.oldest),
        }
    }
}

impl TimeWindow {
    /// The queue and the arrival sequence hold the same samples. This holds
    /// of every window that [`TimeWindow::new`] made, whatever was pushed
    /// into it since.
    pub closed spec fn wf(&self) -> bool {
        filed(queue_entries(self.maxes), self.times@, self.oldest)
    }

    /// An empty window that retains samples for `retention` nanoseconds.
    pub fn new(retention: u64) -> (window: Self)
        ensures
            window.wf(),
            window@ == WindowView::empty(retention),
    {
        let window = TimeWindow { retention, maxes: queue_new(), times: VecDeque::new(), oldest: 0 };
        assert(window@.samples =~= Seq::empty());
        window
    }

    /// The retention span, in nanoseconds.
    pub fn retention(&self) -> (retention: u64)
        ensures
            retention == self@.retention,
    {
        self.retention
    }

    /// Takes in a sample, then evicts from the front what has aged out
    /// against it. Capture times need not increase.
    pub fn push(&mut self, time: u64, value: i32)
        requires
            old(self).wf(),
        ensures
            final(self).wf(),
            final(self)@ == old(self)@.push((AmplitudeSample { time, db: value })),
    {
        let ghost retention = self.retention;
        let ghost joined = self@.samples.push(AmplitudeSample { time, db: value });
        let key = self.oldest.wrapping_add(self.times.len() as u64);
        queue_push(&mut self.maxes, key, value);
        self.times.push_back(time);
        proof {
            assert(self.times@.len() == self.times.len());
            assert(place_of(self.oldest, key) == self.times@.len() - 1);
            assert(self@.samples =~= joined);
        }
        let ghost mut gone: int = 0;
        loop
            invariant
                self.retention == retention,
                self.wf(),
                self.times@.len() > 0,
                0 <= gone < joined.len(),
                self@.samples == joined.skip(gone),
                evicted(joined, retention) == gone + evicted(self@.samples, retention),
            ensures
                self.retention == retention,
                self.wf(),
                self@.samples == joined.skip(evicted(joined, retention) as int),
            decreases self.times@.len(),
        {
            let len = self.times.len();
            if len <= 1 {
                break ;
            }
            let front = self.times[0];
            let back = self.times[len - 1];
            if back <= front || back - front <= self.retention {
                break ;
            }
            let ghost before = self@.samples;
            queue_remove(&mut self.maxes, self.oldest);
            self.times.pop_front();
            self.oldest = self.oldest.wrapping_add(1);
            proof {
                assert(self@.samples =~= before.drop_first());
                assert(before.drop_first() =~= joined.skip(gone + 1));
                gone = gone + 1;
            }
        }
    }

    /// The loudest level among the retained samples, or the silence floor
    /// while the window is empty.
    pub fn max(&self) -> (db: i32)
        requires
            self.wf(),
        ensures
            db == self@.max(),
    {
        match queue_peek(&self.maxes) {
            Some((key, priority)) => {
                proof {
                    let samples = self@.samples;
                    let at = place_of(self.oldest, key);
                    assert(key_at(self.oldest, at) == key);
                    assert(samples[at].db == priority);
                    assert forall|i: int| 0 <= i < samples.len() implies (#[trigger] samples[i]).db
                        <= priority by {
                        let other = key_at(self.oldest, i);
                        assert(place_of(self.oldest, other) == i);
                        assert(queue_entries(self.maxes).contains_key(other));
                    }
                    lemma_highest_level_is_loudest(samples, priority, at);
                }
                priority
            },
            None => {
                proof {
                    if self.times@.len() > 0 {
                        let first = key_at(self.oldest, 0);
                        assert(place_of(self.oldest, first) == 0);
                        assert(queue_entries(self.maxes).contains_key(first));
                    }
                    assert(self@.samples =~= Seq::empty());
                }
                MIN_DB
            },
        }
    }
}

} // verus!
