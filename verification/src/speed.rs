//! Sliding-window throughput estimator: iteration-count samples over a
//! trailing time window, evicted from the front as time advances.

use vstd::prelude::*;
use std::collections::VecDeque;

verus! {

/// Sum of the iteration counts of a sample sequence (each sample is a
/// `(timestamp_ms, count)` pair).
pub open spec fn total_count(s: Seq<(u64, u64)>) -> int
    decreases s.len(),
{
    if s.len() == 0 {
        0
    } else {
        total_count(s.drop_last()) + s.last().1
    }
}

/// Samples left after evicting stale entries from the front: the longest
/// suffix whose first entry is at or after `cutoff`.
pub open spec fn drop_stale(s: Seq<(u64, u64)>, cutoff: u64) -> Seq<(u64, u64)>
    decreases s.len(),
{
    if s.len() == 0 || s[0].0 >= cutoff {
        s
    } else {
        drop_stale(s.skip(1), cutoff)
    }
}

/// Timestamps never decrease along the sample sequence.
pub open spec fn sorted_by_time(s: Seq<(u64, u64)>) -> bool {
    forall|i: int, j: int| 0 <= i <= j < s.len() ==> s[i].0 <= s[j].0
}

/// The eviction threshold for a sample added at `time_ms`: everything
/// strictly older than `time_ms - window_ms` goes, with the subtraction
/// floored at zero.
pub open spec fn cutoff_of(time_ms: u64, window_ms: u64) -> u64 {
    if time_ms >= window_ms {
        (time_ms - window_ms) as u64
    } else {
        0
    }
}

/// Time between the oldest and the newest sample, in milliseconds; zero
/// when fewer than two samples remain.
pub open spec fn span_of(s: Seq<(u64, u64)>) -> int {
    if s.len() == 0 {
        0
    } else {
        s.last().0 - s[0].0
    }
}

pub(crate) proof fn lemma_drop_stale_total(s: Seq<(u64, u64)>, cutoff: u64)
    ensures
        total_count(drop_stale(s, cutoff)) <= total_count(s),
    decreases s.len(),
{
    if s.len() == 0 || s[0].0 >= cutoff {
    } else {
        lemma_total_first(s);
        lemma_drop_stale_total(s.skip(1), cutoff);
    }
}

pub(crate) proof fn lemma_drop_stale_times(s: Seq<(u64, u64)>, cutoff: u64, t: u64)
    requires
        forall|j: int| 0 <= j < s.len() ==> s[j].0 <= t,
    ensures
        forall|i: int|
            0 <= i < drop_stale(s, cutoff).len() ==> drop_stale(s, cutoff)[i].0 <= t,
    decreases s.len(),
{
    if s.len() == 0 || s[0].0 >= cutoff {
    } else {
        assert forall|j: int| 0 <= j < s.skip(1).len() implies s.skip(1)[j].0 <= t by {
            assert(s.skip(1)[j] == s[j + 1]);
        }
        lemma_drop_stale_times(s.skip(1), cutoff, t);
        assert(drop_stale(s, cutoff) == drop_stale(s.skip(1), cutoff));
    }
}

pub(crate) proof fn lemma_total_first(s: Seq<(u64, u64)>)
    requires
        s.len() > 0,
    ensures
        total_count(s) == s[0].1 + total_count(s.skip(1)),
    decreases s.len(),
{
    if s.len() == 1 {
        assert(s.drop_last() =~= Seq::<(u64, u64)>::empty());
        assert(s.skip(1) =~= Seq::<(u64, u64)>::empty());
        assert(s.last() == s[0]);
    } else {
        lemma_total_first(s.drop_last());
        assert(s.drop_last()[0] == s[0]);
        assert(s.skip(1).drop_last() =~= s.drop_last().skip(1));
        assert(s.skip(1).last() == s.last());
    }
}

proof fn lemma_total_take_le(s: Seq<(u64, u64)>, i: int)
    requires
        0 <= i <= s.len(),
    ensures
        total_count(s.take(i)) <= total_count(s),
    decreases s.len() - i,
{
    if i == s.len() {
        assert(s.take(i) =~= s);
    } else {
        assert(s.take(i + 1).drop_last() =~= s.take(i));
        assert(s.take(i + 1).last() == s[i]);
        lemma_total_take_le(s, i + 1);
    }
}

/// Sliding-window estimator over `(timestamp_ms, count)` samples.
pub struct SpeedTracker {
    recent_iterations: VecDeque<(u64, u64)>,
    window_ms: u64,
}

impl SpeedTracker {
    /// The recorded samples, oldest first.
    pub closed spec fn samples(&self) -> Seq<(u64, u64)> {
        self.recent_iterations@
    }

    /// The configured trailing window, in milliseconds.
    pub closed spec fn window(&self) -> u64 {
        self.window_ms
    }

    /// Samples stay ordered by time and their counts stay summable.
    pub open spec fn wf(&self) -> bool {
        &&& sorted_by_time(self.samples())
        &&& total_count(self.samples()) <= u64::MAX
    }

    /// An empty tracker over the given window.
    pub fn new(window_ms: u64) -> (t: Self)
        ensures
            t.wf(),
            t.samples() == Seq::<(u64, u64)>::empty(),
            t.window() == window_ms,
    {
        SpeedTracker { recent_iterations: VecDeque::new(), window_ms }
    }

    /// Appends one sample and evicts every entry older than the trailing
    /// window, from the front.
    pub fn add_iterations(&mut self, time_ms: u64, count: u64)
        requires
            old(self).wf(),
            forall|i: int|
                0 <= i < old(self).samples().len() ==> old(self).samples()[i].0 <= time_ms,
            total_count(old(self).samples()) + count <= u64::MAX,
        ensures
            final(self).wf(),
            final(self).window() == old(self).window(),
            final(self).samples() == drop_stale(
                old(self).samples().push((time_ms, count)),
                cutoff_of(time_ms, old(self).window()),
            ),
    {
        self.recent_iterations.push_back((time_ms, count));
        let ghost pushed = self.recent_iterations@;
        proof {
            assert(pushed.drop_last() =~= old(self).samples());
            assert forall|i: int, j: int| 0 <= i <= j < pushed.len() implies
                pushed[i].0 <= pushed[j].0 by {
                if j < pushed.len() - 1 {
                    assert(pushed[i] == old(self).samples()[i]);
                    assert(pushed[j] == old(self).samples()[j]);
                } else if i < pushed.len() - 1 {
                    assert(pushed[i] == old(self).samples()[i]);
                }
            }
        }
        let cutoff: u64 = if time_ms >= self.window_ms {
            time_ms - self.window_ms
        } else {
            0
        };
        while self.recent_iterations.len() > 0 && self.recent_iterations[0].0 < cutoff
            invariant
                cutoff == cutoff_of(time_ms, old(self).window()),
                self.window_ms == old(self).window(),
                sorted_by_time(self.recent_iterations@),
                total_count(self.recent_iterations@) <= u64::MAX,
                drop_stale(self.recent_iterations@, cutoff) == drop_stale(pushed, cutoff),
            decreases self.recent_iterations@.len(),
        {
            let ghost before = self.recent_iterations@;
            proof {
                lemma_total_first(before);
            }
            self.recent_iterations.pop_front();
            proof {
                assert(self.recent_iterations@ =~= before.skip(1));
                assert forall|i: int, j: int| 0 <= i <= j < before.skip(1).len() implies
                    before.skip(1)[i].0 <= before.skip(1)[j].0 by {
                    assert(before.skip(1)[i] == before[i + 1]);
                    assert(before.skip(1)[j] == before[j + 1]);
                }
            }
        }
        proof {
            assert(drop_stale(self.recent_iterations@, cutoff) == self.recent_iterations@);
        }
    }

    /// The windowed totals: summed iteration count of the retained samples,
    /// and the elapsed span between oldest and newest sample, in
    /// milliseconds. The smoothed rate is the first component divided by the
    /// second (scaled to seconds); a span of zero — fewer than two distinct
    /// sample times — stands for a rate of zero.
    pub fn calculate_speed(&self) -> (r: (u64, u64))
        requires
            self.wf(),
        ensures
            r.0 == total_count(self.samples()),
            r.1 == span_of(self.samples()),
    {
        let len: usize = self.recent_iterations.len();
        if len == 0 {
            return (0, 0);
        }
        let mut acc: u64 = 0;
        let mut i: usize = 0;
        while i < len
            invariant
                0 <= i <= len,
                len == self.samples().len(),
                self.wf(),
                acc == total_count(self.samples().take(i as int)),
            decreases len - i,
        {
            proof {
                lemma_total_take_le(self.samples(), i + 1);
                assert(self.samples().take(i + 1).drop_last() =~= self.samples().take(i as int));
                assert(self.samples().take(i + 1).last() == self.samples()[i as int]);
            }
            acc = acc + self.recent_iterations[i].1;
            i = i + 1;
        }
        proof {
            assert(self.samples().take(len as int) =~= self.samples());
        }
        let first: u64 = self.recent_iterations[0].0;
        let last: u64 = self.recent_iterations[len - 1].0;
        proof {
            assert(self.samples()[0].0 <= self.samples()[len - 1].0);
            assert(self.samples().last() == self.samples()[len - 1]);
        }
        (acc, last - first)
    }
}

} // verus!
