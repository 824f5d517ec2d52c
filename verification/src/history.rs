//! Fixed-capacity rolling history of non-negative scalar samples.
//!
//! A `HistoryWindow` is a bounded FIFO: a push appends the newest sample
//! and evicts the oldest one once the capacity is exceeded. The average
//! is recomputed from the current contents on every call, never
//! incrementally. Windows smooth per-bin spectrum magnitudes and average
//! the spectral-flux signal.

use vstd::prelude::*;

use crate::math::lemma_sum_range_bounds;
use crate::math::sum_range;

verus! {

/// Largest capacity a window may be built with.
pub const MAX_CAPACITY: usize = 32;

/// Largest sample value a window accepts.
pub const MAX_SAMPLE: i64 = 100_000_000_000_000_000;

/// What one push does to the contents: append the new sample, then drop
/// the oldest one if the capacity is exceeded.
pub open spec fn push_evict(w: Seq<i64>, cap: nat, v: i64) -> Seq<i64> {
    if w.len() < cap {
        w.push(v)
    } else {
        w.push(v).skip(1)
    }
}

/// Contents after pushing every sample of `vs` in order.
pub open spec fn push_all(w: Seq<i64>, cap: nat, vs: Seq<i64>) -> Seq<i64>
    decreases vs.len(),
{
    if vs.len() == 0 {
        w
    } else {
        push_evict(push_all(w, cap, vs.drop_last()), cap, vs.last())
    }
}

/// The average a window reports: the integer mean of its contents, 0 when
/// it is empty.
pub open spec fn window_average(w: Seq<i64>) -> int {
    if w.len() == 0 {
        0
    } else {
        sum_range(w, 0, w.len() as int) / w.len() as int
    }
}

/// Bounded FIFO of the most recent scalar samples.
pub struct HistoryWindow {
    values: Vec<i64>,
    capacity: usize,
}

impl View for HistoryWindow {
    type V = Seq<i64>;

    closed spec fn view(&self) -> Seq<i64> {
        self.values@
    }
}

impl HistoryWindow {
    /// The capacity the window was built with.
    pub closed spec fn cap(&self) -> nat {
        self.capacity as nat
    }

    /// Well-formed: the capacity is in range, the contents fit in it, and
    /// every sample is a bounded non-negative scalar.
    pub open spec fn wf(&self) -> bool {
        &&& 1 <= self.cap() <= MAX_CAPACITY
        &&& self@.len() <= self.cap()
        &&& forall|i: int| 0 <= i < self@.len() ==> 0 <= #[trigger] self@[i] <= MAX_SAMPLE
    }

    /// An empty window of the given capacity.
    pub fn new(capacity: usize) -> (w: Self)
        requires
            1 <= capacity <= MAX_CAPACITY,
        ensures
            w.wf(),
            w@ == Seq::<i64>::empty(),
            w.cap() == capacity,
    {
        HistoryWindow { values: Vec::new(), capacity }
    }

    /// Number of samples currently held.
    pub fn len(&self) -> (n: usize)
        ensures
            n == self@.len(),
    {
        self.values.len()
    }

    /// Append the newest sample, evicting the oldest once full.
    pub fn push(&mut self, v: i64)
        requires
            old(self).wf(),
            0 <= v <= MAX_SAMPLE,
        ensures
            final(self).wf(),
            final(self).cap() == old(self).cap(),
            final(self)@ == push_evict(old(self)@, old(self).cap(), v),
    {
        self.values.push(v);
        if self.values.len() > self.capacity {
            self.values.remove(0);
            proof {
                assert(self@ =~= push_evict(old(self)@, old(self).cap(), v));
            }
        }
    }

    /// Sum of the current contents.
    pub fn sum(&self) -> (s: i64)
        requires
            self.wf(),
        ensures
            s == sum_range(self@, 0, self@.len() as int),
            0 <= s,
    {
        let mut s: i64 = 0;
        let mut i: usize = 0;
        while i < self.values.len()
            invariant
                self.wf(),
                i <= self@.len(),
                s == sum_range(self@, 0, i as int),
                0 <= s <= i * MAX_SAMPLE,
            decreases self@.len() - i,
        {
            s = s + self.values[i];
            i = i + 1;
        }
        s
    }

    /// The mean of the current contents, 0 when the window is empty.
    pub fn average(&self) -> (a: i64)
        requires
            self.wf(),
        ensures
            a == window_average(self@),
            0 <= a <= MAX_SAMPLE,
    {
        let n = self.values.len();
        if n == 0 {
            0
        } else {
            let s = self.sum();
            proof {
                lemma_sum_range_bounds(self@, 0, self@.len() as int, MAX_SAMPLE as int);
                assert((s as int) / (n as int) <= MAX_SAMPLE) by (nonlinear_arith)
                    requires
                        0 <= s as int <= (n as int) * (MAX_SAMPLE as int),
                        1 <= n as int,
                ;
            }
            s / (n as i64)
        }
    }
}

/// After enough pushes the window holds exactly the most recent samples:
/// pushing `vs` onto a well-formed start leaves the last `cap` samples of
/// the concatenation (all of it, if it fits).
pub proof fn lemma_push_all_contents(w: Seq<i64>, cap: nat, vs: Seq<i64>)
    requires
        1 <= cap,
        w.len() <= cap,
    ensures
        push_all(w, cap, vs) == if w.len() + vs.len() <= cap {
            w + vs
        } else {
            (w + vs).skip(w.len() + vs.len() - cap)
        },
    decreases vs.len(),
{
    if vs.len() == 0 {
        assert(push_all(w, cap, vs) =~= w + vs);
    } else {
        lemma_push_all_contents(w, cap, vs.drop_last());
        let prev = push_all(w, cap, vs.drop_last());
        if w.len() + vs.len() <= cap {
            assert(push_evict(prev, cap, vs.last()) =~= w + vs);
        } else if w.len() + vs.len() == cap + 1 {
            assert(push_evict(prev, cap, vs.last()) =~= (w + vs).skip(
                w.len() + vs.len() - cap,
            ));
        } else {
            assert(push_evict(prev, cap, vs.last()) =~= (w + vs).skip(
                w.len() + vs.len() - cap,
            ));
        }
    }
}

/// History-window law: after pushing `M > N` samples into an empty window
/// of capacity `N`, the window holds exactly the last `N` pushed samples,
/// so its reported average is the mean of exactly those, independent of
/// everything pushed before them.
pub proof fn lemma_window_keeps_last(cap: nat, vs: Seq<i64>)
    requires
        1 <= cap,
        vs.len() >= cap,
    ensures
        push_all(Seq::<i64>::empty(), cap, vs) == vs.skip(vs.len() - cap),
        window_average(push_all(Seq::<i64>::empty(), cap, vs)) == window_average(
            vs.skip(vs.len() - cap),
        ),
{
    lemma_push_all_contents(Seq::<i64>::empty(), cap, vs);
    assert(Seq::<i64>::empty() + vs =~= vs);
    if vs.len() == cap {
        assert(vs.skip(0) =~= vs);
    }
}

} // verus!
