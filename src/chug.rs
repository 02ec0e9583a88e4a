use crate::bucket::{inserted_all, keep_newest, lemma_window_keeps_newest, LeakyBucket};
use crate::clock::{clock_now, duration_from_millis, millis_duration, millis_since};
use crate::estimate::{gap, gap_total, mean_gap, saturate, sum_of_gaps, lemma_gap_total_bound};
use std::time::{Duration, Instant};
use vstd::prelude::*;

verus! {

/// The abstract state of an estimator: the recent completion times in
/// milliseconds (oldest first), the window's capacity, and the units done and
/// expected.
pub struct ChugState {
    pub window: Seq<u64>,
    pub capacity: nat,
    pub completed: nat,
    pub total: nat,
}

impl ChugState {
    /// The state of a new estimator: nothing recorded, nothing done.
    pub open spec fn fresh(capacity: nat, total: nat) -> ChugState {
        ChugState { window: Seq::empty(), capacity, completed: 0, total }
    }

    /// The state after one more unit was done at time `now`.
    pub open spec fn ticked(self, now: u64) -> ChugState {
        ChugState {
            window: keep_newest(self.window.push(now), self.capacity),
            completed: self.completed + 1,
            ..self
        }
    }

    /// The projected milliseconds left: none while fewer than two time points
    /// are known, and none once the work is done or overrun; otherwise the mean
    /// spacing times the units left.
    pub open spec fn estimate(self) -> Option<nat> {
        if self.window.len() < 2 || self.completed >= self.total {
            None
        } else {
            Some(mean_gap(self.window) * (self.total - self.completed) as nat)
        }
    }

    /// The estimate in whole milliseconds, saturated at `u64::MAX`.
    pub open spec fn eta_millis(self) -> Option<u64> {
        match self.estimate() {
            Some(ms) => Some(saturate(ms)),
            None => None,
        }
    }

    /// The estimate as a `Duration`.
    pub open spec fn eta(self) -> Option<Duration> {
        match self.eta_millis() {
            Some(ms) => Some(millis_duration(ms)),
            None => None,
        }
    }
}

/// The state after one unit was done at each of `times`, in order.
pub open spec fn after_ticks(st: ChugState, times: Seq<u64>) -> ChugState
    decreases times.len(),
{
    if times.len() == 0 {
        st
    } else {
        after_ticks(st, times.drop_last()).ticked(times.last())
    }
}

/// Ticks move the window exactly as insertions into it do, and count one
/// unit each; capacity and total never change.
pub proof fn lemma_after_ticks(st: ChugState, times: Seq<u64>)
    ensures
        after_ticks(st, times).window == inserted_all(st.window, st.capacity, times),
        after_ticks(st, times).completed == st.completed + times.len(),
        after_ticks(st, times).capacity == st.capacity,
        after_ticks(st, times).total == st.total,
    decreases times.len(),
{
    if times.len() > 0 {
        lemma_after_ticks(st, times.drop_last());
    }
}

/// After `times.len()` ticks on a new estimator, the window holds the newest
/// `capacity` of those times and the count of units done is the number of
/// ticks.
pub proof fn lemma_fresh_after_ticks(capacity: nat, total: nat, times: Seq<u64>)
    ensures
        after_ticks(ChugState::fresh(capacity, total), times)
            == (ChugState {
            window: keep_newest(times, capacity),
            capacity,
            completed: times.len(),
            total,
        }),
{
    let st = ChugState::fresh(capacity, total);
    lemma_after_ticks(st, times);
    lemma_window_keeps_newest(st.window, capacity, times);
    assert(st.window + times =~= times);
}

/// A new estimator that has seen `m` ticks has an estimate exactly when the
/// window holds at least two time points and fewer than `total` units are
/// done: none with no tick or a single one, none once `total` ticks are in,
/// none when overrun.
pub proof fn lemma_estimate_regimes(capacity: nat, total: nat, times: Seq<u64>)
    ensures
        after_ticks(ChugState::fresh(capacity, total), times).estimate() is Some
            <==> (times.len() >= 2 && capacity >= 2 && times.len() < total),
{
    lemma_fresh_after_ticks(capacity, total, times);
}

/// The summed gaps of time points spaced `k` apart are `k` per gap.
pub proof fn lemma_gap_total_even(s: Seq<u64>, k: nat)
    requires
        s.len() >= 1,
        forall|i: int| 0 < i < s.len() ==> #[trigger] s[i] == s[i - 1] + k,
    ensures
        gap_total(s) == (s.len() - 1) * k,
    decreases s.len(),
{
    if s.len() >= 2 {
        let p = s.drop_last();
        assert forall|i: int| 0 < i < p.len() implies #[trigger] p[i] == p[i - 1] + k by {
            assert(s[i] == s[i - 1] + k);
        }
        lemma_gap_total_even(p, k);
        assert(s[s.len() - 1] == s[s.len() - 2] + k);
        assert(gap(s[s.len() - 2], s.last()) == k);
        assert(gap_total(s) == gap_total(p) + k);
        assert((p.len() - 1) * k + k == (s.len() - 1) * k) by (nonlinear_arith)
            requires p.len() + 1 == s.len();
    } else {
        assert((s.len() - 1) * k == 0) by (nonlinear_arith)
            requires s.len() == 1;
    }
}

/// With ticks spaced `k` milliseconds apart, after `m` ticks (two or more,
/// fewer than `total`) the estimate is the mean spacing over the window's
/// `w = min(capacity, m)` points, `(w - 1) * k / w`, times the `total - m`
/// units left: never more than `k * (total - m)`, and short of it by less
/// than `(k / w + 1) * (total - m)`, the price of dividing by `w` rather than
/// by `w - 1`.
pub proof fn lemma_even_spacing(capacity: nat, total: nat, times: Seq<u64>, k: nat)
    requires
        capacity >= 2,
        2 <= times.len() < total,
        forall|i: int| 0 < i < times.len() ==> #[trigger] times[i] == times[i - 1] + k,
    ensures
        ({
            let m = times.len();
            let w = if capacity < m { capacity } else { m };
            let left = (total - m) as nat;
            let e = after_ticks(ChugState::fresh(capacity, total), times).estimate();
            &&& e == Some((((w - 1) * k) as nat / w) * left)
            &&& e.unwrap() <= k * left
            &&& w * e.unwrap() + w * left > (w - 1) * k * left
        }),
{
    let m = times.len();
    let w = if capacity < m { capacity } else { m };
    let left = (total - m) as nat;
    lemma_fresh_after_ticks(capacity, total, times);
    let win = keep_newest(times, capacity);
    assert(win.len() == w);
    assert forall|i: int| 0 < i < win.len() implies #[trigger] win[i] == win[i - 1] + k by {
        let off = times.len() - win.len();
        assert(win[i] == times[i + off]);
        assert(win[i - 1] == times[i - 1 + off]);
        assert(times[i + off] == times[i + off - 1] + k);
    }
    lemma_gap_total_even(win, k);
    let g = (((w - 1) * k) as nat) / w;
    assert(mean_gap(win) == g);
    assert(g * left <= k * left && w * (g * left) + w * left > (w - 1) * k * left)
        by (nonlinear_arith)
        requires
            w >= 2,
            g == ((w - 1) * k) / (w as int),
            left >= 1,
            (w - 1) * k >= 0,
    {
        assert(g * w <= (w - 1) * k);
        assert(g * w > (w - 1) * k - w);
        assert(g <= k);
    }
}

/// Estimates the time remaining until a task of `total_work` units is done,
/// from the spacing of the last `max` units completed.
pub struct Chug {
    bucket: LeakyBucket<u64>,
    current_work: usize,
    total_work: usize,
    origin: Instant,
}

impl View for Chug {
    type V = ChugState;

    closed spec fn view(&self) -> ChugState {
        ChugState {
            window: self.bucket@,
            capacity: self.bucket.capacity(),
            completed: self.current_work as nat,
            total: self.total_work as nat,
        }
    }
}

impl Chug {
    /// The window of time points stays within its capacity.
    pub closed spec fn wf(self) -> bool {
        self.bucket.wf()
    }

    /// Creates an estimator that averages over the last `max` units of work,
    /// for a task of `total_work` units.
    pub fn new(max: usize, total_work: usize) -> (r: Self)
        ensures
            r.wf(),
            r@ == ChugState::fresh(max as nat, total_work as nat),
    {
        Chug { bucket: LeakyBucket::new(max), current_work: 0, total_work, origin: clock_now() }
    }

    /// Records that a unit of work was completed at `now_ms` milliseconds on
    /// the estimator's clock.
    pub fn tick_at(&mut self, now_ms: u64)
        requires
            old(self).wf(),
            old(self)@.completed < usize::MAX,
        ensures
            final(self).wf(),
            final(self)@ == old(self)@.ticked(now_ms),
    {
        self.current_work = self.current_work + 1;
        self.bucket.insert(now_ms);
    }

    /// Records that a unit of work was completed now.
    pub fn tick(&mut self)
        requires
            old(self).wf(),
            old(self)@.completed < usize::MAX,
        ensures
            final(self).wf(),
            exists|now_ms: u64| final(self)@ == #[trigger] old(self)@.ticked(now_ms),
    {
        let elapsed = millis_since(&self.origin);
        let now_ms: u64 = if elapsed > u64::MAX as u128 {
            u64::MAX
        } else {
            elapsed as u64
        };
        self.tick_at(now_ms);
    }

    /// The estimated milliseconds left, saturated at `u64::MAX`.
    fn eta_millis(&self) -> (r: Option<u64>)
        ensures
            r == self@.eta_millis(),
    {
        let n: usize = self.bucket.len();
        if n < 2 {
            return None;
        }
        let items = self.bucket.items();
        let sum = sum_of_gaps(items);
        proof {
            lemma_gap_total_bound(items@);
            assert(sum as int / n as int <= u64::MAX) by (nonlinear_arith)
                requires sum as int <= (n - 1) * (u64::MAX as int), n >= 2;
        }
        let average_between: u128 = sum / (n as u128);
        if self.current_work >= self.total_work {
            return None;
        }
        let remaining: usize = self.total_work - self.current_work;
        proof {
            assert(average_between as int * remaining as int <= u64::MAX as int * u64::MAX as int)
                by (nonlinear_arith)
                requires average_between <= u64::MAX, remaining <= u64::MAX;
        }
        let eta: u128 = average_between * (remaining as u128);
        if eta > u64::MAX as u128 {
            Some(u64::MAX)
        } else {
            Some(eta as u64)
        }
    }

    /// Estimates the time remaining until the work is done: the mean spacing
    /// of the recorded completion times (summed gaps divided by the number of
    /// time points) times the units left. `None` while fewer than two units
    /// are recorded, and once the work is done or overrun. The estimate
    /// saturates at `u64::MAX` milliseconds. Reading it changes nothing.
    pub fn eta(&self) -> (r: Option<Duration>)
        ensures
            r == self@.eta(),
    {
        match self.eta_millis() {
            Some(ms) => Some(duration_from_millis(ms)),
            None => None,
        }
    }
}

} // verus!
