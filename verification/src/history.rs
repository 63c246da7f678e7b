//! The rolling history of samples: a queue in which new samples enter at the
//! tail and samples older than the window leave at the head.
//!
//! Times are wall-clock instants in milliseconds since the Unix epoch. CPU
//! usage is kept in thousandths of a percent and temperature in thousandths
//! of a degree Celsius, so that a sample is made of integers only.

use crate::clock::now_millis;
use std::collections::VecDeque;
use vstd::prelude::*;

verus! {

/// The time that a sample stays in the history, by default: 15 minutes.
pub const WINDOW_MS: u64 = 900_000;

/// The time between two samples of one session: 2 seconds.
pub const SAMPLE_PERIOD_MS: u64 = 2_000;

/// The largest CPU usage: 100 percent, in thousandths of a percent.
pub const FULL_LOAD: u32 = 100_000;

/// One sample of the host's sensors.
#[derive(Clone, Copy, Debug, PartialEq, Eq, Structural)]
pub struct DataPoint {
    /// When the sample was taken, in milliseconds since the Unix epoch.
    pub timestamp: i64,
    /// CPU usage in thousandths of a percent.
    pub cpu_usage: u32,
    /// Temperature in thousandths of a degree Celsius, 0 if unreadable.
    pub temperature: u32,
    /// Fan speed in revolutions per minute, 0 if unreadable.
    pub fan_speed: u32,
}

/// Whether the timestamps of `points` never go down from one point to the
/// next.
pub open spec fn ordered(points: Seq<DataPoint>) -> bool {
    forall|i: int, j: int|
        0 <= i <= j < points.len() ==> (#[trigger] points[i]).timestamp <= (
        #[trigger] points[j]).timestamp
}

/// `points` without the points at its head that are older than `cutoff`:
/// points are dropped from the head for as long as the head's timestamp is
/// less than `cutoff`.
pub open spec fn expire(points: Seq<DataPoint>, cutoff: int) -> Seq<DataPoint>
    decreases points.len(),
{
    if points.len() > 0 && points.first().timestamp < cutoff {
        expire(points.drop_first(), cutoff)
    } else {
        points
    }
}

/// The history after `point` was appended to `points` at the instant `now`,
/// with a window of `window` milliseconds.
pub open spec fn appended(points: Seq<DataPoint>, point: DataPoint, now: int, window: int) -> Seq<
    DataPoint,
> {
    expire(points.push(point), now - window)
}

/// The time-bounded history of samples, oldest first.
pub struct MetricsHistory {
    points: VecDeque<DataPoint>,
    window: u64,
}

impl View for MetricsHistory {
    type V = Seq<DataPoint>;

    closed spec fn view(&self) -> Seq<DataPoint> {
        self.points@
    }
}

impl MetricsHistory {
    /// The time that a sample stays in this history, in milliseconds.
    pub closed spec fn window(&self) -> int {
        self.window as int
    }

    /// An empty history with the default window.
    pub fn new() -> (history: MetricsHistory)
        ensures
            history@ == Seq::<DataPoint>::empty(),
            history.window() == WINDOW_MS,
    {
        MetricsHistory { points: VecDeque::new(), window: WINDOW_MS }
    }

    /// An empty history that keeps samples for `window` milliseconds.
    pub fn with_window(window: u64) -> (history: MetricsHistory)
        ensures
            history@ == Seq::<DataPoint>::empty(),
            history.window() == window,
    {
        MetricsHistory { points: VecDeque::new(), window }
    }

    /// The number of samples in the history.
    pub fn len(&self) -> (n: usize)
        ensures
            n == self@.len(),
    {
        self.points.len()
    }

    /// Whether the history holds no sample.
    pub fn is_empty(&self) -> (empty: bool)
        ensures
            empty == (self@.len() == 0),
    {
        self.points.len() == 0
    }

    /// Appends `point` at the tail, then drops from the head every sample
    /// whose timestamp is more than the window before `now`, until the head
    /// is a sample that is not. Where the timestamps of the history never go
    /// down and `point` is not older than the last sample, that stays so, and
    /// afterwards no sample is more than the window older than `now`.
    pub fn append(&mut self, point: DataPoint, now: i64)
        ensures
            final(self)@ == appended(old(self)@, point, now as int, old(self).window()),
            final(self).window() == old(self).window(),
            final(self)@.len() > 0 ==> final(self)@.first().timestamp >= now - old(self).window(),
            final(self)@.len() <= old(self)@.len() + 1,
            ordered(old(self)@) && (old(self)@.len() > 0 ==> old(self)@.last().timestamp
                <= point.timestamp) ==> ordered(final(self)@) && fresh(
                final(self)@,
                now - old(self).window(),
            ),
    {
        let ghost cutoff = now as int - self.window as int;
        proof {
            if ordered(self@) && (self@.len() > 0 ==> self@.last().timestamp <= point.timestamp) {
                lemma_append_ordered(self@, point, now as int, self.window());
            }
        }
        self.points.push_back(point);
        let ghost pushed = self.points@;
        while self.points.len() > 0 && (self.points[0].timestamp as i128) < (now as i128) - (
        self.window as i128)
            invariant
                self.window == old(self).window,
                cutoff == now as int - self.window as int,
                expire(pushed, cutoff) == expire(self.points@, cutoff),
                self.points@.len() <= pushed.len(),
            decreases self.points@.len(),
        {
            let ghost before = self.points@;
            let _ = self.points.pop_front();
            assert(self.points@ =~= before.drop_first());
        }
    }

    /// A copy of the samples, oldest first.
    pub fn snapshot(&self) -> (points: Vec<DataPoint>)
        ensures
            points@ == self@,
    {
        let n: usize = self.points.len();
        let mut points: Vec<DataPoint> = Vec::new();
        let mut i: usize = 0;
        while i < n
            invariant
                n == self.points@.len(),
                i <= n,
                points@ == self.points@.take(i as int),
            decreases n - i,
        {
            points.push(self.points[i]);
            i = i + 1;
            assert(points@ =~= self.points@.take(i as int));
        }
        assert(self.points@.take(n as int) =~= self.points@);
        points
    }
}

/// Takes a sample with the given readings at the present instant and appends
/// it to `history`. Returns the instant, which is the sample's timestamp.
pub fn store_metrics_data(
    history: &mut MetricsHistory,
    cpu_usage: u32,
    temperature: u32,
    fan_speed: u32,
) -> (now: i64)
    ensures
        final(history)@ == appended(
            old(history)@,
            (DataPoint { timestamp: now, cpu_usage, temperature, fan_speed }),
            now as int,
            old(history).window(),
        ),
        final(history).window() == old(history).window(),
        final(history)@.len() > 0,
        final(history)@.last() == (DataPoint { timestamp: now, cpu_usage, temperature, fan_speed }),
{
    let now = now_millis();
    let point = DataPoint { timestamp: now, cpu_usage, temperature, fan_speed };
    proof {
        lemma_append_keeps_point(old(history)@, point, now as int, old(history).window());
    }
    history.append(point, now);
    now
}

/// A copy of the samples in `history`, oldest first.
pub fn get_metrics_history(history: &MetricsHistory) -> (points: Vec<DataPoint>)
    ensures
        points@ == history@,
{
    history.snapshot()
}

/// Expiry drops a run of points at the head, all of them older than
/// `cutoff`, and stops at the first point that is not.
pub proof fn lemma_expire_is_suffix(points: Seq<DataPoint>, cutoff: int) -> (k: int)
    ensures
        0 <= k <= points.len(),
        expire(points, cutoff) == points.skip(k),
        forall|i: int| 0 <= i < k ==> (#[trigger] points[i]).timestamp < cutoff,
        k < points.len() ==> points[k].timestamp >= cutoff,
    decreases points.len(),
{
    if points.len() > 0 && points.first().timestamp < cutoff {
        let rest = points.drop_first();
        let k = lemma_expire_is_suffix(rest, cutoff);
        assert(rest.skip(k) =~= points.skip(k + 1));
        assert forall|i: int| 0 <= i < k + 1 implies (#[trigger] points[i]).timestamp < cutoff by {
            if i > 0 {
                assert(points[i] == rest[i - 1]);
            }
        }
        if k < rest.len() {
            assert(points[k + 1] == rest[k]);
        }
        k + 1
    } else {
        assert(points.skip(0) =~= points);
        0
    }
}

/// Whether no point of `points` is older than `cutoff`.
pub open spec fn fresh(points: Seq<DataPoint>, cutoff: int) -> bool {
    forall|i: int| 0 <= i < points.len() ==> (#[trigger] points[i]).timestamp >= cutoff
}

/// In a history whose timestamps never go down, expiry leaves no point older
/// than `cutoff`, and the timestamps still never go down.
pub proof fn lemma_expire_ordered(points: Seq<DataPoint>, cutoff: int)
    requires
        ordered(points),
    ensures
        ordered(expire(points, cutoff)),
        fresh(expire(points, cutoff), cutoff),
{
    let k = lemma_expire_is_suffix(points, cutoff);
    let kept = expire(points, cutoff);
    assert forall|i: int| 0 <= i < kept.len() implies (#[trigger] kept[i]).timestamp >= cutoff by {
        assert(kept[i] == points[k + i]);
        assert(points[k].timestamp <= points[k + i].timestamp);
    }
    assert forall|i: int, j: int| 0 <= i <= j < kept.len() implies (#[trigger] kept[i]).timestamp
        <= (#[trigger] kept[j]).timestamp by {
        assert(kept[i] == points[k + i]);
        assert(kept[j] == points[k + j]);
    }
}

/// Where the timestamps of the history never go down and the new point is
/// not older than the last one, then after the append the timestamps still
/// never go down, and no point is more than the window older than `now`.
pub proof fn lemma_append_ordered(points: Seq<DataPoint>, point: DataPoint, now: int, window: int)
    requires
        ordered(points),
        points.len() > 0 ==> points.last().timestamp <= point.timestamp,
    ensures
        ordered(appended(points, point, now, window)),
        fresh(appended(points, point, now, window), now - window),
{
    let pushed = points.push(point);
    assert forall|i: int, j: int| 0 <= i <= j < pushed.len() implies (
    #[trigger] pushed[i]).timestamp <= (#[trigger] pushed[j]).timestamp by {
        if j == points.len() && i < points.len() {
            assert(pushed[i] == points[i]);
            assert(points[i].timestamp <= points.last().timestamp);
        } else if j < points.len() {
            assert(pushed[i] == points[i]);
            assert(pushed[j] == points[j]);
        }
    }
    lemma_expire_ordered(pushed, now - window);
}

/// A point that is not older than the window stays in the history as its
/// last point when it is appended.
pub proof fn lemma_append_keeps_point(
    points: Seq<DataPoint>,
    point: DataPoint,
    now: int,
    window: int,
)
    requires
        point.timestamp >= now - window,
    ensures
        appended(points, point, now, window).len() > 0,
        appended(points, point, now, window).last() == point,
{
    let pushed = points.push(point);
    let k = lemma_expire_is_suffix(pushed, now - window);
    if k == pushed.len() {
        assert(pushed[k - 1].timestamp < now - window);
    }
}

/// The history after each of `points` was appended in turn to an empty
/// history, each at the instant of its own timestamp.
pub open spec fn replay(points: Seq<DataPoint>, window: int) -> Seq<DataPoint>
    decreases points.len(),
{
    if points.len() == 0 {
        Seq::empty()
    } else {
        appended(
            replay(points.drop_last(), window),
            points.last(),
            points.last().timestamp as int,
            window,
        )
    }
}

/// Whatever the producers and however their samples interleave, the
/// history holds a run of the latest samples in the order in which they were
/// appended: it never holds more samples than were appended, and with a
/// window that is not negative the latest sample is always there.
pub proof fn lemma_replay_is_suffix(points: Seq<DataPoint>, window: int) -> (k: int)
    ensures
        0 <= k <= points.len(),
        replay(points, window) == points.skip(k),
        replay(points, window).len() <= points.len(),
        window >= 0 && points.len() > 0 ==> k < points.len(),
    decreases points.len(),
{
    if points.len() == 0 {
        assert(points.skip(0) =~= points);
        0
    } else {
        let before = points.drop_last();
        let first = lemma_replay_is_suffix(before, window);
        let pushed = before.skip(first).push(points.last());
        assert(pushed =~= points.skip(first));
        let cutoff = points.last().timestamp - window;
        let dropped = lemma_expire_is_suffix(pushed, cutoff);
        assert(pushed.skip(dropped) =~= points.skip(first + dropped));
        if window >= 0 && first + dropped == points.len() {
            assert(pushed[dropped - 1] == points.last());
        }
        first + dropped
    }
}

/// Where the instants of the appended samples never go back, the timestamps
/// of the history never go down, and no sample in it is more than the window
/// older than the latest one.
pub proof fn lemma_replay_ordered(points: Seq<DataPoint>, window: int)
    requires
        ordered(points),
        points.len() > 0,
    ensures
        ordered(replay(points, window)),
        fresh(replay(points, window), points.last().timestamp - window),
{
    let before = points.drop_last();
    let first = lemma_replay_is_suffix(before, window);
    let pushed = before.skip(first).push(points.last());
    assert(pushed =~= points.skip(first));
    assert forall|i: int, j: int| 0 <= i <= j < pushed.len() implies (
    #[trigger] pushed[i]).timestamp <= (#[trigger] pushed[j]).timestamp by {
        assert(pushed[i] == points[first + i]);
        assert(pushed[j] == points[first + j]);
    }
    lemma_expire_ordered(pushed, points.last().timestamp - window);
}

/// Whether each point of `points` comes at least `lo` and at most `hi`
/// milliseconds after the one before: the samples of one session whose
/// sleep and work between two ticks take that long.
pub open spec fn gaps_within(points: Seq<DataPoint>, lo: int, hi: int) -> bool {
    forall|i: int|
        0 <= i < points.len() - 1 ==> lo <= (#[trigger] points[i + 1]).timestamp
            - points[i].timestamp <= hi
}

/// Between two points of a run with bounded gaps lie as many gaps as there
/// are steps from the one to the other.
pub proof fn lemma_gap_span(points: Seq<DataPoint>, lo: int, hi: int, i: int, j: int)
    requires
        gaps_within(points, lo, hi),
        0 <= i <= j < points.len(),
    ensures
        (j - i) * lo <= points[j].timestamp - points[i].timestamp <= (j - i) * hi,
    decreases j - i,
{
    if i < j {
        let m = j - 1;
        lemma_gap_span(points, lo, hi, i, m);
        assert(lo <= points[m + 1].timestamp - points[m].timestamp <= hi);
        assert((m - i) * lo + lo == (j - i) * lo) by (nonlinear_arith)
            requires
                m == j - 1,
        ;
        assert((m - i) * hi + hi == (j - i) * hi) by (nonlinear_arith)
            requires
                m == j - 1,
        ;
    } else {
        assert((j - i) * lo == 0 && (j - i) * hi == 0) by (nonlinear_arith)
            requires
                i == j,
        ;
    }
}

/// Where the instants of the appended samples never go back, the history
/// has dropped exactly the samples that are more than the window older than
/// the latest one: it holds the run of samples from the first that is not.
pub proof fn lemma_replay_drops_stale(points: Seq<DataPoint>, window: int) -> (k: int)
    requires
        ordered(points),
    ensures
        0 <= k <= points.len(),
        replay(points, window) == points.skip(k),
        points.len() > 0 ==> forall|i: int|
            0 <= i < k ==> (#[trigger] points[i]).timestamp < points.last().timestamp - window,
        k < points.len() ==> points[k].timestamp >= points.last().timestamp - window,
    decreases points.len(),
{
    if points.len() == 0 {
        assert(points.skip(0) =~= points);
        0
    } else {
        let before = points.drop_last();
        assert forall|i: int, j: int| 0 <= i <= j < before.len() implies (
        #[trigger] before[i]).timestamp <= (#[trigger] before[j]).timestamp by {
            assert(before[i] == points[i]);
            assert(before[j] == points[j]);
        }
        let first = lemma_replay_drops_stale(before, window);
        let pushed = before.skip(first).push(points.last());
        assert(pushed =~= points.skip(first));
        let cutoff = points.last().timestamp - window;
        let dropped = lemma_expire_is_suffix(pushed, cutoff);
        assert(pushed.skip(dropped) =~= points.skip(first + dropped));
        let k = first + dropped;
        assert forall|i: int| 0 <= i < k implies (#[trigger] points[i]).timestamp < cutoff by {
            if i < first {
                assert(points[i] == before[i]);
                assert(before.last() == points[points.len() - 2]);
                assert(points[points.len() - 2].timestamp <= points[points.len() - 1].timestamp);
            } else {
                assert(points[i] == pushed[i - first]);
            }
        }
        if k < points.len() {
            assert(points[k] == pushed[dropped]);
        }
        k
    }
}

/// The number of samples that the history holds after one session appended
/// `points`, each at least `lo` and at most `hi` milliseconds after the one
/// before: at most `window / lo + 1`, and at least `window / hi + 1` once so
/// many were appended, all of them before.
pub proof fn lemma_replay_count_bounds(points: Seq<DataPoint>, lo: int, hi: int, window: int)
    requires
        0 < lo <= hi,
        window >= 0,
        gaps_within(points, lo, hi),
    ensures
        replay(points, window).len() <= window / lo + 1,
        points.len() <= window / hi + 1 ==> replay(points, window).len() == points.len(),
        points.len() > window / hi + 1 ==> replay(points, window).len() >= window / hi + 1,
{
    let n = points.len() as int;
    assert forall|i: int, j: int| 0 <= i <= j < points.len() implies (
    #[trigger] points[i]).timestamp <= (#[trigger] points[j]).timestamp by {
        lemma_gap_span(points, lo, hi, i, j);
        assert((j - i) * lo >= 0) by (nonlinear_arith)
            requires
                j - i >= 0,
                lo > 0,
        ;
    }
    let k = lemma_replay_drops_stale(points, window);
    let m = n - k;
    assert(replay(points, window).len() == m);
    assert(window / lo >= 0 && window / hi >= 0) by (nonlinear_arith)
        requires
            window >= 0,
            0 < lo <= hi,
    ;
    if k < n {
        lemma_gap_span(points, lo, hi, k, n - 1);
        assert((m - 1) * lo <= window);
        assert(m - 1 <= window / lo) by (nonlinear_arith)
            requires
                (m - 1) * lo <= window,
                lo > 0,
                m >= 1,
                window >= 0,
        ;
    }
    if k > 0 {
        lemma_gap_span(points, lo, hi, k - 1, n - 1);
        assert(points[k - 1].timestamp < points.last().timestamp - window);
        assert(window < m * hi);
        assert(m >= window / hi + 1) by (nonlinear_arith)
            requires
                window < m * hi,
                hi > 0,
                window >= 0,
        ;
    }
}

/// Whether `points` were sampled at a fixed cadence: the first at `start`,
/// each next one `period` milliseconds after the one before.
pub open spec fn evenly_spaced(points: Seq<DataPoint>, start: int, period: int) -> bool {
    forall|i: int| 0 <= i < points.len() ==> (#[trigger] points[i]).timestamp == start + i * period
}

/// The number of samples that a history with `window` holds at most when
/// they come `period` milliseconds apart.
pub open spec fn capacity(window: int, period: int) -> int {
    window / period + 1
}

/// The last `count` points of `points`, or all of them where there are fewer.
pub open spec fn last_points(points: Seq<DataPoint>, count: int) -> Seq<DataPoint> {
    if count >= points.len() {
        points
    } else {
        points.skip(points.len() - count)
    }
}

/// After samples were appended at a fixed cadence by one producer alone,
/// the history holds exactly the last `capacity(window, period)` of them, or
/// all of them where there are fewer.
pub proof fn lemma_replay_evenly_spaced(
    points: Seq<DataPoint>,
    start: int,
    period: int,
    window: int,
)
    requires
        period > 0,
        window >= 0,
        evenly_spaced(points, start, period),
    ensures
        replay(points, window) == last_points(points, capacity(window, period)),
    decreases points.len(),
{
    let n = points.len() as int;
    let m = capacity(window, period);
    assert(m >= 1) by (nonlinear_arith)
        requires
            m == window / period + 1,
            window >= 0,
            period > 0,
    ;
    if n > 0 {
        let before = points.drop_last();
        lemma_replay_evenly_spaced(before, start, period, window);
        let kept = last_points(before, m);
        let first = if m >= n - 1 {
            0
        } else {
            n - 1 - m
        };
        assert(kept == before.skip(first)) by {
            assert(before.skip(0) =~= before);
        }
        let pushed = kept.push(points.last());
        assert(pushed =~= points.skip(first));
        let cutoff = points.last().timestamp - window;
        assert(cutoff == start + (n - 1) * period - window);
        let k = lemma_expire_is_suffix(pushed, cutoff);
        let target = if m >= n {
            0
        } else {
            n - m
        };
        // A point at index `i` is stale exactly when `i < n - m`.
        assert forall|i: int| 0 <= i < n implies ((#[trigger] points[i]).timestamp < cutoff <==> i
            < n - m) by {
            lemma_stale_index(i, n, period, window);
        }
        assert(first + k == target) by {
            if first + k < target {
                assert(pushed[k] == points[first + k]);
            }
            if first + k > target {
                assert(pushed[k - 1] == points[first + k - 1]);
            }
        }
        assert(pushed.skip(k) =~= points.skip(target));
        assert(points.skip(0) =~= points);
    }
}

/// Of `n` samples `period` apart, the one at index `i` is more than `window`
/// older than the last exactly when `i < n - capacity(window, period)`.
pub proof fn lemma_stale_index(i: int, n: int, period: int, window: int)
    requires
        0 <= i < n,
        period > 0,
        window >= 0,
    ensures
        (i * period < (n - 1) * period - window) <==> i < n - capacity(window, period),
{
    let q = window / period;
    let d = n - 1 - i;
    assert(q * period <= window < (q + 1) * period) by (nonlinear_arith)
        requires
            q == window / period,
            period > 0,
            window >= 0,
    ;
    assert((n - 1) * period - i * period == d * period) by (nonlinear_arith)
        requires
            d == n - 1 - i,
    ;
    if d > q {
        assert(d * period >= (q + 1) * period) by (nonlinear_arith)
            requires
                d >= q + 1,
                period > 0,
        ;
    } else {
        assert(d * period <= q * period) by (nonlinear_arith)
            requires
                d <= q,
                period > 0,
        ;
    }
}

/// With the default window, samples that one producer appends at a fixed
/// cadence a little slower than the sample period, as a session does that
/// sleeps for the sample period between two samples, fill the history with
/// exactly the last `WINDOW_MS / SAMPLE_PERIOD_MS` of them.
pub proof fn lemma_replay_default_cadence(points: Seq<DataPoint>, start: int, period: int)
    requires
        period > SAMPLE_PERIOD_MS,
        (WINDOW_MS / SAMPLE_PERIOD_MS - 1) * period <= WINDOW_MS,
        evenly_spaced(points, start, period),
    ensures
        replay(points, WINDOW_MS as int) == last_points(
            points,
            (WINDOW_MS / SAMPLE_PERIOD_MS) as int,
        ),
{
    lemma_replay_evenly_spaced(points, start, period, WINDOW_MS as int);
    let q = WINDOW_MS as int / period;
    assert(q == 449) by (nonlinear_arith)
        requires
            q == 900_000int / period,
            period > 2000,
            449 * period <= 900_000,
    ;
}

} // verus!
