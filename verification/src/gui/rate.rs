//! The input-rate classifier and the scheduling table it selects from.
//!
//! Times are nanoseconds on a clock that does not run backwards.

use crate::gui::view::{elapsed, elapsed_since};
use std::collections::VecDeque;
use vstd::prelude::*;

verus! {

/// The most samples the window holds.
pub const SAMPLE_LIMIT: usize = 10;

/// The age, in nanoseconds, beyond which a sample leaves the window.
pub const SAMPLE_WINDOW: u64 = 2_000_000_000;

/// The samples needed before the rate is classified.
pub const MIN_SAMPLES: usize = 3;

/// A mean interval above this many nanoseconds is slow.
pub const SLOW_INTERVAL: u64 = 100_000_000;

/// A mean interval above this many nanoseconds, and not slow, is medium.
pub const MEDIUM_INTERVAL: u64 = 10_000_000;

/// A mean interval above this many nanoseconds, and not medium, is fast;
/// at or below it the rate is extreme.
pub const FAST_INTERVAL: u64 = 1_000_000;

/// How fast updates arrive.
#[derive(Clone, Copy, Debug, PartialEq, Eq, Structural)]
pub enum InputRateCategory {
    Slow,
    Medium,
    Fast,
    Extreme,
}

/// How a batch of updates is applied.
#[derive(Clone, Copy, Debug, PartialEq, Eq, Structural)]
pub enum ProcessingStrategy {
    /// Runs of appends are merged, and each update is applied in turn.
    Incremental,
    /// The batch is reduced to one full rebuild.
    Aggressive,
}

/// Nanoseconds that pass between two rounds of processing.
pub open spec fn processing_window(category: InputRateCategory) -> u64 {
    match category {
        InputRateCategory::Slow => 50_000_000,
        InputRateCategory::Medium => 200_000_000,
        InputRateCategory::Fast => 500_000_000,
        InputRateCategory::Extreme => 1_000_000_000,
    }
}

/// The most updates taken from the queue in one tick.
pub open spec fn max_batch_size(category: InputRateCategory) -> usize {
    match category {
        InputRateCategory::Slow => 5,
        InputRateCategory::Medium => 15,
        InputRateCategory::Fast => 50,
        InputRateCategory::Extreme => 200,
    }
}

/// How a batch is applied at each rate.
pub open spec fn strategy(category: InputRateCategory) -> ProcessingStrategy {
    match category {
        InputRateCategory::Slow => ProcessingStrategy::Incremental,
        InputRateCategory::Medium => ProcessingStrategy::Incremental,
        InputRateCategory::Fast => ProcessingStrategy::Aggressive,
        InputRateCategory::Extreme => ProcessingStrategy::Aggressive,
    }
}

impl InputRateCategory {
    pub fn processing_window(&self) -> (window: u64)
        ensures
            window == processing_window(*self),
    {
        match self {
            InputRateCategory::Slow => 50_000_000,
            InputRateCategory::Medium => 200_000_000,
            InputRateCategory::Fast => 500_000_000,
            InputRateCategory::Extreme => 1_000_000_000,
        }
    }

    pub fn max_batch_size(&self) -> (size: usize)
        ensures
            size == max_batch_size(*self),
    {
        match self {
            InputRateCategory::Slow => 5,
            InputRateCategory::Medium => 15,
            InputRateCategory::Fast => 50,
            InputRateCategory::Extreme => 200,
        }
    }

    pub fn strategy(&self) -> (chosen: ProcessingStrategy)
        ensures
            chosen == strategy(*self),
    {
        match self {
            InputRateCategory::Slow => ProcessingStrategy::Incremental,
            InputRateCategory::Medium => ProcessingStrategy::Incremental,
            InputRateCategory::Fast => ProcessingStrategy::Aggressive,
            InputRateCategory::Extreme => ProcessingStrategy::Aggressive,
        }
    }
}

/// The category of a window that spans `total` nanoseconds over
/// `intervals` intervals, by its mean interval `total / intervals`.
pub open spec fn classify(total: int, intervals: int) -> InputRateCategory {
    if total > SLOW_INTERVAL * intervals {
        InputRateCategory::Slow
    } else if total > MEDIUM_INTERVAL * intervals {
        InputRateCategory::Medium
    } else if total > FAST_INTERVAL * intervals {
        InputRateCategory::Fast
    } else {
        InputRateCategory::Extreme
    }
}

/// The category of updates that arrive every `interval` nanoseconds.
pub open spec fn classify_interval(interval: int) -> InputRateCategory {
    classify(interval, 1)
}

/// The last `SAMPLE_LIMIT` of `samples`.
pub open spec fn keep_recent(samples: Seq<u64>) -> Seq<u64> {
    if samples.len() > SAMPLE_LIMIT {
        samples.subrange(samples.len() - SAMPLE_LIMIT, samples.len() as int)
    } else {
        samples
    }
}

/// `samples` without the leading ones older than `SAMPLE_WINDOW` at `now`.
pub open spec fn drop_stale(samples: Seq<u64>, now: u64) -> Seq<u64>
    decreases samples.len(),
{
    if samples.len() > 0 && elapsed(now, samples[0]) > SAMPLE_WINDOW {
        drop_stale(samples.subrange(1, samples.len() as int), now)
    } else {
        samples
    }
}

/// The recent arrival times, oldest first, and the category last derived
/// from them.
pub struct RateWindow {
    pub samples: Seq<u64>,
    pub category: InputRateCategory,
}

/// The window before any arrival.
pub open spec fn initial_rate_window() -> RateWindow {
    RateWindow { samples: Seq::empty(), category: InputRateCategory::Slow }
}

/// The window after an arrival at `now`: the sample is added, the window is
/// cut to its bounds, and with at least `MIN_SAMPLES` left the category is
/// derived anew.
pub open spec fn observed(window: RateWindow, now: u64) -> RateWindow {
    let samples = drop_stale(keep_recent(window.samples.push(now)), now);
    RateWindow {
        samples,
        category: if samples.len() >= MIN_SAMPLES {
            classify(elapsed(now, samples[0]) as int, samples.len() - 1)
        } else {
            window.category
        },
    }
}

/// The window after arrivals at each of `times`, in order.
pub open spec fn observed_all(window: RateWindow, times: Seq<u64>) -> RateWindow
    decreases times.len(),
{
    if times.len() == 0 {
        window
    } else {
        observed(observed_all(window, times.drop_last()), times.last())
    }
}

/// Classifies the rate at which updates arrive.
pub struct RateClassifier {
    timestamps: VecDeque<u64>,
    category: InputRateCategory,
}

impl View for RateClassifier {
    type V = RateWindow;

    closed spec fn view(&self) -> RateWindow {
        RateWindow { samples: self.timestamps@, category: self.category }
    }
}

/// Names the category of a window that spans `total` nanoseconds over
/// `intervals` intervals.
pub fn classify_window(total: u64, intervals: u64) -> (category: InputRateCategory)
    ensures
        category == classify(total as int, intervals as int),
{
    let span: u128 = total as u128;
    let count: u128 = intervals as u128;
    assert(SLOW_INTERVAL as u128 * count <= 0xffff_ffff_ffff_ffff * 0xffff_ffff_ffff_ffff)
        by (nonlinear_arith)
        requires
            count <= 0xffff_ffff_ffff_ffff,
            SLOW_INTERVAL <= 0xffff_ffff_ffff_ffff,
    ;
    assert(MEDIUM_INTERVAL as u128 * count <= SLOW_INTERVAL as u128 * count) by (nonlinear_arith)
        requires
            MEDIUM_INTERVAL <= SLOW_INTERVAL,
            0 <= count,
    ;
    assert(FAST_INTERVAL as u128 * count <= SLOW_INTERVAL as u128 * count) by (nonlinear_arith)
        requires
            FAST_INTERVAL <= SLOW_INTERVAL,
            0 <= count,
    ;
    if span > SLOW_INTERVAL as u128 * count {
        InputRateCategory::Slow
    } else if span > MEDIUM_INTERVAL as u128 * count {
        InputRateCategory::Medium
    } else if span > FAST_INTERVAL as u128 * count {
        InputRateCategory::Fast
    } else {
        InputRateCategory::Extreme
    }
}

impl RateClassifier {
    /// A classifier that has seen no arrival; the rate counts as slow.
    pub fn new() -> (classifier: RateClassifier)
        ensures
            classifier@ == initial_rate_window(),
    {
        RateClassifier { timestamps: VecDeque::new(), category: InputRateCategory::Slow }
    }

    /// The category last derived.
    pub fn category(&self) -> (category: InputRateCategory)
        ensures
            category == self@.category,
    {
        self.category
    }

    /// The number of samples in the window.
    pub fn sample_count(&self) -> (count: usize)
        ensures
            count == self@.samples.len(),
    {
        self.timestamps.len()
    }

    /// Takes in an arrival at `now`.
    pub fn observe(&mut self, now: u64)
        ensures
            final(self)@ == observed(old(self)@, now),
    {
        self.timestamps.push_back(now);
        let ghost pushed = self.timestamps@;
        proof {
            assert(pushed.subrange(0, pushed.len() as int) =~= pushed);
        }
        while self.timestamps.len() > SAMPLE_LIMIT
            invariant
                self.timestamps@.len() <= pushed.len(),
                self.timestamps@ == pushed.subrange(
                    pushed.len() - self.timestamps@.len(),
                    pushed.len() as int,
                ),
                self.timestamps@.len() >= SAMPLE_LIMIT || self.timestamps@.len() == pushed.len(),
                self.category == old(self).category,
            decreases self.timestamps@.len(),
        {
            self.timestamps.pop_front();
            proof {
                assert(self.timestamps@ =~= pushed.subrange(
                    pushed.len() - self.timestamps@.len(),
                    pushed.len() as int,
                ));
            }
        }
        let ghost recent = self.timestamps@;
        assert(recent == keep_recent(pushed));
        while self.timestamps.len() > 0 && elapsed_since(now, self.timestamps[0]) > SAMPLE_WINDOW
            invariant
                self.timestamps@.len() <= SAMPLE_LIMIT,
                drop_stale(recent, now) == drop_stale(self.timestamps@, now),
                self.category == old(self).category,
            decreases self.timestamps@.len(),
        {
            let ghost before = self.timestamps@;
            self.timestamps.pop_front();
            proof {
                assert(self.timestamps@ =~= before.subrange(1, before.len() as int));
            }
        }
        if self.timestamps.len() >= MIN_SAMPLES {
            let total = elapsed_since(now, self.timestamps[0]);
            let intervals: u64 = (self.timestamps.len() - 1) as u64;
            self.category = classify_window(total, intervals);
        }
    }
}

/// The mean interval of a window of evenly spaced samples is the spacing:
/// `intervals` intervals of `interval` nanoseconds each classify as
/// `interval` does.
pub proof fn lemma_even_spacing_classifies_by_interval(interval: int, intervals: int)
    requires
        interval >= 0,
        intervals >= 1,
    ensures
        classify(interval * intervals, intervals) == classify_interval(interval),
{
    assert(interval * intervals > SLOW_INTERVAL * intervals <==> interval > SLOW_INTERVAL)
        by (nonlinear_arith)
        requires
            intervals >= 1,
    ;
    assert(interval * intervals > MEDIUM_INTERVAL * intervals <==> interval > MEDIUM_INTERVAL)
        by (nonlinear_arith)
        requires
            intervals >= 1,
    ;
    assert(interval * intervals > FAST_INTERVAL * intervals <==> interval > FAST_INTERVAL)
        by (nonlinear_arith)
        requires
            intervals >= 1,
    ;
}

/// The time of the arrival number `index` of a steady cadence.
pub open spec fn cadence_time(start: int, interval: int, index: int) -> int {
    start + index * interval
}

/// The arrival times of a steady cadence: `count` arrivals, the first at
/// `start`, each `interval` nanoseconds after the one before.
pub open spec fn cadence(start: u64, interval: u64, count: nat) -> Seq<u64> {
    Seq::new(count, |i: int| cadence_time(start as int, interval as int, i) as u64)
}

/// What holds of the window after `seen` arrivals of a steady cadence: it
/// holds the last arrivals, as many as its bounds allow, and once three
/// arrivals were seen the category is that of the interval.
pub open spec fn steady_window(window: RateWindow, start: int, interval: int, seen: int) -> bool {
    let held = window.samples.len() as int;
    &&& 1 <= held <= SAMPLE_LIMIT
    &&& held <= seen
    &&& forall|j: int|
        0 <= j < held ==> (#[trigger] window.samples[j]) as int == cadence_time(
            start,
            interval,
            seen - held + j,
        )
    &&& (held == seen || held == SAMPLE_LIMIT || held * interval > SAMPLE_WINDOW)
    &&& (window.category == InputRateCategory::Slow || window.category == classify_interval(
        interval,
    ))
    &&& (seen >= 3 ==> window.category == classify_interval(interval))
}

proof fn lemma_cadence_time_diff(start: int, interval: int, later: int, earlier: int)
    ensures
        cadence_time(start, interval, later) - cadence_time(start, interval, earlier) == (later
            - earlier) * interval,
{
    assert(later * interval - earlier * interval == (later - earlier) * interval)
        by (nonlinear_arith);
}

proof fn lemma_product_grows(a: int, b: int, interval: int)
    requires
        0 <= a <= b,
        0 <= interval,
    ensures
        a * interval <= b * interval,
        0 <= a * interval,
{
    assert(a * interval <= b * interval) by (nonlinear_arith)
        requires
            0 <= a <= b,
            0 <= interval,
    ;
    assert(0 <= a * interval) by (nonlinear_arith)
        requires
            0 <= a,
            0 <= interval,
    ;
}

/// One more arrival of a steady cadence keeps the window steady.
proof fn lemma_steady_step(window: RateWindow, start: int, interval: int, seen: int, now: u64)
    requires
        0 <= start,
        0 <= interval,
        0 <= seen,
        now as int == cadence_time(start, interval, seen),
        if seen == 0 {
            window == initial_rate_window()
        } else {
            steady_window(window, start, interval, seen)
        },
    ensures
        steady_window(observed(window, now), start, interval, seen + 1),
{
    let held = window.samples.len() as int;
    let pushed = window.samples.push(now);
    let recent = keep_recent(pushed);
    let fresh = recent.len() as int;
    assert(1 <= fresh <= SAMPLE_LIMIT && fresh <= seen + 1);
    assert forall|j: int| 0 <= j < fresh implies (#[trigger] recent[j]) as int == cadence_time(
        start,
        interval,
        seen + 1 - fresh + j,
    ) by {
        if pushed.len() > SAMPLE_LIMIT {
            assert(recent[j] == pushed[j + 1]);
            if j + 1 < held {
                assert(pushed[j + 1] == window.samples[j + 1]);
            }
        } else {
            if j < held {
                assert(pushed[j] == window.samples[j]);
            }
        }
    }
    assert(fresh == seen + 1 || fresh == SAMPLE_LIMIT || fresh * interval > SAMPLE_WINDOW) by {
        if seen > 0 && held != seen && held != SAMPLE_LIMIT {
            lemma_product_grows(held, held + 1, interval);
        }
    }
    // The window as the times of a cadence that starts at time zero.
    let first = seen + 1 - fresh;
    assert forall|j: int| 0 <= j < fresh implies (#[trigger] recent[j]) as int == cadence_time(
        0,
        interval,
        first + j,
    ) + start by {}
    lemma_drop_stale_shift(recent, now, start, interval, first);
    let samples = drop_stale(recent, now);
    let kept = samples.len() as int;
    assert forall|j: int| 0 <= j < kept implies (#[trigger] samples[j]) as int == cadence_time(
        start,
        interval,
        seen + 1 - kept + j,
    ) by {
        assert(samples[j] == recent[fresh - kept + j]);
    }
    assert(kept == seen + 1 || kept == SAMPLE_LIMIT || kept * interval > SAMPLE_WINDOW);
    lemma_cadence_time_diff(start, interval, seen, seen + 1 - kept);
    lemma_product_grows(0, kept - 1, interval);
    assert(elapsed(now, samples[0]) as int == (kept - 1) * interval);
    if kept >= MIN_SAMPLES {
        lemma_even_spacing_classifies_by_interval(interval, kept - 1);
        assert(interval * (kept - 1) == (kept - 1) * interval) by (nonlinear_arith);
    } else if seen + 1 >= 3 {
        assert(kept * interval > SAMPLE_WINDOW);
        assert(interval > SLOW_INTERVAL) by (nonlinear_arith)
            requires
                kept * interval > 2_000_000_000,
                1 <= kept <= 2,
                0 <= interval,
        ;
        assert(classify_interval(interval) == InputRateCategory::Slow);
    }
}

/// Dropping stale samples looks at time differences only.
proof fn lemma_drop_stale_shift(recent: Seq<u64>, now: u64, start: int, interval: int, first: int)
    requires
        recent.len() >= 1,
        0 <= interval,
        0 <= start,
        0 <= first,
        forall|j: int|
            0 <= j < recent.len() ==> (#[trigger] recent[j]) as int == cadence_time(
                0,
                interval,
                first + j,
            ) + start,
        now as int == cadence_time(0, interval, first + recent.len() - 1) + start,
    ensures
        1 <= drop_stale(recent, now).len() <= recent.len(),
        drop_stale(recent, now) == recent.subrange(
            recent.len() - drop_stale(recent, now).len(),
            recent.len() as int,
        ),
        drop_stale(recent, now).len() < recent.len() ==> drop_stale(recent, now).len() * interval
            > SAMPLE_WINDOW,
    decreases recent.len(),
{
    let len = recent.len() as int;
    lemma_cadence_time_diff(0, interval, first + len - 1, first);
    assert(now as int - recent[0] as int == (len - 1) * interval);
    lemma_product_grows(0, len - 1, interval);
    if elapsed(now, recent[0]) > SAMPLE_WINDOW {
        assert(len >= 2) by {
            if len == 1 {
                assert((len - 1) * interval == 0) by (nonlinear_arith)
                    requires
                        len == 1,
                ;
            }
        }
        let rest = recent.subrange(1, len);
        assert forall|j: int| 0 <= j < rest.len() implies (#[trigger] rest[j]) as int
            == cadence_time(0, interval, first + 1 + j) + start by {
            assert(rest[j] == recent[j + 1]);
        }
        lemma_drop_stale_shift(rest, now, start, interval, first + 1);
        let kept = drop_stale(rest, now);
        assert(kept =~= recent.subrange(len - kept.len(), len));
        if kept.len() == len - 1 {
            assert(kept.len() * interval == (len - 1) * interval);
        }
    } else {
        assert(recent =~= recent.subrange(0, len));
    }
}

/// The window stays steady through all the arrivals of a steady cadence.
proof fn lemma_cadence_keeps_steady(start: u64, interval: u64, count: nat)
    requires
        count >= 1,
        start + (count - 1) * interval <= u64::MAX,
    ensures
        steady_window(
            observed_all(initial_rate_window(), cadence(start, interval, count)),
            start as int,
            interval as int,
            count as int,
        ),
    decreases count,
{
    let times = cadence(start, interval, count);
    let before = cadence(start, interval, (count - 1) as nat);
    lemma_product_grows(0, count - 1, interval as int);
    assert(times.drop_last() =~= before);
    assert(times.last() as int == cadence_time(start as int, interval as int, count - 1));
    if count > 1 {
        lemma_product_grows(count - 2, count - 1, interval as int);
        lemma_cadence_keeps_steady(start, interval, (count - 1) as nat);
    }
    lemma_steady_step(
        observed_all(initial_rate_window(), before),
        start as int,
        interval as int,
        count - 1,
        times.last(),
    );
}

/// Updates that arrive at a steady cadence are classified by the interval
/// of the cadence: once three have arrived, the category is the one that
/// the table gives for a mean interval equal to the interval of the cadence.
pub proof fn lemma_steady_cadence_classifies(start: u64, interval: u64, count: nat)
    requires
        count >= 3,
        start + (count - 1) * interval <= u64::MAX,
    ensures
        observed_all(initial_rate_window(), cadence(start, interval, count)).category
            == classify_interval(interval as int),
{
    lemma_cadence_keeps_steady(start, interval, count);
}

} // verus!
