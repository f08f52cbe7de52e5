//! Run-time meters: a latency histogram, a windowed event counter and a
//! stopwatch.

use hdrhistogram::Histogram;
use std::time::Instant;
use vstd::multiset::Multiset;
use vstd::prelude::*;

verus! {

/// Holds the histogram of an outside crate; nothing inside it is visible
/// to the verifier. The field is open to code that reads quantiles from it.
#[verifier::external_body]
pub struct SampleStore {
    pub inner: Histogram<u64>,
}

/// A point in time of the machine's monotonic clock; nothing inside it is
/// visible here.
#[verifier::external_type_specification]
#[verifier::external_body]
pub struct ExInstant(Instant);

/// The samples that a histogram has taken in. The histogram itself keeps
/// their number and, of each, only the bucket it fell in: what is stated
/// here of a histogram reads how many samples there are, never a value
/// among them.
pub uninterp spec fn samples(h: SampleStore) -> Multiset<u64>;

/// Whether a histogram is set to widen its range for a sample beyond it.
pub uninterp spec fn auto_resizes(h: SampleStore) -> bool;

/// The greatest sample that a histogram which resizes itself takes in.
pub const MAX_SAMPLE: u64 = 0x3fff_ffff_ffff_ffff;

/// The count that a histogram reports for its samples: their number, and
/// no more than `u64::MAX`.
pub open spec fn reported_count(held: Multiset<u64>) -> u64 {
    if held.len() <= u64::MAX {
        held.len() as u64
    } else {
        u64::MAX
    }
}

/// Calls `Histogram::new` with 3 significant figures, which it accepts.
/// Trusted: the new histogram holds no samples and resizes itself.
#[verifier::external_body]
fn new_histogram() -> (h: SampleStore)
    ensures
        samples(h) == Multiset::<u64>::empty(),
        auto_resizes(h),
{
    SampleStore { inner: Histogram::<u64>::new(3).unwrap() }
}

/// Calls `Histogram::auto`. Trusted: the samples stay as they are, and
/// the histogram resizes itself from now on exactly if `enabled`.
#[verifier::external_body]
fn set_auto_resize(h: &mut SampleStore, enabled: bool)
    ensures
        samples(*final(h)) == samples(*old(h)),
        auto_resizes(*final(h)) == enabled,
{
    h.inner.auto(enabled)
}

/// Calls `Histogram::record`. Trusted: on success the histogram holds one
/// more sample of `value`; on failure it holds what it held; it fails only
/// for a value beyond its range while it does not resize itself; and whether
/// it resizes itself stays as it is.
#[verifier::external_body]
fn record_sample(h: &mut SampleStore, value: u64) -> (recorded: bool)
    requires
        value <= MAX_SAMPLE,
    ensures
        recorded ==> samples(*final(h)) == samples(*old(h)).insert(value),
        !recorded ==> samples(*final(h)) == samples(*old(h)),
        auto_resizes(*old(h)) ==> recorded,
        auto_resizes(*final(h)) == auto_resizes(*old(h)),
{
    h.inner.record(value).is_ok()
}

/// Calls `Histogram::len`. Trusted: the result is the number of samples,
/// which the histogram counts up to `u64::MAX`.
#[verifier::external_body]
fn sample_count(h: &SampleStore) -> (count: u64)
    ensures
        count == reported_count(samples(*h)),
{
    h.inner.len()
}

/// Calls `Instant::now`. Nothing is known of the result.
#[verifier::external_body]
fn clock_now() -> Instant {
    Instant::now()
}

/// Calls `Instant::elapsed`. Nothing is known of the result.
#[verifier::external_body]
fn clock_elapsed(start: &Instant) -> std::time::Duration {
    start.elapsed()
}

/// Calls `Duration::as_nanos`. Nothing is stated of the result.
#[verifier::external_body]
fn duration_nanos(elapsed: &std::time::Duration) -> u128 {
    elapsed.as_nanos()
}

/// The nanoseconds to record for a measured time: one at least, and no
/// more than a histogram takes in.
pub open spec fn clamp_sample(nanos: u128) -> u64 {
    if nanos < 1 {
        1
    } else if nanos > MAX_SAMPLE {
        MAX_SAMPLE
    } else {
        nanos as u64
    }
}

/// Brings a measured time into the range of samples.
pub fn sample_of(nanos: u128) -> (r: u64)
    ensures
        r == clamp_sample(nanos),
        1 <= r <= MAX_SAMPLE,
{
    if nanos < 1 {
        1
    } else if nanos > MAX_SAMPLE as u128 {
        MAX_SAMPLE
    } else {
        nanos as u64
    }
}

/// Measures the time that passes from its start.
pub struct Stopwatch {
    start: Instant,
}

impl Stopwatch {
    /// Starts measuring now.
    pub fn start() -> Stopwatch {
        Stopwatch { start: clock_now() }
    }

    /// The nanoseconds since the start, as a sample: whatever the clock
    /// says, brought into the range of samples.
    pub fn elapsed_sample(&self) -> (r: u64)
        ensures
            1 <= r <= MAX_SAMPLE,
    {
        let elapsed = clock_elapsed(&self.start);
        sample_of(duration_nanos(&elapsed))
    }
}

/// A histogram of latencies, in nanoseconds.
pub struct LatencyStats {
    histogram: SampleStore,
}

impl View for LatencyStats {
    type V = Multiset<u64>;

    closed spec fn view(&self) -> Multiset<u64> {
        samples(self.histogram)
    }
}

impl LatencyStats {
    /// The histogram resizes itself, so that it has room for every sample.
    pub closed spec fn wf(&self) -> bool {
        auto_resizes(self.histogram)
    }

    /// Latency statistics without samples.
    pub fn new() -> (r: LatencyStats)
        ensures
            r.wf(),
            r@ == Multiset::<u64>::empty(),
    {
        let mut histogram = new_histogram();
        set_auto_resize(&mut histogram, true);
        LatencyStats { histogram }
    }

    /// Takes in one latency.
    pub fn record(&mut self, ns: u64)
        requires
            old(self).wf(),
            ns <= MAX_SAMPLE,
        ensures
            final(self).wf(),
            final(self)@ == old(self)@.insert(ns),
    {
        record_sample(&mut self.histogram, ns);
    }

    /// How many latencies have been taken in.
    pub fn count(&self) -> (r: u64)
        ensures
            r == reported_count(self@),
    {
        sample_count(&self.histogram)
    }

    /// The histogram itself, for what reads quantiles from it.
    pub fn histogram(&self) -> (r: &SampleStore)
        ensures
            samples(*r) == self@,
    {
        &self.histogram
    }
}

impl Default for LatencyStats {
    fn default() -> (r: LatencyStats)
        ensures
            r.wf(),
            r@ == Multiset::<u64>::empty(),
    {
        LatencyStats::new()
    }
}

/// The events counted in a window that has closed, and how long the
/// window was open.
#[derive(Debug, Clone, Copy, PartialEq, Eq, Structural)]
pub struct WindowCount {
    pub events: u64,
    pub elapsed_ns: u64,
}

/// Counts events in windows of a set length. The caller reads the clock
/// and passes the time in.
#[derive(Debug, Clone, Copy, PartialEq, Eq, Structural)]
pub struct ThroughputTracker {
    pub window_ns: u64,
    pub window_start_ns: u64,
    pub count: u64,
}

impl ThroughputTracker {
    /// A tracker whose first window opens at `now_ns`.
    pub fn new(window_ns: u64, now_ns: u64) -> (r: ThroughputTracker)
        ensures
            r == (ThroughputTracker { window_ns, window_start_ns: now_ns, count: 0 }),
    {
        ThroughputTracker { window_ns, window_start_ns: now_ns, count: 0 }
    }

    /// Counts `events` more events, up to `u64::MAX`.
    pub fn record(&mut self, events: u64)
        ensures
            *final(self) == (ThroughputTracker {
                count: if old(self).count + events <= u64::MAX {
                    (old(self).count + events) as u64
                } else {
                    u64::MAX
                },
                ..*old(self)
            }),
    {
        self.count = self.count.saturating_add(events);
    }

    /// Closes the window if it has been open for its length or longer:
    /// returns what was counted and for how long, and opens the next window
    /// at `now_ns`. Before that it returns nothing and changes nothing. A
    /// clock that has gone backwards counts as no time passed.
    pub fn close_window(&mut self, now_ns: u64) -> (r: Option<WindowCount>)
        ensures
            ({
                let elapsed = if now_ns >= old(self).window_start_ns {
                    (now_ns - old(self).window_start_ns) as u64
                } else {
                    0
                };
                if elapsed < old(self).window_ns {
                    r is None && *final(self) == *old(self)
                } else {
                    r == Some(WindowCount { events: old(self).count, elapsed_ns: elapsed })
                        && *final(self) == (ThroughputTracker {
                        window_ns: old(self).window_ns,
                        window_start_ns: now_ns,
                        count: 0,
                    })
                }
            }),
    {
        let elapsed_ns = if now_ns >= self.window_start_ns {
            now_ns - self.window_start_ns
        } else {
            0
        };
        if elapsed_ns < self.window_ns {
            return None;
        }
        let closed = WindowCount { events: self.count, elapsed_ns };
        self.window_start_ns = now_ns;
        self.count = 0;
        Some(closed)
    }
}

} // verus!
