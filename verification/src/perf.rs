//! Frame-level performance statistics: per-frame encode times and sizes,
//! keyframe and frame counts, round-trip samples, and the order statistics
//! (minimum, percentiles, maximum) of a sample set.  Times are carried in
//! whole microseconds.

use vstd::prelude::*;
use vstd::relations::{sorted_by, total_ordering};

use crate::clock::{elapsed_ms, instant_now};

verus! {

/// Ascending order on samples.
pub open spec fn sample_leq() -> spec_fn(u64, u64) -> bool {
    |a: u64, b: u64| a <= b
}

/// The samples in ascending order.
pub open spec fn sorted_samples(s: Seq<u64>) -> Seq<u64> {
    s.sort_by(sample_leq())
}

/// Sum of the samples.
pub open spec fn sample_sum(s: Seq<u64>) -> nat
    decreases s.len(),
{
    if s.len() == 0 {
        0
    } else {
        sample_sum(s.drop_last()) + s.last() as nat
    }
}

/// Index of the `pct` percentile among `n` sorted samples: `n * pct / 100`,
/// kept inside the sequence.
pub open spec fn percentile_index(n: nat, pct: nat) -> int {
    let i = n * pct / 100;
    if i < n { i as int } else { n - 1 }
}

/// Summary of a sample set; all zero for an empty set.
#[derive(Debug, Clone, Copy, PartialEq, Eq, Structural)]
pub struct LatencyStats {
    pub count: usize,
    pub sum: u128,
    pub p50: u64,
    pub p95: u64,
    pub p99: u64,
    pub min: u64,
    pub max: u64,
}

/// What [`LatencyStats::compute`] gives for samples `s`.
pub open spec fn spec_latency_stats(s: Seq<u64>) -> LatencyStats {
    let n = s.len();
    if n == 0 {
        LatencyStats { count: 0, sum: 0, p50: 0, p95: 0, p99: 0, min: 0, max: 0 }
    } else {
        let t = sorted_samples(s);
        LatencyStats {
            count: n as usize,
            sum: sample_sum(s) as u128,
            p50: t[(n * 50 / 100) as int],
            p95: t[percentile_index(n, 95)],
            p99: t[percentile_index(n, 99)],
            min: t[0],
            max: t[n - 1],
        }
    }
}

/// Sorts ascending (`slice::sort` on `u64`): afterwards the values are in
/// ascending order and the same values occur, each as often as before.
#[verifier::external_body]
fn sort_ascending(v: &mut Vec<u64>)
    ensures
        final(v)@.to_multiset() == old(v)@.to_multiset(),
        sorted_by(final(v)@, sample_leq()),
{
    v.sort();
}

proof fn lemma_sample_leq_total()
    ensures
        total_ordering(sample_leq()),
{
}

/// A sorted rearrangement of `s` is `sorted_samples(s)`.
proof fn lemma_sorted_is_sorted_samples(s: Seq<u64>, t: Seq<u64>)
    requires
        t.to_multiset() == s.to_multiset(),
        sorted_by(t, sample_leq()),
    ensures
        t == sorted_samples(s),
{
    lemma_sample_leq_total();
    s.lemma_sort_by_ensures(sample_leq());
    vstd::seq_lib::lemma_sorted_unique(t, sorted_samples(s), sample_leq());
}

/// The sum of the samples, which always fits: fewer than 2^64 values each
/// below 2^64.
fn sum_samples(data: &Vec<u64>) -> (r: u128)
    ensures
        r == sample_sum(data@),
{
    let mut acc: u128 = 0;
    let mut i: usize = 0;
    while i < data.len()
        invariant
            i <= data@.len(),
            acc == sample_sum(data@.take(i as int)),
            acc <= i * 0xFFFF_FFFF_FFFF_FFFFu128,
        decreases data.len() - i,
    {
        assert(data@.take(i + 1).drop_last() =~= data@.take(i as int));
        assert((i + 1) * 0xFFFF_FFFF_FFFF_FFFFu128 <= u128::MAX) by (nonlinear_arith)
            requires
                i < usize::MAX,
        ;
        assert((i + 1) * 0xFFFF_FFFF_FFFF_FFFFu128 == i * 0xFFFF_FFFF_FFFF_FFFFu128
            + 0xFFFF_FFFF_FFFF_FFFFu128) by (nonlinear_arith);
        acc = acc + data[i] as u128;
        i = i + 1;
    }
    assert(data@.take(data@.len() as int) =~= data@);
    acc
}

impl LatencyStats {
    /// Count, sum, median, 95th and 99th percentiles, minimum and maximum
    /// of the samples; all zero when there are none.  The order statistics
    /// are non-decreasing from minimum to maximum.
    pub fn compute(data: &Vec<u64>) -> (s: Self)
        ensures
            s == spec_latency_stats(data@),
            data@.len() > 0 ==> s.min <= s.p50 <= s.p95 <= s.p99 <= s.max,
    {
        let n = data.len();
        if n == 0 {
            return LatencyStats { count: 0, sum: 0, p50: 0, p95: 0, p99: 0, min: 0, max: 0 };
        }
        let sum = sum_samples(data);
        let mut sorted = data.clone();
        sort_ascending(&mut sorted);
        proof {
            lemma_sorted_is_sorted_samples(data@, sorted@);
            vstd::seq_lib::to_multiset_len(data@);
            vstd::seq_lib::to_multiset_len(sorted@);
        }
        let nn = n as u128;
        assert(nn * 50 / 100 < nn) by (nonlinear_arith)
            requires
                nn > 0,
        ;
        assert(nn * 50 / 100 <= nn * 95 / 100 <= nn * 99 / 100) by (nonlinear_arith);
        let i50 = (nn * 50 / 100) as usize;
        let i95_raw = nn * 95 / 100;
        let i95: usize = if i95_raw < nn { i95_raw as usize } else { n - 1 };
        let i99_raw = nn * 99 / 100;
        let i99: usize = if i99_raw < nn { i99_raw as usize } else { n - 1 };
        let s = LatencyStats {
            count: n,
            sum,
            p50: sorted[i50],
            p95: sorted[i95],
            p99: sorted[i99],
            min: sorted[0],
            max: sorted[n - 1],
        };
        assert(sample_leq()(sorted@[0], sorted@[i50 as int]) || i50 == 0);
        assert(sample_leq()(sorted@[i50 as int], sorted@[i95 as int]) || i50 == i95);
        assert(sample_leq()(sorted@[i95 as int], sorted@[i99 as int]) || i95 == i99);
        assert(sample_leq()(sorted@[i99 as int], sorted@[n - 1]) || i99 == n - 1);
        s
    }
}

/// Performance statistics of a session.  When disabled, nothing is recorded.
pub struct PerfStats {
    enabled: bool,
    encode_times_us: Vec<u64>,
    frame_sizes: Vec<u32>,
    keyframe_count: u32,
    total_frames: u64,
    start_time: std::time::Instant,
    network_rtts_us: Vec<u64>,
}

impl PerfStats {
    pub closed spec fn enabled(&self) -> bool {
        self.enabled
    }

    /// Encode times recorded so far (microseconds).
    pub closed spec fn encode_times(&self) -> Seq<u64> {
        self.encode_times_us@
    }

    /// Frame sizes recorded so far (bytes).
    pub closed spec fn frame_sizes(&self) -> Seq<u32> {
        self.frame_sizes@
    }

    pub closed spec fn keyframes(&self) -> u32 {
        self.keyframe_count
    }

    pub closed spec fn frames(&self) -> u64 {
        self.total_frames
    }

    /// Round-trip samples recorded so far (microseconds).
    pub closed spec fn rtts(&self) -> Seq<u64> {
        self.network_rtts_us@
    }

    /// One encode time and one size per frame counted.
    pub open spec fn wf(&self) -> bool {
        &&& self.encode_times().len() == self.frames()
        &&& self.frame_sizes().len() == self.frames()
        &&& self.keyframes() <= self.frames()
    }

    pub fn new(enabled: bool) -> (p: Self)
        ensures
            p.wf(),
            p.enabled() == enabled,
            p.encode_times() == Seq::<u64>::empty(),
            p.frame_sizes() == Seq::<u32>::empty(),
            p.rtts() == Seq::<u64>::empty(),
            p.keyframes() == 0,
            p.frames() == 0,
    {
        PerfStats {
            enabled,
            encode_times_us: Vec::new(),
            frame_sizes: Vec::new(),
            keyframe_count: 0,
            total_frames: 0,
            start_time: instant_now(),
            network_rtts_us: Vec::new(),
        }
    }

    pub fn is_enabled(&self) -> (b: bool)
        ensures
            b == self.enabled(),
    {
        self.enabled
    }

    /// Records one encoded frame; does nothing when disabled.
    pub fn record_frame(&mut self, encode_us: u64, frame_bytes: u32, is_keyframe: bool)
        requires
            old(self).wf(),
            old(self).enabled() ==> old(self).frames() < u64::MAX,
            old(self).enabled() && is_keyframe ==> old(self).keyframes() < u32::MAX,
        ensures
            final(self).wf(),
            final(self).enabled() == old(self).enabled(),
            final(self).rtts() == old(self).rtts(),
            !old(self).enabled() ==> {
                &&& final(self).encode_times() == old(self).encode_times()
                &&& final(self).frame_sizes() == old(self).frame_sizes()
                &&& final(self).frames() == old(self).frames()
                &&& final(self).keyframes() == old(self).keyframes()
            },
            old(self).enabled() ==> {
                &&& final(self).encode_times() == old(self).encode_times().push(encode_us)
                &&& final(self).frame_sizes() == old(self).frame_sizes().push(frame_bytes)
                &&& final(self).frames() == old(self).frames() + 1
                &&& final(self).keyframes() == old(self).keyframes() + (if is_keyframe {
                    1int
                } else {
                    0int
                })
            },
    {
        if !self.enabled {
            return;
        }
        self.encode_times_us.push(encode_us);
        self.frame_sizes.push(frame_bytes);
        self.total_frames = self.total_frames + 1;
        if is_keyframe {
            self.keyframe_count = self.keyframe_count + 1;
        }
    }

    /// Records a round-trip sample; does nothing when disabled.
    pub fn record_rtt(&mut self, rtt_us: u64)
        requires
            old(self).wf(),
        ensures
            final(self).wf(),
            final(self).enabled() == old(self).enabled(),
            final(self).encode_times() == old(self).encode_times(),
            final(self).frame_sizes() == old(self).frame_sizes(),
            final(self).frames() == old(self).frames(),
            final(self).keyframes() == old(self).keyframes(),
            final(self).rtts() == if old(self).enabled() {
                old(self).rtts().push(rtt_us)
            } else {
                old(self).rtts()
            },
    {
        if self.enabled {
            self.network_rtts_us.push(rtt_us);
        }
    }

    pub fn total_frames(&self) -> (n: u64)
        ensures
            n == self.frames(),
    {
        self.total_frames
    }

    pub fn keyframe_count(&self) -> (n: u32)
        ensures
            n == self.keyframes(),
    {
        self.keyframe_count
    }

    /// Whether a report can be made: statistics are enabled and a frame was
    /// recorded.
    pub fn has_report(&self) -> (b: bool)
        ensures
            b == (self.enabled() && self.frames() > 0),
    {
        self.enabled && self.total_frames > 0
    }

    /// Encode times recorded so far (microseconds).
    pub fn encode_times_us(&self) -> (v: &Vec<u64>)
        ensures
            v@ == self.encode_times(),
    {
        &self.encode_times_us
    }

    /// Round-trip samples recorded so far (microseconds).
    pub fn rtts_us(&self) -> (v: &Vec<u64>)
        ensures
            v@ == self.rtts(),
    {
        &self.network_rtts_us
    }

    /// Frame sizes recorded so far, widened to `u64`.
    pub fn frame_sizes_u64(&self) -> (v: Vec<u64>)
        ensures
            v@.len() == self.frame_sizes().len(),
            forall|i: int| 0 <= i < v@.len() ==> v@[i] == self.frame_sizes()[i] as u64,
    {
        let mut v: Vec<u64> = Vec::new();
        let mut i: usize = 0;
        while i < self.frame_sizes.len()
            invariant
                i <= self.frame_sizes@.len(),
                v@.len() == i,
                forall|k: int| 0 <= k < i ==> v@[k] == self.frame_sizes@[k] as u64,
            decreases self.frame_sizes.len() - i,
        {
            v.push(self.frame_sizes[i] as u64);
            i = i + 1;
        }
        v
    }

    /// Encode-time statistics (microseconds).
    pub fn encode_stats(&self) -> (s: LatencyStats)
        ensures
            s == spec_latency_stats(self.encode_times()),
    {
        LatencyStats::compute(&self.encode_times_us)
    }

    /// Frame-size statistics (bytes); `sum` is the total byte count.
    pub fn size_stats(&self) -> (s: LatencyStats)
        ensures
            s.count == self.frame_sizes().len(),
            s == spec_latency_stats(self.frame_sizes().map_values(|b: u32| b as u64)),
    {
        let sizes = self.frame_sizes_u64();
        assert(sizes@ =~= self.frame_sizes().map_values(|b: u32| b as u64));
        LatencyStats::compute(&sizes)
    }

    /// Round-trip statistics (microseconds).
    pub fn rtt_stats(&self) -> (s: LatencyStats)
        ensures
            s == spec_latency_stats(self.rtts()),
    {
        LatencyStats::compute(&self.network_rtts_us)
    }

    /// Whole milliseconds since the statistics were created.  Nothing is
    /// stated: it depends on the clock.
    pub fn elapsed_ms(&self) -> (ms: u128) {
        elapsed_ms(&self.start_time)
    }
}

} // verus!
