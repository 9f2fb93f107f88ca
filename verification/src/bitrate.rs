//! Encoder-side adaptive bitrate / frame-rate controller.
//!
//! The controller collects per-frame encode statistics and, once per
//! evaluation interval, lowers the bitrate when the encoder is overloaded or
//! frames are oversized, drops to a lower frame-rate tier once the bitrate has
//! reached its floor, and recovers (frame rate first, then bitrate) when
//! encoding is fast.  Encode times are carried in microseconds and every
//! threshold is an exact rational comparison.

use vstd::prelude::*;

use crate::clock::{elapsed_ms, instant_now};
use crate::net::{is_private_ip, IpAddress};

verus! {

/// Network classification used to decide whether adaptation is active.
#[derive(Debug, Clone, Copy, PartialEq, Eq, Structural)]
pub enum NetworkType {
    Lan,
    Wan,
}

/// Phase 1 of LAN detection: private, loopback and link-local peers are LAN.
pub fn detect_network_phase1(peer_addr: IpAddress) -> (t: NetworkType)
    ensures
        t == (if is_private_ip(peer_addr) { NetworkType::Lan } else { NetworkType::Wan }),
{
    if crate::net::exec_is_private_ip(&peer_addr) {
        NetworkType::Lan
    } else {
        NetworkType::Wan
    }
}

/// RTT above which a LAN classification is corrected to WAN (10 ms).
pub const LAN_RTT_THRESHOLD_US: u64 = 10_000;

/// Phase 2 of LAN detection: a LAN peer whose smoothed RTT exceeds the
/// threshold is reclassified as WAN; everything else is kept.
pub fn detect_network_phase2(phase1: NetworkType, rtt_ewma_us: u64) -> (t: NetworkType)
    ensures
        t == (if phase1 == NetworkType::Lan && rtt_ewma_us > LAN_RTT_THRESHOLD_US {
            NetworkType::Wan
        } else {
            phase1
        }),
{
    match phase1 {
        NetworkType::Lan => {
            if rtt_ewma_us > LAN_RTT_THRESHOLD_US {
                NetworkType::Wan
            } else {
                NetworkType::Lan
            }
        },
        NetworkType::Wan => NetworkType::Wan,
    }
}

/// Statistics of one encoded frame.
#[derive(Debug, Clone, Copy)]
pub struct FrameStats {
    /// Encode time in microseconds.
    pub encode_us: u64,
    pub frame_bytes: u32,
    pub is_keyframe: bool,
}

/// Result of one evaluation.
#[derive(Debug, Clone, Copy, PartialEq, Eq, Structural)]
pub struct AdaptiveDecision {
    pub bitrate_bps: u32,
    pub fps: u32,
}

/// Number of frame-rate tiers: full, half and quarter rate.
pub const FPS_TIER_COUNT: usize = 3;

/// Frame rate of tier `tier` for a target rate: full, half, quarter.
pub open spec fn tier_fps(target_fps: u32, tier: nat) -> nat {
    if tier == 0 {
        target_fps as nat
    } else if tier == 1 {
        (target_fps / 2) as nat
    } else {
        (target_fps / 4) as nat
    }
}

/// Lowest bitrate the controller descends to: 30% of the initial bitrate.
pub open spec fn floor_bitrate(initial: u32) -> nat {
    (initial * 3 / 10) as nat
}

/// Sum of encode times (microseconds) of a window.
pub open spec fn sum_encode_us(w: Seq<FrameStats>) -> nat
    decreases w.len(),
{
    if w.len() == 0 {
        0
    } else {
        sum_encode_us(w.drop_last()) + w.last().encode_us as nat
    }
}

/// Sum of frame sizes of the non-keyframes of a window.
pub open spec fn sum_nonkey_bytes(w: Seq<FrameStats>) -> nat
    decreases w.len(),
{
    if w.len() == 0 {
        0
    } else {
        sum_nonkey_bytes(w.drop_last()) + (if w.last().is_keyframe {
            0nat
        } else {
            w.last().frame_bytes as nat
        })
    }
}

/// Number of non-keyframes in a window.
pub open spec fn count_nonkey(w: Seq<FrameStats>) -> nat
    decreases w.len(),
{
    if w.len() == 0 {
        0
    } else {
        count_nonkey(w.drop_last()) + (if w.last().is_keyframe {
            0nat
        } else {
            1nat
        })
    }
}

/// Average encode time exceeds `pct` percent of the frame interval
/// (`sum/n > pct/100 * 1000/fps` ms).  Never true at 0 fps (infinite interval).
pub open spec fn encode_above(w: Seq<FrameStats>, fps: nat, pct: nat) -> bool {
    fps > 0 && sum_encode_us(w) * fps > pct * 10_000 * w.len()
}

/// Average encode time is below `pct` percent of the frame interval.  Always
/// true at 0 fps (infinite interval).
pub open spec fn encode_below(w: Seq<FrameStats>, fps: nat, pct: nat) -> bool {
    fps == 0 || sum_encode_us(w) * fps < pct * 10_000 * w.len()
}

/// Average non-keyframe size exceeds 1.5x the per-frame budget
/// `bitrate / fps / 8`.
pub open spec fn frames_oversized(w: Seq<FrameStats>, bitrate: nat, fps: nat) -> bool {
    &&& fps > 0
    &&& bitrate > 0
    &&& count_nonkey(w) > 0
    &&& sum_nonkey_bytes(w) > 0
    &&& 16 * fps * sum_nonkey_bytes(w) > 3 * bitrate * count_nonkey(w)
}

/// Bitrate after the decrease step and the clamp to `[floor, initial]`.
pub open spec fn clamped_bitrate(initial: u32, current: u32, w: Seq<FrameStats>, fps: nat) -> nat {
    let reduced: nat = if encode_above(w, fps, 60) {
        (current * 85 / 100) as nat
    } else if frames_oversized(w, current as nat, fps) {
        (current * 9 / 10) as nat
    } else {
        current as nat
    };
    let lo = floor_bitrate(initial);
    if reduced < lo {
        lo
    } else if reduced > initial {
        initial as nat
    } else {
        reduced
    }
}

/// Outcome `(bitrate, tier)` of evaluating a non-empty window on a WAN link.
pub open spec fn spec_evaluate(
    initial: u32,
    current: u32,
    tier: nat,
    target_fps: u32,
    w: Seq<FrameStats>,
) -> (nat, nat) {
    let fps = tier_fps(target_fps, tier);
    let b = clamped_bitrate(initial, current, w, fps);
    let t = if b <= floor_bitrate(initial) && encode_above(w, fps, 80) && tier
        < FPS_TIER_COUNT - 1 {
        tier + 1
    } else {
        tier
    };
    if encode_below(w, fps, 30) {
        if t > 0 {
            (b, (t - 1) as nat)
        } else if b < initial {
            (if b * 11 / 10 < initial {
                (b * 11 / 10) as nat
            } else {
                initial as nat
            }, t)
        } else {
            (b, t)
        }
    } else {
        (b, t)
    }
}

/// Adaptive bitrate and frame-rate controller.
pub struct BitrateController {
    initial_bitrate: u32,
    current_bitrate: u32,
    target_fps: u32,
    current_fps_tier: usize,
    eval_window: Vec<FrameStats>,
    last_eval_time: std::time::Instant,
    eval_interval_ms: u128,
    is_lan: bool,
}

/// Evaluation interval: one second.
pub const EVAL_INTERVAL_MS: u128 = 1000;

impl BitrateController {
    pub closed spec fn initial(&self) -> u32 {
        self.initial_bitrate
    }

    pub closed spec fn bitrate(&self) -> u32 {
        self.current_bitrate
    }

    pub closed spec fn target(&self) -> u32 {
        self.target_fps
    }

    pub closed spec fn tier(&self) -> nat {
        self.current_fps_tier as nat
    }

    pub closed spec fn window(&self) -> Seq<FrameStats> {
        self.eval_window@
    }

    pub closed spec fn lan(&self) -> bool {
        self.is_lan
    }

    pub closed spec fn interval_ms(&self) -> u128 {
        self.eval_interval_ms
    }

    /// The controller's invariant: the tier is a valid tier and the bitrate
    /// lies between the floor and the initial bitrate.
    pub open spec fn wf(&self) -> bool {
        &&& self.tier() < FPS_TIER_COUNT
        &&& floor_bitrate(self.initial()) <= self.bitrate() <= self.initial()
    }

    /// Frame rate of the current tier.
    pub open spec fn fps(&self) -> nat {
        tier_fps(self.target(), self.tier())
    }

    pub fn new(initial_bitrate: u32, target_fps: u32, is_lan: bool) -> (c: Self)
        ensures
            c.wf(),
            c.initial() == initial_bitrate,
            c.bitrate() == initial_bitrate,
            c.target() == target_fps,
            c.tier() == 0,
            c.window() == Seq::<FrameStats>::empty(),
            c.lan() == is_lan,
            c.interval_ms() == EVAL_INTERVAL_MS,
    {
        BitrateController {
            initial_bitrate,
            current_bitrate: initial_bitrate,
            target_fps,
            current_fps_tier: 0,
            eval_window: Vec::new(),
            last_eval_time: instant_now(),
            eval_interval_ms: EVAL_INTERVAL_MS,
            is_lan,
        }
    }

    pub fn record_frame(&mut self, stats: FrameStats)
        requires
            old(self).wf(),
        ensures
            final(self).wf(),
            final(self).window() == old(self).window().push(stats),
            final(self).initial() == old(self).initial(),
            final(self).bitrate() == old(self).bitrate(),
            final(self).target() == old(self).target(),
            final(self).tier() == old(self).tier(),
            final(self).lan() == old(self).lan(),
            final(self).interval_ms() == old(self).interval_ms(),
    {
        self.eval_window.push(stats);
    }

    pub fn current_bitrate(&self) -> (b: u32)
        ensures
            b == self.bitrate(),
    {
        self.current_bitrate
    }

    pub fn current_fps(&self) -> (f: u32)
        requires
            self.wf(),
        ensures
            f == self.fps(),
    {
        if self.current_fps_tier == 0 {
            self.target_fps
        } else if self.current_fps_tier == 1 {
            self.target_fps / 2
        } else {
            self.target_fps / 4
        }
    }

    pub fn target_fps(&self) -> (f: u32)
        ensures
            f == self.target(),
    {
        self.target_fps
    }

    pub fn is_lan(&self) -> (b: bool)
        ensures
            b == self.lan(),
    {
        self.is_lan
    }

    /// Switches a LAN-classified controller to WAN once the smoothed RTT
    /// exceeds the LAN threshold; never switches WAN back to LAN.
    pub fn update_network_type(&mut self, rtt_ewma_us: u64)
        requires
            old(self).wf(),
        ensures
            final(self).wf(),
            final(self).lan() == (old(self).lan() && rtt_ewma_us <= LAN_RTT_THRESHOLD_US),
            final(self).window() == old(self).window(),
            final(self).initial() == old(self).initial(),
            final(self).bitrate() == old(self).bitrate(),
            final(self).target() == old(self).target(),
            final(self).tier() == old(self).tier(),
            final(self).interval_ms() == old(self).interval_ms(),
    {
        if self.is_lan {
            let corrected = detect_network_phase2(NetworkType::Lan, rtt_ewma_us);
            if corrected == NetworkType::Wan {
                self.is_lan = false;
            }
        }
    }

    /// After an idle period, forgets the statistics and returns to the
    /// initial bitrate at full frame rate.
    pub fn on_idle_recovery(&mut self)
        requires
            old(self).wf(),
        ensures
            final(self).wf(),
            final(self).window() == Seq::<FrameStats>::empty(),
            final(self).bitrate() == old(self).initial(),
            final(self).tier() == 0,
            final(self).initial() == old(self).initial(),
            final(self).target() == old(self).target(),
            final(self).lan() == old(self).lan(),
            final(self).interval_ms() == old(self).interval_ms(),
    {
        self.eval_window.clear();
        self.current_bitrate = self.initial_bitrate;
        self.current_fps_tier = 0;
        self.last_eval_time = instant_now();
    }

    /// Evaluates the collected window and adapts bitrate and frame-rate tier.
    ///
    /// On a LAN link nothing changes (the window is discarded); with an empty
    /// window nothing changes; otherwise the outcome is [`spec_evaluate`] and
    /// the window is cleared.
    pub fn evaluate(&mut self) -> (d: AdaptiveDecision)
        requires
            old(self).wf(),
        ensures
            final(self).wf(),
            final(self).initial() == old(self).initial(),
            final(self).target() == old(self).target(),
            final(self).lan() == old(self).lan(),
            final(self).interval_ms() == old(self).interval_ms(),
            old(self).lan() ==> {
                &&& final(self).bitrate() == old(self).bitrate()
                &&& final(self).tier() == old(self).tier()
                &&& final(self).window() == Seq::<FrameStats>::empty()
            },
            !old(self).lan() && old(self).window().len() == 0 ==> {
                &&& final(self).bitrate() == old(self).bitrate()
                &&& final(self).tier() == old(self).tier()
                &&& final(self).window() == old(self).window()
            },
            !old(self).lan() && old(self).window().len() > 0 ==> {
                &&& (final(self).bitrate() as nat, final(self).tier()) == spec_evaluate(
                    old(self).initial(),
                    old(self).bitrate(),
                    old(self).tier(),
                    old(self).target(),
                    old(self).window(),
                )
                &&& final(self).window() == Seq::<FrameStats>::empty()
            },
            d.bitrate_bps == final(self).bitrate(),
            d.fps == if old(self).lan() || old(self).window().len() == 0 {
                old(self).fps()
            } else {
                final(self).fps()
            },
    {
        let current_fps = self.current_fps();
        if self.is_lan {
            self.eval_window.clear();
            self.last_eval_time = instant_now();
            return AdaptiveDecision { bitrate_bps: self.current_bitrate, fps: current_fps };
        }
        if self.eval_window.len() == 0 {
            return AdaptiveDecision { bitrate_bps: self.current_bitrate, fps: current_fps };
        }
        let (sum_us, sum_bytes, nonkey) = window_sums(&self.eval_window);
        let n = self.eval_window.len();
        let fps = current_fps as u128;
        let ghost w = self.eval_window@;
        let ghost fpsn = current_fps as nat;

        let overloaded = fps > 0 && mul_exceeds(sum_us, fps, 600_000u128 * (n as u128));
        assert(overloaded == encode_above(w, fpsn, 60));
        assert(3 * (self.current_bitrate as u128) * (nonkey as u128) <= u128::MAX)
            by (nonlinear_arith)
            requires
                self.current_bitrate <= u32::MAX,
                nonkey <= u64::MAX,
        ;
        let oversized = fps > 0 && self.current_bitrate > 0 && nonkey > 0 && sum_bytes > 0
            && mul_exceeds(
            sum_bytes,
            16 * fps,
            3 * (self.current_bitrate as u128) * (nonkey as u128),
        );
        assert(oversized == frames_oversized(w, self.current_bitrate as nat, fpsn)) by {
            assert(16 * fpsn * sum_nonkey_bytes(w) == sum_nonkey_bytes(w) * (16 * fpsn))
                by (nonlinear_arith);
        }

        let floor: u32 = ((self.initial_bitrate as u64) * 3 / 10) as u32;
        let ceiling = self.initial_bitrate;
        let mut new_bitrate: u32 = self.current_bitrate;
        let mut new_tier: usize = self.current_fps_tier;

        if overloaded {
            new_bitrate = ((new_bitrate as u64) * 85 / 100) as u32;
        } else if oversized {
            new_bitrate = ((new_bitrate as u64) * 9 / 10) as u32;
        }
        if new_bitrate < floor {
            new_bitrate = floor;
        } else if new_bitrate > ceiling {
            new_bitrate = ceiling;
        }

        let heavy = fps > 0 && mul_exceeds(sum_us, fps, 800_000u128 * (n as u128));
        assert(heavy == encode_above(w, fpsn, 80));
        if new_bitrate <= floor && heavy && new_tier < FPS_TIER_COUNT - 1 {
            new_tier = new_tier + 1;
        }

        let fast = fps == 0 || !mul_exceeds(sum_us, fps, 300_000u128 * (n as u128) - 1);
        assert(fast == encode_below(w, fpsn, 30));
        if fast {
            if new_tier > 0 {
                new_tier = new_tier - 1;
            } else if new_bitrate < ceiling {
                let raised: u64 = (new_bitrate as u64) * 11 / 10;
                new_bitrate = if raised < ceiling as u64 {
                    raised as u32
                } else {
                    ceiling
                };
            }
        }

        self.current_bitrate = new_bitrate;
        self.current_fps_tier = new_tier;
        self.eval_window.clear();
        self.last_eval_time = instant_now();
        let fps_out = self.current_fps();
        AdaptiveDecision { bitrate_bps: new_bitrate, fps: fps_out }
    }

    /// Whether an evaluation is due `elapsed_ms` after the last one: the
    /// interval has passed and frames were recorded.
    pub fn should_evaluate_at(&self, elapsed_ms: u128) -> (b: bool)
        ensures
            b == (elapsed_ms >= self.interval_ms() && self.window().len() > 0),
    {
        elapsed_ms >= self.eval_interval_ms && self.eval_window.len() > 0
    }

    /// Whether an evaluation is due now (reads the clock).  A `true` answer
    /// implies that frames were recorded since the last evaluation.
    pub fn should_evaluate(&self) -> (b: bool)
        ensures
            b ==> self.window().len() > 0,
    {
        let elapsed = elapsed_ms(&self.last_eval_time);
        self.should_evaluate_at(elapsed)
    }
}

/// `a * b > c`, computed without overflow.
fn mul_exceeds(a: u128, b: u128, c: u128) -> (r: bool)
    ensures
        r == (a * b > c),
{
    if b == 0 {
        false
    } else if a > u128::MAX / b {
        assert(a * b > u128::MAX) by (nonlinear_arith)
            requires
                b > 0,
                a > u128::MAX / b,
        {
            assert(a >= u128::MAX / b + 1);
            assert((u128::MAX / b + 1) * b > u128::MAX);
            assert(a * b >= (u128::MAX / b + 1) * b);
        }
        true
    } else {
        assert(a * b <= u128::MAX) by (nonlinear_arith)
            requires
                b > 0,
                a <= u128::MAX / b,
        {
            assert(a * b <= (u128::MAX / b) * b);
        }
        a * b > c
    }
}

proof fn lemma_sums_bounded(w: Seq<FrameStats>)
    ensures
        sum_encode_us(w) <= w.len() * (u64::MAX as nat),
        sum_nonkey_bytes(w) <= w.len() * (u32::MAX as nat),
        count_nonkey(w) <= w.len(),
    decreases w.len(),
{
    if w.len() > 0 {
        lemma_sums_bounded(w.drop_last());
    }
}

/// Sums of encode time, non-keyframe bytes and non-keyframe count of a window.
fn window_sums(w: &Vec<FrameStats>) -> (r: (u128, u128, u64))
    ensures
        r.0 == sum_encode_us(w@),
        r.1 == sum_nonkey_bytes(w@),
        r.2 == count_nonkey(w@),
{
    let mut s: u128 = 0;
    let mut b: u128 = 0;
    let mut k: u64 = 0;
    let mut i: usize = 0;
    while i < w.len()
        invariant
            i <= w.len(),
            s == sum_encode_us(w@.subrange(0, i as int)),
            b == sum_nonkey_bytes(w@.subrange(0, i as int)),
            k == count_nonkey(w@.subrange(0, i as int)),
        decreases w.len() - i,
    {
        let ghost pre = w@.subrange(0, i as int);
        let ghost next = w@.subrange(0, i + 1);
        assert(next.drop_last() == pre);
        proof {
            lemma_sums_bounded(pre);
            assert(i * (u64::MAX as nat) + (u64::MAX as nat) <= u128::MAX) by (nonlinear_arith)
                requires
                    i < usize::MAX,
            ;
            assert(i * (u32::MAX as nat) <= i * (u64::MAX as nat)) by (nonlinear_arith);
        }
        let f = w[i];
        s = s + f.encode_us as u128;
        if !f.is_keyframe {
            b = b + f.frame_bytes as u128;
            k = k + 1;
        }
        i = i + 1;
    }
    assert(w@.subrange(0, w.len() as int) == w@);
    (s, b, k)
}

/// Evaluation only moves the bitrate within `[floor, initial]`; the frame-rate
/// tier only drops once the bitrate sits at the floor, and the bitrate only
/// rises while the stream runs at the full frame rate.
pub proof fn lemma_evaluate_policy(
    initial: u32,
    current: u32,
    tier: nat,
    target_fps: u32,
    w: Seq<FrameStats>,
)
    requires
        tier < FPS_TIER_COUNT,
        floor_bitrate(initial) <= current <= initial,
    ensures
        ({
            let (b, t) = spec_evaluate(initial, current, tier, target_fps, w);
            &&& floor_bitrate(initial) <= b <= initial
            &&& t < FPS_TIER_COUNT
            &&& t > tier ==> b == floor_bitrate(initial)
            &&& b > current ==> tier == 0 && t == 0
        }),
{
}

} // verus!
