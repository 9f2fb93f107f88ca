//! Display streaming policy: resize handling, capture format, adaptive
//! bitrate, idle-frame skipping, GFX readiness, backpressure, and the
//! per-frame decision of what to send.

use vstd::prelude::*;
use crate::gfx_session::GfxSession;
use crate::encode::EncoderPreference;

verus! {

/// Longest side the software encoder accepts.
pub const MAX_ENCODE_LONG: u16 = 3840;

/// Shortest side the software encoder accepts.
pub const MAX_ENCODE_SHORT: u16 = 2160;

/// How long a resize request must stay unchanged before it takes effect.
pub const RESIZE_DEBOUNCE_MS: u64 = 300;

/// Frames between two adaptive bitrate changes, at least.
pub const ADAPTIVE_BITRATE_MIN_INTERVAL_FRAMES: u64 = 30;

/// A bitrate change of at least this many bits per second is always applied.
pub const ADAPTIVE_BITRATE_MIN_DELTA_BPS: u32 = 1_000_000;

/// Adaptive bitrate never goes below this (nor above the base bitrate).
pub const ADAPTIVE_BITRATE_FLOOR_BPS: u32 = 500_000;

/// Seconds to wait for GFX capabilities on an open channel.
pub const GFX_CAPS_WAIT_TIMEOUT_SECONDS: u64 = 5;

/// A dirty rectangle reported by the capturer.
#[derive(Debug, Clone, Copy, PartialEq, Eq, Structural)]
pub struct Rect {
    pub x: u32,
    pub y: u32,
    pub width: u32,
    pub height: u32,
}

pub open spec fn min_nat(a: nat, b: nat) -> nat {
    if a <= b { a } else { b }
}

pub open spec fn max_nat(a: nat, b: nat) -> nat {
    if a >= b { a } else { b }
}

/// Smallest left edge among `rs`, starting from `init`.
pub open spec fn fold_min_x(rs: Seq<Rect>, init: nat) -> nat
    decreases rs.len(),
{
    if rs.len() == 0 { init } else { min_nat(fold_min_x(rs.drop_last(), init), rs.last().x as nat) }
}

/// Smallest top edge among `rs`, starting from `init`.
pub open spec fn fold_min_y(rs: Seq<Rect>, init: nat) -> nat
    decreases rs.len(),
{
    if rs.len() == 0 { init } else { min_nat(fold_min_y(rs.drop_last(), init), rs.last().y as nat) }
}

/// Largest right edge among `rs`, from zero.
pub open spec fn fold_max_x(rs: Seq<Rect>) -> nat
    decreases rs.len(),
{
    if rs.len() == 0 { 0 } else { max_nat(fold_max_x(rs.drop_last()), (rs.last().x + rs.last().width) as nat) }
}

/// Largest bottom edge among `rs`, from zero.
pub open spec fn fold_max_y(rs: Seq<Rect>) -> nat
    decreases rs.len(),
{
    if rs.len() == 0 { 0 } else { max_nat(fold_max_y(rs.drop_last()), (rs.last().y + rs.last().height) as nat) }
}

/// The bounding box of `rs`, far edges clamped to the frame; `None` when
/// there are no rects or the box has no area.
pub open spec fn spec_dirty_bounding_box(rs: Seq<Rect>, fw: u32, fh: u32) -> Option<(u32, u32, u32, u32)> {
    if rs.len() == 0 {
        None
    } else {
        let x0 = fold_min_x(rs, fw as nat);
        let y0 = fold_min_y(rs, fh as nat);
        let x1 = min_nat(fold_max_x(rs), fw as nat);
        let y1 = min_nat(fold_max_y(rs), fh as nat);
        if x1 > x0 && y1 > y0 {
            Some((x0 as u32, y0 as u32, (x1 - x0) as u32, (y1 - y0) as u32))
        } else {
            None
        }
    }
}

/// No rect's far edge overflows.
pub open spec fn rects_in_range(rs: Seq<Rect>) -> bool {
    forall|i: int|
        0 <= i < rs.len() ==> #[trigger] rs[i].x + rs[i].width <= u32::MAX && rs[i].y + rs[i].height
            <= u32::MAX
}

proof fn lemma_folds_bound(rs: Seq<Rect>, fw: nat, fh: nat, i: int)
    requires
        0 <= i < rs.len(),
    ensures
        fold_min_x(rs, fw) <= rs[i].x,
        fold_min_y(rs, fh) <= rs[i].y,
        fold_max_x(rs) >= rs[i].x + rs[i].width,
        fold_max_y(rs) >= rs[i].y + rs[i].height,
    decreases rs.len(),
{
    if i < rs.len() - 1 {
        lemma_folds_bound(rs.drop_last(), fw, fh, i);
    }
}

proof fn lemma_folds_init(rs: Seq<Rect>, fw: nat, fh: nat)
    ensures
        fold_min_x(rs, fw) <= fw,
        fold_min_y(rs, fh) <= fh,
    decreases rs.len(),
{
    if rs.len() > 0 {
        lemma_folds_init(rs.drop_last(), fw, fh);
    }
}

/// The bounding box `(x, y, width, height)` of the dirty rects, far edges
/// clamped to the frame; `None` when there are no rects or the clamped box
/// has no area.
#[verifier::spinoff_prover]
pub fn dirty_bounding_box(dirty_rects: &[Rect], frame_width: u32, frame_height: u32) -> (r: Option<(u32, u32, u32, u32)>)
    requires
        rects_in_range(dirty_rects@),
    ensures
        r == spec_dirty_bounding_box(dirty_rects@, frame_width, frame_height),
        r matches Some((x, y, w, h)) ==> ({
            &&& w > 0 && h > 0
            &&& x + w <= frame_width
            &&& y + h <= frame_height
            &&& forall|i: int|
                0 <= i < dirty_rects@.len() ==> x <= #[trigger] dirty_rects@[i].x && y
                    <= dirty_rects@[i].y && min_nat(
                    (dirty_rects@[i].x + dirty_rects@[i].width) as nat,
                    frame_width as nat,
                ) <= x + w && min_nat(
                    (dirty_rects@[i].y + dirty_rects@[i].height) as nat,
                    frame_height as nat,
                ) <= y + h
        }),
{
    if dirty_rects.len() == 0 {
        return None;
    }
    let mut min_x: u32 = frame_width;
    let mut min_y: u32 = frame_height;
    let mut max_x: u32 = 0;
    let mut max_y: u32 = 0;
    let mut i: usize = 0;
    while i < dirty_rects.len()
        invariant
            i <= dirty_rects@.len(),
            rects_in_range(dirty_rects@),
            min_x == fold_min_x(dirty_rects@.take(i as int), frame_width as nat),
            min_y == fold_min_y(dirty_rects@.take(i as int), frame_height as nat),
            max_x == fold_max_x(dirty_rects@.take(i as int)),
            max_y == fold_max_y(dirty_rects@.take(i as int)),
        decreases dirty_rects.len() - i,
    {
        let r = dirty_rects[i];
        assert(dirty_rects@.take(i + 1).drop_last() =~= dirty_rects@.take(i as int));
        assert(dirty_rects@[i as int] == r);
        if r.x < min_x {
            min_x = r.x;
        }
        if r.y < min_y {
            min_y = r.y;
        }
        let ex: u32 = r.x + r.width;
        let ey: u32 = r.y + r.height;
        if ex > max_x {
            max_x = ex;
        }
        if ey > max_y {
            max_y = ey;
        }
        i = i + 1;
    }
    assert(dirty_rects@.take(dirty_rects@.len() as int) =~= dirty_rects@);
    if max_x > frame_width {
        max_x = frame_width;
    }
    if max_y > frame_height {
        max_y = frame_height;
    }
    proof {
        lemma_folds_init(dirty_rects@, frame_width as nat, frame_height as nat);
        assert forall|i: int| 0 <= i < dirty_rects@.len() implies fold_min_x(dirty_rects@, frame_width as nat) <= #[trigger] dirty_rects@[i].x
            && fold_min_y(dirty_rects@, frame_height as nat) <= dirty_rects@[i].y
            && fold_max_x(dirty_rects@) >= dirty_rects@[i].x + dirty_rects@[i].width
            && fold_max_y(dirty_rects@) >= dirty_rects@[i].y + dirty_rects@[i].height by {
            lemma_folds_bound(dirty_rects@, frame_width as nat, frame_height as nat, i);
        }
    }
    if max_x > min_x && max_y > min_y {
        assert forall|i: int| 0 <= i < dirty_rects@.len() implies min_x <= #[trigger] dirty_rects@[i].x
            && min_y <= dirty_rects@[i].y && min_nat(
            (dirty_rects@[i].x + dirty_rects@[i].width) as nat,
            frame_width as nat,
        ) <= max_x && min_nat(
            (dirty_rects@[i].y + dirty_rects@[i].height) as nat,
            frame_height as nat,
        ) <= max_y by {}
        Some((min_x, min_y, max_x - min_x, max_y - min_y))
    } else {
        None
    }
}

// ---------------------------------------------------------------------------
// Resizing
// ---------------------------------------------------------------------------

pub open spec fn min_u16(a: u16, b: u16) -> u16 {
    if a <= b { a } else { b }
}

/// A requested size clamped to the encoder limit, in the orientation of the
/// request.
pub open spec fn clamp_to_encoder(w: u16, h: u16) -> (u16, u16) {
    if w >= h {
        (min_u16(w, MAX_ENCODE_LONG), min_u16(h, MAX_ENCODE_SHORT))
    } else {
        (min_u16(w, MAX_ENCODE_SHORT), min_u16(h, MAX_ENCODE_LONG))
    }
}

/// The size and resolution policy of the shared display.
#[derive(Debug, Clone, Copy, PartialEq, Eq, Structural)]
pub struct DisplayGeometry {
    pub width: u16,
    pub height: u16,
    /// Native resolution of the macOS display.
    pub native_width: u16,
    pub native_height: u16,
    /// The resolution is fixed by configuration rather than following the client.
    pub fixed_resolution: bool,
}

/// The size a resize request moves the display to, if it moves it.
pub open spec fn spec_resize_target(g: DisplayGeometry, w: u16, h: u16) -> Option<(u16, u16)> {
    if g.fixed_resolution {
        None
    } else {
        let (cw, ch) = clamp_to_encoder(w, h);
        if cw == 0 || ch == 0 || (cw == g.width && ch == g.height) {
            None
        } else {
            Some((cw, ch))
        }
    }
}

impl DisplayGeometry {
    pub fn new(width: u16, height: u16, native_width: u16, native_height: u16, fixed_resolution: bool) -> (g: Self)
        ensures
            g == (DisplayGeometry { width, height, native_width, native_height, fixed_resolution }),
    {
        DisplayGeometry { width, height, native_width, native_height, fixed_resolution }
    }

    /// Adopt a client-requested size: ignored when the resolution is fixed,
    /// clamped to the encoder limit, ignored when degenerate or unchanged.
    /// Returns whether the size changed.
    pub fn apply_resize_request(&mut self, width: u16, height: u16) -> (changed: bool)
        ensures
            changed == spec_resize_target(*old(self), width, height) is Some,
            match spec_resize_target(*old(self), width, height) {
                Some((w, h)) => *final(self) == (DisplayGeometry { width: w, height: h, ..*old(self) }),
                None => *final(self) == *old(self),
            },
    {
        if self.fixed_resolution {
            return false;
        }
        let (long, short) = if width >= height {
            (MAX_ENCODE_LONG, MAX_ENCODE_SHORT)
        } else {
            (MAX_ENCODE_SHORT, MAX_ENCODE_LONG)
        };
        let w = if width < long { width } else { long };
        let h = if height < short { height } else { short };
        if w == 0 || h == 0 || (w == self.width && h == self.height) {
            return false;
        }
        self.width = w;
        self.height = h;
        true
    }

    /// The pointer scale on each axis, as a fraction: the current size over
    /// the native size, `((width, native_width), (height, native_height))`.
    pub fn mouse_scale(&self) -> (r: ((u16, u16), (u16, u16)))
        ensures
            r == ((self.width, self.native_width), (self.height, self.native_height)),
    {
        ((self.width, self.native_width), (self.height, self.native_height))
    }

    /// Record a re-detected native resolution. Returns whether it changed.
    pub fn update_native(&mut self, native_width: u16, native_height: u16) -> (changed: bool)
        ensures
            changed == (native_width != old(self).native_width || native_height != old(
                self,
            ).native_height),
            *final(self) == (DisplayGeometry { native_width, native_height, ..*old(self) }),
    {
        let changed = native_width != self.native_width || native_height != self.native_height;
        self.native_width = native_width;
        self.native_height = native_height;
        changed
    }

    /// Encoder preference in effect: hardware encoding needs the native
    /// resolution, so away from it a hardware preference becomes software.
    pub fn effective_encoder_pref(&self, pref: EncoderPreference, on_macos: bool) -> (p: EncoderPreference)
        ensures
            p == (if on_macos && pref != EncoderPreference::Software && (self.width
                != self.native_width || self.height != self.native_height) {
                EncoderPreference::Software
            } else {
                pref
            }),
    {
        if pref.prefers_hardware_on_this_platform(on_macos) && (self.width != self.native_width
            || self.height != self.native_height) {
            EncoderPreference::Software
        } else {
            pref
        }
    }
}

/// A client-requested resize applied to the display and the graphics
/// session: when the display adopts a new size (see
/// [`DisplayGeometry::apply_resize_request`]) the session takes it too;
/// otherwise neither changes. Returns whether a resize is now pending.
pub fn resize_display(display: &mut DisplayGeometry, session: &mut GfxSession, width: u16, height: u16) -> (changed: bool)
    ensures
        changed == spec_resize_target(*old(display), width, height) is Some,
        match spec_resize_target(*old(display), width, height) {
            Some((w, h)) => {
                &&& *final(display) == (DisplayGeometry { width: w, height: h, ..*old(display) })
                &&& *final(session) == (GfxSession { width: w, height: h, ..*old(session) })
            },
            None => *final(display) == *old(display) && *final(session) == *old(session),
        },
{
    let changed = display.apply_resize_request(width, height);
    if changed {
        session.set_size(display.width, display.height);
    }
    changed
}

/// The size a display-control layout asks for: only single-monitor layouts
/// whose dimensions fit in `u16` are taken.
pub fn layout_request_size(monitor_count: usize, width: u32, height: u32) -> (r: Option<(u16, u16)>)
    ensures
        r == (if monitor_count == 1 && width <= u16::MAX && height <= u16::MAX {
            Some((width as u16, height as u16))
        } else {
            None
        }),
{
    if monitor_count != 1 || width > 0xFFFF || height > 0xFFFF {
        None
    } else {
        Some((width as u16, height as u16))
    }
}

/// Whether a pending resize request has settled.
pub fn resize_settled(requested_at_ns: u64, now_ns: u64) -> (b: bool)
    ensures
        b == (now_ns >= requested_at_ns && now_ns - requested_at_ns >= RESIZE_DEBOUNCE_MS * 1_000_000),
{
    now_ns >= requested_at_ns && now_ns - requested_at_ns >= RESIZE_DEBOUNCE_MS * 1_000_000
}

// ---------------------------------------------------------------------------
// Capture format
// ---------------------------------------------------------------------------

/// Pixel layout asked of the capturer.
#[derive(Debug, Clone, Copy, PartialEq, Eq, Structural)]
pub enum CapturePixelFormat {
    Bgra,
    Nv12,
}

/// NV12 only for AVC420 with an encoder that takes pixel buffers directly;
/// BGRA otherwise. `encoder_pixel_buffer_input` is `None` without an encoder.
pub fn capture_pixel_format(mode_444: bool, encoder_pixel_buffer_input: Option<bool>) -> (f: CapturePixelFormat)
    ensures
        f == (if !mode_444 && encoder_pixel_buffer_input == Some(true) {
            CapturePixelFormat::Nv12
        } else {
            CapturePixelFormat::Bgra
        }),
{
    if !mode_444 {
        match encoder_pixel_buffer_input {
            Some(true) => {
                return CapturePixelFormat::Nv12;
            },
            _ => {},
        }
    }
    CapturePixelFormat::Bgra
}

// ---------------------------------------------------------------------------
// Adaptive bitrate
// ---------------------------------------------------------------------------

pub open spec fn abs_diff(a: u32, b: u32) -> nat {
    if a >= b { (a - b) as nat } else { (b - a) as nat }
}

/// A change from `current` to `recommended` is worth applying: from zero,
/// any positive bitrate; otherwise a change of at least a million bits per
/// second or of at least a tenth of the current bitrate.
pub open spec fn spec_exceeds_hysteresis(current: u32, recommended: u32) -> bool {
    if current == 0 {
        recommended > 0
    } else {
        abs_diff(current, recommended) >= ADAPTIVE_BITRATE_MIN_DELTA_BPS || 10 * abs_diff(
            current,
            recommended,
        ) >= current
    }
}

/// Whether a bitrate change clears the hysteresis band.
pub fn bitrate_change_exceeds_hysteresis(current: u32, recommended: u32) -> (b: bool)
    ensures
        b == spec_exceeds_hysteresis(current, recommended),
{
    if current == 0 {
        return recommended > 0;
    }
    let delta: u32 = if current >= recommended {
        current - recommended
    } else {
        recommended - current
    };
    if delta >= ADAPTIVE_BITRATE_MIN_DELTA_BPS {
        return true;
    }
    (delta as u64) * 10 >= current as u64
}

/// Bitrate adaptation on the GFX path.
#[derive(Debug, Clone, Copy, PartialEq, Eq, Structural)]
pub struct AdaptiveBitrateController {
    pub base_bitrate: u32,
    pub current_bitrate: u32,
    pub last_update_frame: u64,
}

/// `adaptive` clamped to `[min(floor, base), base]`.
pub open spec fn spec_recommended(base: u32, adaptive: u32) -> u32 {
    let floor = if ADAPTIVE_BITRATE_FLOOR_BPS <= base { ADAPTIVE_BITRATE_FLOOR_BPS } else { base };
    if adaptive < floor { floor } else if adaptive > base { base } else { adaptive }
}

/// The controller after frame `frame_count`, and the bitrate it switches to.
pub open spec fn spec_next_update(c: AdaptiveBitrateController, frame_count: u64, adaptive: u32) -> (AdaptiveBitrateController, Option<u32>) {
    let rec = spec_recommended(c.base_bitrate, adaptive);
    let due = frame_count >= c.last_update_frame && frame_count - c.last_update_frame
        >= ADAPTIVE_BITRATE_MIN_INTERVAL_FRAMES;
    if due && spec_exceeds_hysteresis(c.current_bitrate, rec) {
        (AdaptiveBitrateController { current_bitrate: rec, last_update_frame: frame_count, ..c }, Some(rec))
    } else {
        (c, None)
    }
}

impl AdaptiveBitrateController {
    pub fn new(base_bitrate: u32) -> (c: Self)
        ensures
            c == (AdaptiveBitrateController { base_bitrate, current_bitrate: base_bitrate, last_update_frame: 0 }),
    {
        AdaptiveBitrateController { base_bitrate, current_bitrate: base_bitrate, last_update_frame: 0 }
    }

    /// The network-scaled bitrate `adaptive`, kept between the floor and the
    /// base bitrate.
    pub fn recommended_bitrate(&self, adaptive: u32) -> (b: u32)
        ensures
            b == spec_recommended(self.base_bitrate, adaptive),
    {
        let floor = if ADAPTIVE_BITRATE_FLOOR_BPS <= self.base_bitrate {
            ADAPTIVE_BITRATE_FLOOR_BPS
        } else {
            self.base_bitrate
        };
        if adaptive < floor {
            floor
        } else if adaptive > self.base_bitrate {
            self.base_bitrate
        } else {
            adaptive
        }
    }

    /// The bitrate to switch to at frame `frame_count`, given the
    /// network-scaled bitrate `adaptive`: none before the minimum interval
    /// has passed since the last change, nor when the change is within the
    /// hysteresis band.
    pub fn next_update(&mut self, frame_count: u64, adaptive: u32) -> (r: Option<u32>)
        ensures
            (*final(self), r) == spec_next_update(*old(self), frame_count, adaptive),
    {
        let since = if frame_count >= self.last_update_frame {
            frame_count - self.last_update_frame
        } else {
            0
        };
        if since < ADAPTIVE_BITRATE_MIN_INTERVAL_FRAMES {
            return None;
        }
        let recommended = self.recommended_bitrate(adaptive);
        if !bitrate_change_exceeds_hysteresis(self.current_bitrate, recommended) {
            return None;
        }
        self.current_bitrate = recommended;
        self.last_update_frame = frame_count;
        Some(recommended)
    }
}

/// The recommended bitrate always lies between the floor and the base.
pub proof fn lemma_recommended_in_band(base: u32, adaptive: u32)
    ensures
        spec_recommended(base, adaptive) <= base,
        spec_recommended(base, adaptive) >= (if ADAPTIVE_BITRATE_FLOOR_BPS <= base {
            ADAPTIVE_BITRATE_FLOOR_BPS
        } else {
            base
        }),
{
}

// ---------------------------------------------------------------------------
// Idle frames
// ---------------------------------------------------------------------------

/// What to do with a captured frame, as far as idleness goes.
#[derive(Debug, Clone, Copy, PartialEq, Eq, Structural)]
pub enum IdleFrameDecision {
    Encode { force_keyframe: bool },
    Skip,
}

/// Skipping of frames known to be unchanged, with a keyframe refresh at an
/// interval. Times are nanoseconds on a monotonic clock.
#[derive(Debug, Clone, Copy, PartialEq, Eq, Structural)]
pub struct IdleFrameController {
    pub skip_unchanged: bool,
    pub idle_keyframe_interval_ns: Option<u64>,
    pub last_sent_at_ns: Option<u64>,
    pub skipped_unchanged_frames: u64,
}

/// Time from `earlier` to `later`, zero when `later` is earlier.
pub open spec fn elapsed_ns(earlier: u64, later: u64) -> nat {
    if later >= earlier { (later - earlier) as nat } else { 0 }
}

pub open spec fn spec_idle_decision(c: IdleFrameController, known_unchanged: bool, now_ns: u64) -> IdleFrameDecision {
    if !c.skip_unchanged || !known_unchanged || c.last_sent_at_ns is None {
        IdleFrameDecision::Encode { force_keyframe: false }
    } else {
        match c.idle_keyframe_interval_ns {
            None => IdleFrameDecision::Skip,
            Some(interval) => if elapsed_ns(c.last_sent_at_ns->0, now_ns) >= interval {
                IdleFrameDecision::Encode { force_keyframe: true }
            } else {
                IdleFrameDecision::Skip
            },
        }
    }
}

impl IdleFrameController {
    /// A zero interval means no keyframe refresh.
    pub fn new(skip_unchanged: bool, idle_keyframe_interval_ns: Option<u64>) -> (c: Self)
        ensures
            c == (IdleFrameController {
                skip_unchanged,
                idle_keyframe_interval_ns,
                last_sent_at_ns: None,
                skipped_unchanged_frames: 0,
            }),
    {
        IdleFrameController {
            skip_unchanged,
            idle_keyframe_interval_ns,
            last_sent_at_ns: None,
            skipped_unchanged_frames: 0,
        }
    }

    /// Encode changed frames (and anything before the first send); skip
    /// frames known to be unchanged, except for a forced keyframe once the
    /// idle interval has passed since the last send.
    pub fn next_decision(&self, known_unchanged: bool, now_ns: u64) -> (d: IdleFrameDecision)
        ensures
            d == spec_idle_decision(*self, known_unchanged, now_ns),
    {
        if !self.skip_unchanged || !known_unchanged {
            return IdleFrameDecision::Encode { force_keyframe: false };
        }
        let last = match self.last_sent_at_ns {
            None => {
                return IdleFrameDecision::Encode { force_keyframe: false };
            },
            Some(t) => t,
        };
        match self.idle_keyframe_interval_ns {
            None => IdleFrameDecision::Skip,
            Some(interval) => {
                let elapsed = if now_ns >= last {
                    now_ns - last
                } else {
                    0
                };
                if elapsed >= interval {
                    IdleFrameDecision::Encode { force_keyframe: true }
                } else {
                    IdleFrameDecision::Skip
                }
            },
        }
    }

    pub fn record_sent(&mut self, now_ns: u64)
        ensures
            *final(self) == (IdleFrameController {
                last_sent_at_ns: Some(now_ns),
                skipped_unchanged_frames: 0,
                ..*old(self)
            }),
    {
        self.last_sent_at_ns = Some(now_ns);
        self.skipped_unchanged_frames = 0;
    }

    /// Count a skipped frame; returns the count since the last send.
    pub fn record_skipped(&mut self) -> (n: u64)
        requires
            old(self).skipped_unchanged_frames < u64::MAX,
        ensures
            n == old(self).skipped_unchanged_frames + 1,
            *final(self) == (IdleFrameController { skipped_unchanged_frames: n, ..*old(self) }),
    {
        self.skipped_unchanged_frames = self.skipped_unchanged_frames + 1;
        self.skipped_unchanged_frames
    }
}

/// Whether a frame is known to be unchanged: the capturer reported dirty
/// rects, and there were none.
pub fn is_known_unchanged_frame(dirty_rects_available: bool, dirty_rect_count: usize) -> (b: bool)
    ensures
        b == (dirty_rects_available && dirty_rect_count == 0),
{
    dirty_rects_available && dirty_rect_count == 0
}

// ---------------------------------------------------------------------------
// GFX readiness
// ---------------------------------------------------------------------------

/// What the display side reads of the GFX channel state.
#[derive(Debug, Clone, Copy, PartialEq, Eq, Structural)]
pub struct GfxStatus {
    pub channel_open: bool,
    pub caps_confirmed: bool,
    pub avc420_supported: bool,
    pub avc444_supported: bool,
    pub avc444_enabled: bool,
}

/// How the next frame can travel.
#[derive(Debug, Clone, Copy, PartialEq, Eq, Structural)]
pub struct GfxPipelineDecision {
    pub ready: bool,
    pub use_444: bool,
    pub hopeless: bool,
    pub no_caps_timed_out: bool,
    pub channel_open: bool,
    pub caps_confirmed: bool,
}

pub open spec fn spec_gfx_decision(s: GfxStatus, encoder_available: bool, mode_444: bool, no_caps_wait_frames: u64, no_caps_timeout_frames: u64) -> GfxPipelineDecision {
    let timed_out = s.channel_open && !s.caps_confirmed && no_caps_wait_frames >= no_caps_timeout_frames;
    GfxPipelineDecision {
        ready: s.channel_open && s.avc420_supported && s.caps_confirmed && encoder_available,
        use_444: mode_444 && s.avc444_supported && s.avc444_enabled,
        hopeless: timed_out || (s.channel_open && s.caps_confirmed && !s.avc420_supported),
        no_caps_timed_out: timed_out,
        channel_open: s.channel_open,
        caps_confirmed: s.caps_confirmed,
    }
}

/// GFX is ready when the channel is open with AVC420 confirmed and an
/// encoder exists; hopeless when capabilities never came within the timeout
/// or came without AVC support.
pub fn gfx_pipeline_decision(state: GfxStatus, encoder_available: bool, mode_444: bool, no_caps_wait_frames: u64, no_caps_timeout_frames: u64) -> (d: GfxPipelineDecision)
    ensures
        d == spec_gfx_decision(state, encoder_available, mode_444, no_caps_wait_frames, no_caps_timeout_frames),
{
    let no_caps_timed_out = state.channel_open && !state.caps_confirmed && no_caps_wait_frames
        >= no_caps_timeout_frames;
    GfxPipelineDecision {
        ready: state.channel_open && state.avc420_supported && state.caps_confirmed
            && encoder_available,
        use_444: mode_444 && state.avc444_supported && state.avc444_enabled,
        hopeless: no_caps_timed_out || (state.channel_open && state.caps_confirmed
            && !state.avc420_supported),
        no_caps_timed_out,
        channel_open: state.channel_open,
        caps_confirmed: state.caps_confirmed,
    }
}

/// A ready pipeline is never hopeless.
pub proof fn lemma_ready_not_hopeless(s: GfxStatus, e: bool, m: bool, w: u64, t: u64)
    ensures
        spec_gfx_decision(s, e, m, w, t).ready ==> !spec_gfx_decision(s, e, m, w, t).hopeless,
{
}

/// Frames to wait for capabilities: five seconds at the frame rate (at least
/// one frame per second).
pub fn gfx_caps_timeout_frames(frame_rate: u32) -> (n: u64)
    ensures
        n == (if frame_rate >= 1 { frame_rate as nat } else { 1 }) * GFX_CAPS_WAIT_TIMEOUT_SECONDS,
{
    let fr: u64 = if frame_rate >= 1 { frame_rate as u64 } else { 1 };
    fr * GFX_CAPS_WAIT_TIMEOUT_SECONDS
}

pub open spec fn spec_backpressure_skip(pending_acks: u32) -> u32 {
    if pending_acks <= 4 { 0 } else if pending_acks <= 9 { 1 } else if pending_acks <= 19 { 2 } else { 3 }
}

/// Frames to skip after an encode, by ack queue depth: none up to four
/// pending, then one, two, and three (one frame in four) from twenty.
pub fn backpressure_skip_count(pending_acks: u32) -> (n: u32)
    ensures
        n == spec_backpressure_skip(pending_acks),
{
    if pending_acks <= 4 {
        0
    } else if pending_acks <= 9 {
        1
    } else if pending_acks <= 19 {
        2
    } else {
        3
    }
}

/// Backpressure never skips fewer frames for a deeper queue.
pub proof fn lemma_backpressure_monotone(a: u32, b: u32)
    requires
        a <= b,
    ensures
        spec_backpressure_skip(a) <= spec_backpressure_skip(b),
        spec_backpressure_skip(b) <= 3,
{
}

/// Where the captured pixels are.
#[derive(Debug, Clone, Copy, PartialEq, Eq, Structural)]
pub enum BitmapSourceKind {
    Bgra,
    PixelBuffer,
}

/// Why a frame cannot take the bitmap path.
#[derive(Debug, Clone, Copy, PartialEq, Eq, Structural)]
pub enum BitmapFallbackBlock {
    Nv12AfterNoCapsTimeout,
    Nv12AfterAvcDisabled,
    UnexpectedPixelBuffer,
}

pub open spec fn spec_bitmap_fallback(gfx: GfxPipelineDecision, source: BitmapSourceKind) -> Result<(), BitmapFallbackBlock> {
    match source {
        BitmapSourceKind::Bgra => Ok(()),
        BitmapSourceKind::PixelBuffer => if gfx.hopeless && gfx.no_caps_timed_out {
            Err(BitmapFallbackBlock::Nv12AfterNoCapsTimeout)
        } else if gfx.hopeless {
            Err(BitmapFallbackBlock::Nv12AfterAvcDisabled)
        } else {
            Err(BitmapFallbackBlock::UnexpectedPixelBuffer)
        },
    }
}

/// The bitmap path needs BGRA bytes; pixel-buffer frames are refused, with
/// the reason.
pub fn bitmap_fallback_decision(gfx: &GfxPipelineDecision, source: BitmapSourceKind) -> (r: Result<(), BitmapFallbackBlock>)
    ensures
        r == spec_bitmap_fallback(*gfx, source),
{
    match source {
        BitmapSourceKind::Bgra => Ok(()),
        BitmapSourceKind::PixelBuffer => {
            if gfx.hopeless && gfx.no_caps_timed_out {
                Err(BitmapFallbackBlock::Nv12AfterNoCapsTimeout)
            } else if gfx.hopeless {
                Err(BitmapFallbackBlock::Nv12AfterAvcDisabled)
            } else {
                Err(BitmapFallbackBlock::UnexpectedPixelBuffer)
            }
        },
    }
}

// ---------------------------------------------------------------------------
// Per-frame decisions
// ---------------------------------------------------------------------------

/// What is known when a captured frame arrives.
#[derive(Debug, Clone, Copy, PartialEq, Eq, Structural)]
pub struct FrameFacts {
    pub gfx: GfxStatus,
    pub encoder_available: bool,
    pub encoder_supports_444: bool,
    /// The frame pacer allows sending now.
    pub pacer_allows: bool,
    /// The frame is known to be unchanged.
    pub known_unchanged: bool,
    pub now_ns: u64,
    /// The network-scaled bitrate.
    pub adaptive_bitrate: u32,
}

/// The first decision on a captured frame.
#[derive(Debug, Clone, Copy, PartialEq, Eq, Structural)]
pub enum FrameStep {
    /// Send nothing for this frame.
    Skip,
    /// Send the default pointer only (GFX not ready yet, or nothing encoded).
    DefaultPointer,
    /// Encode for the GFX channel.
    Encode { force_keyframe: bool, set_bitrate: Option<u32>, try_444: bool },
    /// Take the bitmap path.
    Bitmap,
}

/// State the per-frame decisions keep between frames.
#[derive(Debug, Clone, Copy, PartialEq, Eq, Structural)]
pub struct FramePipeline {
    /// Frames still to skip because of ack backpressure.
    pub backpressure_skip_remaining: u32,
    /// Frames handed to the encoder.
    pub display_frame_count: u64,
    /// Frames spent waiting for a usable GFX channel.
    pub gfx_wait_frames: u64,
    /// Consecutive frames with the GFX channel open and no capabilities.
    pub gfx_no_caps_frames: u64,
    pub idle: IdleFrameController,
    pub adaptive: AdaptiveBitrateController,
    pub mode_444: bool,
    pub frame_rate: u32,
}

/// The pipeline state after the first decision on a frame, the GFX decision
/// it was made under, and the step taken.
pub open spec fn spec_decide(p: FramePipeline, f: FrameFacts) -> (FramePipeline, GfxPipelineDecision, FrameStep) {
    let no_caps: u64 = if f.gfx.channel_open && !f.gfx.caps_confirmed {
        (p.gfx_no_caps_frames + 1) as u64
    } else {
        0
    };
    let timeout = (if p.frame_rate >= 1 { p.frame_rate as nat } else { 1 }) * GFX_CAPS_WAIT_TIMEOUT_SECONDS;
    let gfx = spec_gfx_decision(f.gfx, f.encoder_available, p.mode_444, no_caps, timeout as u64);
    let p1 = FramePipeline { gfx_no_caps_frames: no_caps, ..p };
    if gfx.ready {
        if p1.backpressure_skip_remaining > 0 {
            (FramePipeline { backpressure_skip_remaining: (p1.backpressure_skip_remaining - 1) as u32, ..p1 }, gfx, FrameStep::Skip)
        } else if !f.pacer_allows {
            (p1, gfx, FrameStep::Skip)
        } else {
            let d = spec_idle_decision(p1.idle, f.known_unchanged, f.now_ns);
            if d == IdleFrameDecision::Skip {
                let idle = IdleFrameController {
                    skipped_unchanged_frames: (p1.idle.skipped_unchanged_frames + 1) as u64,
                    ..p1.idle
                };
                (FramePipeline { idle, ..p1 }, gfx, FrameStep::Skip)
            } else {
                let count = (p1.display_frame_count + 1) as u64;
                let (adaptive, set_bitrate) = spec_next_update(p1.adaptive, count, f.adaptive_bitrate);
                (
                    FramePipeline { display_frame_count: count, adaptive, ..p1 },
                    gfx,
                    FrameStep::Encode {
                        force_keyframe: count == 1 || d == (IdleFrameDecision::Encode { force_keyframe: true }),
                        set_bitrate,
                        try_444: gfx.use_444 && f.encoder_supports_444,
                    },
                )
            }
        }
    } else if f.encoder_available && !gfx.hopeless {
        (FramePipeline { gfx_wait_frames: (p1.gfx_wait_frames + 1) as u64, ..p1 }, gfx, FrameStep::DefaultPointer)
    } else if gfx.hopeless {
        (FramePipeline { gfx_wait_frames: (p1.gfx_wait_frames + 1) as u64, ..p1 }, gfx, FrameStep::Bitmap)
    } else {
        (p1, gfx, FrameStep::Bitmap)
    }
}

/// Where a frame to encode goes first.
#[derive(Debug, Clone, Copy, PartialEq, Eq, Structural)]
pub enum EncodePath {
    /// A captured pixel buffer, encoded without a copy.
    PixelBuffer,
    /// Raw BGRA into the dual-stream AVC444 encoder.
    Avc444,
    /// Raw BGRA into the AVC420 encoder.
    Avc420,
}

/// What an encode call gave.
#[derive(Debug, Clone, Copy, PartialEq, Eq, Structural)]
pub enum EncodeOutcome {
    /// Encoded data.
    Frame,
    /// Success with no data.
    Empty,
    /// An error.
    Failed,
}

/// What follows an encode call.
#[derive(Debug, Clone, Copy, PartialEq, Eq, Structural)]
pub enum AfterEncode {
    /// Send the encoded frame.
    Send,
    /// Nothing was encoded; send the default pointer.
    DefaultPointer,
    /// AVC444 failed; encode the frame as AVC420.
    TryAvc420,
    /// AVC420 failed; take the bitmap path.
    BitmapPath,
}

/// The first encode path: pixel buffers go to the zero-copy encoder; raw
/// frames go to AVC444 when the frame step asked for it, else to AVC420.
pub open spec fn spec_first_encode_path(pixel_buffer: bool, try_444: bool) -> EncodePath {
    if pixel_buffer {
        EncodePath::PixelBuffer
    } else if try_444 {
        EncodePath::Avc444
    } else {
        EncodePath::Avc420
    }
}

pub fn first_encode_path(pixel_buffer: bool, try_444: bool) -> (p: EncodePath)
    ensures
        p == spec_first_encode_path(pixel_buffer, try_444),
{
    if pixel_buffer {
        EncodePath::PixelBuffer
    } else if try_444 {
        EncodePath::Avc444
    } else {
        EncodePath::Avc420
    }
}

/// After an encode call: encoded data is sent; empty output sends the
/// default pointer; a failure sends the default pointer on the zero-copy
/// path, falls back to AVC420 after AVC444, and to the bitmap path after
/// AVC420.
pub open spec fn spec_after_encode(path: EncodePath, outcome: EncodeOutcome) -> AfterEncode {
    match outcome {
        EncodeOutcome::Frame => AfterEncode::Send,
        EncodeOutcome::Empty => AfterEncode::DefaultPointer,
        EncodeOutcome::Failed => match path {
            EncodePath::PixelBuffer => AfterEncode::DefaultPointer,
            EncodePath::Avc444 => AfterEncode::TryAvc420,
            EncodePath::Avc420 => AfterEncode::BitmapPath,
        },
    }
}

pub fn after_encode(path: EncodePath, outcome: EncodeOutcome) -> (a: AfterEncode)
    ensures
        a == spec_after_encode(path, outcome),
{
    match outcome {
        EncodeOutcome::Frame => AfterEncode::Send,
        EncodeOutcome::Empty => AfterEncode::DefaultPointer,
        EncodeOutcome::Failed => match path {
            EncodePath::PixelBuffer => AfterEncode::DefaultPointer,
            EncodePath::Avc444 => AfterEncode::TryAvc420,
            EncodePath::Avc420 => AfterEncode::BitmapPath,
        },
    }
}

/// The bitmap path's outcome.
#[derive(Debug, Clone, Copy, PartialEq, Eq, Structural)]
pub enum BitmapStep {
    /// The frame cannot be bitmap-encoded; send the default pointer.
    Blocked(BitmapFallbackBlock),
    /// Idle skip; send nothing.
    Skip,
    /// A degenerate size; send nothing.
    Nothing,
    /// Send the dirty region.
    Region { x: u32, y: u32, width: u32, height: u32 },
    /// Send the whole frame.
    FullFrame,
}

impl FramePipeline {
    pub fn new(base_bitrate: u32, skip_unchanged: bool, idle_keyframe_interval_ns: Option<u64>, mode_444: bool, frame_rate: u32) -> (p: Self)
        ensures
            p == (FramePipeline {
                backpressure_skip_remaining: 0,
                display_frame_count: 0,
                gfx_wait_frames: 0,
                gfx_no_caps_frames: 0,
                idle: IdleFrameController {
                    skip_unchanged,
                    idle_keyframe_interval_ns,
                    last_sent_at_ns: None,
                    skipped_unchanged_frames: 0,
                },
                adaptive: AdaptiveBitrateController { base_bitrate, current_bitrate: base_bitrate, last_update_frame: 0 },
                mode_444,
                frame_rate,
            }),
    {
        FramePipeline {
            backpressure_skip_remaining: 0,
            display_frame_count: 0,
            gfx_wait_frames: 0,
            gfx_no_caps_frames: 0,
            idle: IdleFrameController::new(skip_unchanged, idle_keyframe_interval_ns),
            adaptive: AdaptiveBitrateController::new(base_bitrate),
            mode_444,
            frame_rate,
        }
    }

    /// No counter is at its limit.
    pub open spec fn counters_ok(&self) -> bool {
        &&& self.display_frame_count < u64::MAX
        &&& self.gfx_wait_frames < u64::MAX
        &&& self.gfx_no_caps_frames < u64::MAX
        &&& self.idle.skipped_unchanged_frames < u64::MAX
    }

    /// First decision on a captured frame: backpressure, pacing and idle
    /// skips on a ready GFX channel, otherwise encode with a forced keyframe
    /// on the first frame and after an idle interval and with any adaptive
    /// bitrate change; while GFX may still come up, the default pointer;
    /// once it cannot, the bitmap path.
    pub fn decide(&mut self, facts: FrameFacts) -> (r: (GfxPipelineDecision, FrameStep))
        requires
            old(self).counters_ok(),
        ensures
            (*final(self), r.0, r.1) == spec_decide(*old(self), facts),
    {
        if facts.gfx.channel_open && !facts.gfx.caps_confirmed {
            self.gfx_no_caps_frames = self.gfx_no_caps_frames + 1;
        } else {
            self.gfx_no_caps_frames = 0;
        }
        let gfx = gfx_pipeline_decision(
            facts.gfx,
            facts.encoder_available,
            self.mode_444,
            self.gfx_no_caps_frames,
            gfx_caps_timeout_frames(self.frame_rate),
        );
        if gfx.ready {
            if self.backpressure_skip_remaining > 0 {
                self.backpressure_skip_remaining = self.backpressure_skip_remaining - 1;
                return (gfx, FrameStep::Skip);
            }
            if !facts.pacer_allows {
                return (gfx, FrameStep::Skip);
            }
            let d = self.idle.next_decision(facts.known_unchanged, facts.now_ns);
            match d {
                IdleFrameDecision::Skip => {
                    self.idle.record_skipped();
                    return (gfx, FrameStep::Skip);
                },
                IdleFrameDecision::Encode { force_keyframe } => {
                    self.display_frame_count = self.display_frame_count + 1;
                    let set_bitrate = self.adaptive.next_update(self.display_frame_count, facts.adaptive_bitrate);
                    return (
                        gfx,
                        FrameStep::Encode {
                            force_keyframe: self.display_frame_count == 1 || force_keyframe,
                            set_bitrate,
                            try_444: gfx.use_444 && facts.encoder_supports_444,
                        },
                    );
                },
            }
        } else if facts.encoder_available && !gfx.hopeless {
            self.gfx_wait_frames = self.gfx_wait_frames + 1;
            return (gfx, FrameStep::DefaultPointer);
        } else if gfx.hopeless {
            self.gfx_wait_frames = self.gfx_wait_frames + 1;
        }
        (gfx, FrameStep::Bitmap)
    }

    /// After a GFX frame was sent: arm backpressure by the ack queue depth.
    pub fn update_backpressure(&mut self, pending_acks: u32)
        ensures
            *final(self) == (FramePipeline {
                backpressure_skip_remaining: spec_backpressure_skip(pending_acks),
                ..*old(self)
            }),
    {
        self.backpressure_skip_remaining = backpressure_skip_count(pending_acks);
    }

    /// After any frame was sent.
    pub fn record_frame_sent(&mut self, now_ns: u64)
        ensures
            *final(self) == (FramePipeline {
                idle: IdleFrameController {
                    last_sent_at_ns: Some(now_ns),
                    skipped_unchanged_frames: 0,
                    ..old(self).idle
                },
                ..*old(self)
            }),
    {
        self.idle.record_sent(now_ns);
    }

    /// The bitmap path: refused for pixel-buffer frames; an idle skip for
    /// unchanged frames; else the dirty region's bounding box, or the whole
    /// frame when there is none; nothing when the size is degenerate (a
    /// zero `u16` width or height, or a zero stride).
    pub fn bitmap_step(&mut self, gfx: GfxPipelineDecision, source: BitmapSourceKind, known_unchanged: bool, now_ns: u64, dirty_rects: &[Rect], frame_width: u32, frame_height: u32, stride: usize) -> (r: BitmapStep)
        requires
            old(self).idle.skipped_unchanged_frames < u64::MAX,
            rects_in_range(dirty_rects@),
        ensures
            match spec_bitmap_fallback(gfx, source) {
                Err(b) => r == BitmapStep::Blocked(b) && *final(self) == *old(self),
                Ok(_) => if spec_idle_decision(old(self).idle, known_unchanged, now_ns) == IdleFrameDecision::Skip {
                    &&& r == BitmapStep::Skip
                    &&& *final(self) == (FramePipeline {
                        idle: IdleFrameController {
                            skipped_unchanged_frames: (old(self).idle.skipped_unchanged_frames + 1) as u64,
                            ..old(self).idle
                        },
                        ..*old(self)
                    })
                } else {
                    let sent = *final(self) == (FramePipeline {
                        idle: IdleFrameController {
                            last_sent_at_ns: Some(now_ns),
                            skipped_unchanged_frames: 0,
                            ..old(self).idle
                        },
                        ..*old(self)
                    });
                    match spec_dirty_bounding_box(dirty_rects@, frame_width, frame_height) {
                        Some((x, y, w, h)) => if w % 0x10000 == 0 || h % 0x10000 == 0 {
                            r == BitmapStep::Nothing && *final(self) == *old(self)
                        } else {
                            r == (BitmapStep::Region { x, y, width: w, height: h }) && sent
                        },
                        None => if frame_width % 0x10000 == 0 || frame_height % 0x10000 == 0 || stride == 0 {
                            r == BitmapStep::Nothing && *final(self) == *old(self)
                        } else {
                            r == BitmapStep::FullFrame && sent
                        },
                    }
                },
            },
    {
        match bitmap_fallback_decision(&gfx, source) {
            Err(b) => {
                return BitmapStep::Blocked(b);
            },
            Ok(()) => {},
        }
        if self.idle.next_decision(known_unchanged, now_ns) == IdleFrameDecision::Skip {
            self.idle.record_skipped();
            return BitmapStep::Skip;
        }
        match dirty_bounding_box(dirty_rects, frame_width, frame_height) {
            Some((x, y, w, h)) => {
                if w % 0x10000 == 0 || h % 0x10000 == 0 {
                    return BitmapStep::Nothing;
                }
                self.idle.record_sent(now_ns);
                BitmapStep::Region { x, y, width: w, height: h }
            },
            None => {
                if frame_width % 0x10000 == 0 || frame_height % 0x10000 == 0 || stride == 0 {
                    return BitmapStep::Nothing;
                }
                self.idle.record_sent(now_ns);
                BitmapStep::FullFrame
            },
        }
    }
}

/// The rows of the region (`x`, `y`, `width`, `height`) of a BGRA frame,
/// each row kept only when it lies wholly within the buffer.
pub open spec fn region_rows(bgra: Seq<u8>, stride: nat, x: nat, y: nat, width: nat, rows: nat) -> Seq<u8>
    decreases rows,
{
    if rows == 0 {
        seq![]
    } else {
        let row = y + rows - 1;
        let start = row * stride + x * 4;
        let end = start + width * 4;
        let prev = region_rows(bgra, stride, x, y, width, (rows - 1) as nat);
        if end <= bgra.len() {
            prev + bgra.subrange(start as int, end as int)
        } else {
            prev
        }
    }
}

/// The BGRA bytes of a dirty region, row by row.
pub fn extract_region(bgra: &[u8], stride: usize, x: u32, y: u32, width: u32, height: u32) -> (out: Vec<u8>)
    requires
        y + height <= usize::MAX,
        (y + height) * stride + x * 4 + width * 4 <= usize::MAX,
    ensures
        out@ == region_rows(bgra@, stride as nat, x as nat, y as nat, width as nat, height as nat),
{
    let mut out: Vec<u8> = Vec::new();
    let mut k: u32 = 0;
    while k < height
        invariant
            k <= height,
            y + height <= usize::MAX,
            (y + height) * stride + x * 4 + width * 4 <= usize::MAX,
            out@ == region_rows(bgra@, stride as nat, x as nat, y as nat, width as nat, k as nat),
        decreases height - k,
    {
        let row: usize = y as usize + k as usize;
        proof {
            assert(row * stride <= (y + height) * stride) by (nonlinear_arith)
                requires
                    row <= y + height,
            ;
        }
        let start: usize = row * stride + (x as usize) * 4;
        let end: usize = start + (width as usize) * 4;
        if end <= bgra.len() {
            let mut i = start;
            let ghost before = out@;
            while i < end
                invariant
                    start <= i <= end <= bgra@.len(),
                    out@ == before + bgra@.subrange(start as int, i as int),
                decreases end - i,
            {
                out.push(bgra[i]);
                assert(out@ =~= before + bgra@.subrange(start as int, i + 1));
                i = i + 1;
            }
        }
        k = k + 1;
    }
    out
}

} // verus!
