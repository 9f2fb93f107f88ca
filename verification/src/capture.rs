//! What the capturer makes of a sample from the screen capture stream:
//! whether it is a frame at all, its time stamp, and the display scale.

use vstd::prelude::*;

verus! {

/// Status the capture stream attaches to a sample.
#[derive(Debug, Clone, Copy, PartialEq, Eq, Structural)]
pub enum FrameStatus {
    Complete,
    Idle,
    Blank,
    Suspended,
    Started,
    Stopped,
}

/// What a sample becomes.
#[derive(Debug, Clone, Copy, PartialEq, Eq, Structural)]
pub enum SampleDisposition {
    /// The desktop is unchanged.
    Idle,
    /// Nothing to show: dropped.
    Discard,
    /// Its pixels are read as a frame.
    Frame,
}

/// An idle sample says the desktop is unchanged; blank, suspended and
/// stopped samples are dropped; any other sample, or one without a status,
/// carries pixels.
pub fn sample_disposition(status: Option<FrameStatus>) -> (d: SampleDisposition)
    ensures
        d == (match status {
            Some(FrameStatus::Idle) => SampleDisposition::Idle,
            Some(FrameStatus::Blank) | Some(FrameStatus::Suspended) | Some(FrameStatus::Stopped) =>
                SampleDisposition::Discard,
            _ => SampleDisposition::Frame,
        }),
{
    match status {
        Some(FrameStatus::Idle) => SampleDisposition::Idle,
        Some(FrameStatus::Blank) | Some(FrameStatus::Suspended) | Some(FrameStatus::Stopped) =>
            SampleDisposition::Discard,
        _ => SampleDisposition::Frame,
    }
}

/// A presentation time of `value / timescale` seconds in whole
/// microseconds (truncated to 64 bits); zero without a positive timescale.
pub fn presentation_timestamp_us(value: i64, timescale: i32) -> (us: u64)
    requires
        value >= 0,
    ensures
        us == (if timescale > 0 { ((value * 1_000_000) / (timescale as int)) as u64 } else { 0 }),
{
    if timescale > 0 {
        let v: u128 = value as u128;
        assert(v * 1_000_000 <= 0x8000_0000_0000_0000u128 * 1_000_000);
        #[verifier::truncate]
        (((v * 1_000_000) / timescale as u128) as u64)
    } else {
        0
    }
}

/// The display's backing scale: physical over logical width, at least 1.
pub fn display_scale(physical_w: u32, logical_w: u32) -> (s: u32)
    ensures
        s == (if logical_w > 0 && physical_w / logical_w >= 1 { physical_w / logical_w } else { 1 }),
{
    let scale = if logical_w > 0 { physical_w / logical_w } else { 1 };
    if scale >= 1 {
        scale
    } else {
        1
    }
}

} // verus!
