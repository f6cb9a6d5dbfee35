//! Tuning constants of the host, with the reason for each value.

use vstd::prelude::*;

verus! {

/// Operating-system family the host runs on; a few limits depend on it.
#[derive(Debug, Clone, Copy, PartialEq, Eq, Structural)]
pub enum HostOs {
    MacOs,
    Windows,
    Linux,
    Other,
}

/// Focus/raise cache lifetime: redundant raises within it are skipped.
pub const FOCUS_CACHE_MS: u64 = 450;

/// After a pointer press the owner may finish the gesture for this long.
pub const DRAG_GRACE_MS: u64 = 2000;

/// Per-peer video queue depth before deltas are dropped. A depth of 2 dropped
/// H.264 keyframes under load and froze clients waiting for a key.
pub const FRAME_QUEUE_DEPTH: usize = 12;

/// Control (JSON) outbound queue depth.
pub const CTRL_QUEUE_DEPTH: usize = 64;

/// Adaptive H.264 bitrate ladder (bit/s) for network pressure 0..=3; soft steps
/// so software encoding stays real-time.
pub const BITRATE_LADDER_BPS: [u32; 4] = [6_000_000, 4_000_000, 2_800_000, 1_800_000];

/// Target bitrate of the broadcast (Live) preset.
pub const BROADCAST_BITRATE_BPS: u32 = 6_000_000;

/// Broadcast capture width limit with a hardware encoder.
pub const BROADCAST_MAX_WIDTH: u32 = 1920;

/// Capture width limit when H.264 runs in software: wider frames miss the
/// frame period on typical CPUs and the stream looks frozen.
pub const H264_SW_MAX_WIDTH: u32 = 1280;

/// Minimum interval between live encoder re-creations (bitrate adaptation).
pub const H264_RECONFIG_MIN_MS: u64 = 4000;

/// Default JPEG quality, in percent.
pub const DEFAULT_JPEG_QUALITY_PCT: u32 = 92;

/// Default capture rate of the JPEG stream.
pub const DEFAULT_JPEG_FPS: u32 = 20;

/// Default HTTP/WebSocket port (8080 is the WebDock app's).
pub const DEFAULT_PORT: u16 = 8090;

/// Minimum interval between two "input busy" notices to one peer.
pub const INPUT_BUSY_NOTIFY_INTERVAL_MS: u64 = 1000;

/// How long an idle exclusive input seat is held.
pub const INPUT_SEAT_TTL_MS: u64 = 850;

/// Effective H.264 width cap: hardware encoding on macOS, software elsewhere.
pub open spec fn spec_h264_max_width(os: HostOs) -> u32 {
    if os == HostOs::MacOs {
        BROADCAST_MAX_WIDTH
    } else {
        H264_SW_MAX_WIDTH
    }
}

/// Effective H.264 width cap: hardware encoding on macOS, software elsewhere.
#[verifier::when_used_as_spec(spec_h264_max_width)]
pub fn h264_max_width(os: HostOs) -> (w: u32)
    ensures
        w == spec_h264_max_width(os),
{
    match os {
        HostOs::MacOs => BROADCAST_MAX_WIDTH,
        _ => H264_SW_MAX_WIDTH,
    }
}

} // verus!
