//! Decisions of the capture side: which windows are listed, the pacing and
//! size of a capture stream, and when the H.264 encoder of a stream is
//! (re)created or nudged. The host runs the capture loop (grabbing frames,
//! encoding, sleeping) and asks these functions what to do.

use vstd::prelude::*;

use crate::platform::{StreamConfig, StreamFormat};
use crate::text::{chars_of, eq_str, lower, lower_chars, push_chars, push_str_chars, string_of};
use crate::tuning::H264_RECONFIG_MIN_MS;

verus! {

/// System chrome that is never offered as a window (Dock, wallpaper, ...).
pub open spec fn spec_is_system_app(name: Seq<char>) -> bool {
    ||| name == "Dock"@
    ||| name == "Window Server"@
    ||| name == "WindowServer"@
    ||| name == "Wallpaper"@
    ||| name == "WallpaperAgent"@
    ||| name == "Control Center"@
    ||| name == "Notification Center"@
    ||| name == "Spotlight"@
    ||| name == "WindowManager"@
    ||| name == "Menubar"@
    ||| name == "Menu Bar"@
    ||| name == "Screenshot"@
    ||| name == "coreautha"@
    ||| name == "universalaccessd"@
    ||| name == "SystemUIServer"@
    ||| name == "ControlStrip"@
    ||| name == "loginwindow"@
    ||| name == "UserNotificationCenter"@
    ||| name == "TextInputMenuAgent"@
    ||| name == "TextInputSwitcher"@
    ||| name == "WebRust"@
    ||| lower(name) == "dock"@
}

/// Whether `name` is system chrome.
pub fn is_system_app(name: &str) -> (r: bool)
    ensures
        r == spec_is_system_app(name@),
{
    let c = chars_of(name);
    let v = c.as_slice();
    eq_str(v, "Dock") || eq_str(v, "Window Server") || eq_str(v, "WindowServer") || eq_str(
        v,
        "Wallpaper",
    ) || eq_str(v, "WallpaperAgent") || eq_str(v, "Control Center") || eq_str(
        v,
        "Notification Center",
    ) || eq_str(v, "Spotlight") || eq_str(v, "WindowManager") || eq_str(v, "Menubar") || eq_str(
        v,
        "Menu Bar",
    ) || eq_str(v, "Screenshot") || eq_str(v, "coreautha") || eq_str(v, "universalaccessd")
        || eq_str(v, "SystemUIServer") || eq_str(v, "ControlStrip") || eq_str(v, "loginwindow")
        || eq_str(v, "UserNotificationCenter") || eq_str(v, "TextInputMenuAgent") || eq_str(
        v,
        "TextInputSwitcher",
    ) || eq_str(v, "WebRust") || eq_str(lower_chars(v).as_slice(), "dock")
}

/// A window is listed when it is visible, at least 40×40, named, not system
/// chrome and not the host's own window (`own_pid`).
pub open spec fn spec_window_listed(
    minimized: bool,
    width: u32,
    height: u32,
    name: Seq<char>,
    title: Seq<char>,
    pid: i32,
    own_pid: i32,
) -> bool {
    &&& !minimized
    &&& width >= 40 && height >= 40
    &&& !(title.len() == 0 && (name.len() == 0 || name == "?"@))
    &&& !spec_is_system_app(name)
    &&& !(pid > 0 && pid == own_pid)
}

/// Whether a window of the system's list is offered to browsers (`name` is
/// "?" when the system gave no application name).
pub fn window_listed(
    minimized: bool,
    width: u32,
    height: u32,
    name: &str,
    title: &str,
    pid: i32,
    own_pid: i32,
) -> (r: bool)
    ensures
        r == spec_window_listed(minimized, width, height, name@, title@, pid, own_pid),
{
    if minimized || width < 40 || height < 40 {
        return false;
    }
    let n = chars_of(name);
    let t = chars_of(title);
    if t.len() == 0 && (n.len() == 0 || eq_str(n.as_slice(), "?")) {
        return false;
    }
    if is_system_app(name) {
        return false;
    }
    !(pid > 0 && pid == own_pid)
}

/// Name and title of a display row: the lock screen is shown as such.
pub fn display_labels(locked: bool, monitor_name: &str) -> (r: (String, String))
    ensures
        locked ==> r.0@ == "잠금 화면"@ && r.1@ == "화면 잠김 · "@ + monitor_name@,
        !locked ==> r.0@ == "전체 화면"@ && r.1@ == monitor_name@,
{
    if locked {
        let mut t = chars_of("화면 잠김 · ");
        push_str_chars(&mut t, monitor_name);
        (string_of(chars_of("잠금 화면").as_slice()), string_of(t.as_slice()))
    } else {
        (
            string_of(chars_of("전체 화면").as_slice()),
            string_of(chars_of(monitor_name).as_slice()),
        )
    }
}

/// Capture rate of a stream: 1 to 30 fps for H.264, 1 to 60 otherwise.
pub open spec fn spec_stream_fps(c: StreamConfig) -> u32 {
    let hi: u32 = if c.format == StreamFormat::H264 { 30 } else { 60 };
    if c.fps < 1 {
        1
    } else if c.fps > hi {
        hi
    } else {
        c.fps
    }
}

/// Pacing of a capture stream.
pub struct StreamPlan {
    pub fps: u32,
    /// Frame period in milliseconds (`1000 / fps`).
    pub period_ms: u64,
    /// Frames wider than this are scaled down (at least 320).
    pub max_width: u32,
    /// JPEG quality in percent, 20 to 100.
    pub quality_pct: u8,
    /// Initial live bitrate (at least 400 kbit/s).
    pub bitrate_bps: u32,
}

/// Lowest live H.264 bitrate.
pub const MIN_LIVE_BITRATE_BPS: u32 = 400_000;

/// A requested bitrate raised to the lowest live bitrate.
pub open spec fn spec_live_bitrate(bps: u32) -> u32 {
    if bps < MIN_LIVE_BITRATE_BPS {
        MIN_LIVE_BITRATE_BPS
    } else {
        bps
    }
}

/// Pacing of a stream started with settings `c`.
pub fn stream_plan(c: StreamConfig) -> (p: StreamPlan)
    ensures
        p.fps == spec_stream_fps(c),
        p.period_ms == 1000int / (p.fps as int),
        p.max_width == (if c.max_width < 320 { 320 } else { c.max_width }),
        p.quality_pct == (if c.jpeg_quality_permille < 200 {
            20
        } else if c.jpeg_quality_permille > 1000 {
            100
        } else {
            c.jpeg_quality_permille / 10
        }),
        p.bitrate_bps == spec_live_bitrate(c.bitrate_bps),
{
    let hi: u32 = if c.format == StreamFormat::H264 {
        30
    } else {
        60
    };
    let fps = if c.fps < 1 {
        1
    } else if c.fps > hi {
        hi
    } else {
        c.fps
    };
    let q = if c.jpeg_quality_permille < 200 {
        200
    } else if c.jpeg_quality_permille > 1000 {
        1000
    } else {
        c.jpeg_quality_permille
    };
    StreamPlan {
        fps,
        period_ms: 1000 / (fps as u64),
        max_width: if c.max_width < 320 {
            320
        } else {
            c.max_width
        },
        quality_pct: (q / 10) as u8,
        bitrate_bps: live_bitrate(c.bitrate_bps),
    }
}

/// A requested live bitrate raised to the lowest live bitrate.
pub fn live_bitrate(bps: u32) -> (r: u32)
    ensures
        r == spec_live_bitrate(bps),
{
    if bps < MIN_LIVE_BITRATE_BPS {
        MIN_LIVE_BITRATE_BPS
    } else {
        bps
    }
}

/// New live bitrate of a running stream, and whether a keyframe is forced
/// (when the bitrate changes, so that browsers resync cleanly).
pub fn bitrate_change(current: u32, requested: u32) -> (r: (u32, bool))
    ensures
        r.0 == spec_live_bitrate(requested),
        r.1 == (spec_live_bitrate(requested) != current),
{
    let b = live_bitrate(requested);
    (b, b != current)
}

/// H.264 frame size: width and height rounded down to even numbers, or
/// `None` when a side would be under 2 (the frame is skipped).
pub fn even_dims(w: u32, h: u32) -> (r: Option<(u32, u32)>)
    ensures
        match r {
            Some((ew, eh)) => ew == w - w % 2 && eh == h - h % 2 && ew >= 2 && eh >= 2,
            None => w - w % 2 < 2 || h - h % 2 < 2,
        },
{
    let ew = w - w % 2;
    let eh = h - h % 2;
    if ew < 2 || eh < 2 {
        None
    } else {
        Some((ew, eh))
    }
}

/// Encoder of a running H.264 stream, as the loop sees it.
#[derive(Debug, Clone, Copy, PartialEq, Eq, Structural)]
pub struct EncoderSpec {
    pub width: u32,
    pub height: u32,
    pub bitrate_bps: u32,
}

/// Model of the H.264 part of a capture loop.
pub struct H264LoopView {
    pub encoder: Option<EncoderSpec>,
    pub empty_streak: u32,
    /// Wall-clock milliseconds of the last encoder creation (0: none yet).
    pub last_reconfig_ms: u64,
}

/// Whether the encoder may be re-created for a bitrate change at `now_ms`.
pub open spec fn reconfig_allowed(last_ms: u64, now_ms: u64) -> bool {
    last_ms == 0 || (if now_ms >= last_ms { now_ms - last_ms } else { 0 }) >= H264_RECONFIG_MIN_MS
}

/// Distance of two bitrates.
pub open spec fn bitrate_gap(a: u32, b: u32) -> u32 {
    if a >= b {
        (a - b) as u32
    } else {
        (b - a) as u32
    }
}

/// A new encoder is needed: none yet, the frame size changed, or (no more
/// often than every 4 s) the wanted bitrate moved by more than a quarter.
pub open spec fn spec_needs_encoder(v: H264LoopView, w: u32, h: u32, want: u32, now_ms: u64) -> bool {
    match v.encoder {
        None => true,
        Some(e) => e.width != w || e.height != h || (reconfig_allowed(v.last_reconfig_ms, now_ms)
            && bitrate_gap(e.bitrate_bps, want) > want / 4),
    }
}

/// H.264 state of one capture loop.
pub struct H264Loop {
    pub encoder: Option<EncoderSpec>,
    pub empty_streak: u32,
    pub last_reconfig_ms: u64,
}

impl View for H264Loop {
    type V = H264LoopView;

    open spec fn view(&self) -> H264LoopView {
        H264LoopView {
            encoder: self.encoder,
            empty_streak: self.empty_streak,
            last_reconfig_ms: self.last_reconfig_ms,
        }
    }
}

/// Empty encodes after which a keyframe is forced.
pub const EMPTY_STREAK_FORCE_KEY: u32 = 3;

/// Empty encodes after which the encoder is dropped and re-created.
pub const EMPTY_STREAK_RECREATE: u32 = 15;

impl H264Loop {
    /// No encoder yet.
    pub fn new() -> (l: H264Loop)
        ensures
            l@.encoder is None,
            l@.empty_streak == 0,
            l@.last_reconfig_ms == 0,
    {
        H264Loop { encoder: None, empty_streak: 0, last_reconfig_ms: 0 }
    }

    /// Whether a new encoder is needed for a `w`×`h` frame when the stream
    /// wants `want` bit/s, at wall-clock `now_ms`.
    pub fn needs_encoder(&self, w: u32, h: u32, want: u32, now_ms: u64) -> (r: bool)
        ensures
            r == spec_needs_encoder(self@, w, h, want, now_ms),
    {
        match self.encoder {
            None => true,
            Some(e) => {
                let since = if now_ms >= self.last_reconfig_ms {
                    now_ms - self.last_reconfig_ms
                } else {
                    0
                };
                let ok = self.last_reconfig_ms == 0 || since >= H264_RECONFIG_MIN_MS;
                let gap = if e.bitrate_bps >= want {
                    e.bitrate_bps - want
                } else {
                    want - e.bitrate_bps
                };
                e.width != w || e.height != h || (ok && gap > want / 4)
            },
        }
    }

    /// A new encoder was created at `now_ms`.
    pub fn encoder_opened(&mut self, spec: EncoderSpec, now_ms: u64)
        ensures
            final(self)@ == (H264LoopView { encoder: Some(spec), empty_streak: 0, last_reconfig_ms: now_ms }),
    {
        self.encoder = Some(spec);
        self.last_reconfig_ms = now_ms;
        self.empty_streak = 0;
    }

    /// An encode produced a frame.
    pub fn encode_ok(&mut self)
        ensures
            final(self)@ == (H264LoopView { empty_streak: 0, ..old(self)@ }),
    {
        self.empty_streak = 0;
    }

    /// An encode produced nothing. Returns whether to force a keyframe and
    /// whether the encoder was dropped (to be re-created on the next frame).
    pub fn encode_empty(&mut self) -> (r: (bool, bool))
        ensures
            ({
                let s = if old(self)@.empty_streak == u32::MAX {
                    u32::MAX
                } else {
                    (old(self)@.empty_streak + 1) as u32
                };
                &&& r.0 == (s >= EMPTY_STREAK_FORCE_KEY)
                &&& r.1 == (s >= EMPTY_STREAK_RECREATE)
                &&& r.1 ==> final(self)@ == (H264LoopView {
                    encoder: None,
                    empty_streak: 0,
                    ..old(self)@
                })
                &&& !r.1 ==> final(self)@ == (H264LoopView { empty_streak: s, ..old(self)@ })
            }),
    {
        self.empty_streak = self.empty_streak.saturating_add(1);
        let force = self.empty_streak >= EMPTY_STREAK_FORCE_KEY;
        let drop = self.empty_streak >= EMPTY_STREAK_RECREATE;
        if drop {
            self.encoder = None;
            self.empty_streak = 0;
        }
        (force, drop)
    }
}

/// A frame of a new size always gets a new encoder.
pub proof fn lemma_resize_recreates(v: H264LoopView, w: u32, h: u32, want: u32, now_ms: u64)
    requires
        v.encoder matches Some(e) && (e.width != w || e.height != h),
    ensures
        spec_needs_encoder(v, w, h, want, now_ms),
{
}

/// Within 4 s of the last creation, a bitrate change alone never re-creates
/// the encoder (no thrash under adaptive bitrate).
pub proof fn lemma_no_reconfig_thrash(v: H264LoopView, want: u32, now_ms: u64)
    requires
        v.encoder matches Some(e),
        v.last_reconfig_ms != 0,
        v.last_reconfig_ms <= now_ms < v.last_reconfig_ms + H264_RECONFIG_MIN_MS,
    ensures
        !spec_needs_encoder(v, v.encoder->0.width, v.encoder->0.height, want, now_ms),
{
}

} // verus!
