//! Decisions of the WebSocket control channel: what the host does for each
//! message of a browser.
//!
//! The host hands `Control::handle` a decoded request together with the few
//! facts that only the platform knows (whether a window is listed, the
//! current input method); `handle` updates the peer hub, the input seat and
//! the stream settings, and returns the effects to perform, in order. The
//! host performs them (platform calls, outgoing messages, capture tasks).
//! Pointer coordinates and scroll deltas are passed through by the host
//! unchanged and do not appear here.

use vstd::prelude::*;

use std::time::Instant;

use crate::clock::{instant_now, nanos_since};
use crate::hub::{viewed_by, HubView, PeerHub};
use crate::platform::{MousePhase, StreamConfig, StreamFormat};
use crate::protocol::RouteId;
use crate::route::{is_display_route, spec_is_display_route};
use crate::seat::{InputKind, InputSeat, SeatResult, SeatView};
use crate::text::{chars_of, eq_str, lower, lower_chars, push_chars, push_str_chars, string_of};
use crate::tuning::{h264_max_width, HostOs, BITRATE_LADDER_BPS, BROADCAST_BITRATE_BPS};

verus! {

/// A decoded browser message with the platform facts its handling reads.
#[derive(Debug)]
pub enum Request {
    Select { id: RouteId },
    Refresh,
    Apps,
    Down { button: i32, count: i32 },
    Move { button: i32, count: i32 },
    Up { button: i32, count: i32 },
    Click,
    Scroll,
    Key { code: String, meta: bool, ctrl: bool, shift: bool, alt: bool },
    Text { value: String, replace: u32 },
    /// `current` is the active input method, read only when `korean` is None.
    Ime { korean: Option<bool>, current: bool },
    ImeState,
    ImeHeal,
    Launch { path: String, new_instance: bool },
    /// `listed`: the route is in the window list; `list_pid`: owner pid the
    /// host resolved for it (0 if none); `client_pid`: pid the browser sent
    /// (0 if none); `client_pid_listed`: that pid owns a listed window.
    Close { id: RouteId, listed: bool, list_pid: i32, client_pid: i32, client_pid_listed: bool },
    /// `listed`: the pid owns a listed window.
    Quit { pid: i32, listed: bool },
    ClipAuto { value: bool },
    ClipboardGet,
    /// JPEG quality in thousandths.
    Quality { permille: i64 },
    Format { value: String },
    Preset { value: String },
    Keyframe { id: RouteId },
    Stats { pressure: Option<i32> },
    Fps { value: i32 },
    Resize { w: i32, h: i32 },
}

/// What the host is to do.
#[derive(Debug)]
pub enum Effect {
    /// Stop the capture of a route.
    StopCapture { route: i64 },
    /// Start a capture task for a route with the current stream settings;
    /// when it ends, the host reports `gen` back to the hub.
    StartCapture { route: i64, gen: u64 },
    RequestKeyframe { route: i64 },
    SetBitrate { route: i64, bps: u32 },
    BroadcastClients,
    BroadcastMetrics,
    /// Send the window list to the requesting peer.
    PushWindows,
    WakeDisplay,
    /// Send the application list to the requesting peer.
    SendApps,
    Mouse { phase: MousePhase, button: i32, count: i32, target: Option<i64> },
    Scroll { target: Option<i64> },
    /// Inject a key; with `watch_clipboard`, push the host clipboard to the
    /// peer once it changes.
    Key {
        code: String,
        meta: bool,
        ctrl: bool,
        shift: bool,
        alt: bool,
        target: Option<i64>,
        watch_clipboard: bool,
    },
    Text { value: String, replace: u32, target: Option<i64> },
    SetIme { korean: bool },
    /// Report the current input method to the peer.
    ReportIme,
    Launch { path: String, new_instance: bool },
    /// Close a window; on success the window list goes to the peer.
    CloseWindow { route: i64, pid: i32 },
    QuitPid { pid: i32 },
    /// Send the host clipboard to the peer.
    SendClipboard,
    Resize { route: i64, w: i32, h: i32 },
    /// Tell the peer that another browser holds the input.
    NotifyBusy { who: String },
}

/// `Request` with its strings as character sequences.
pub enum RequestView {
    Select { id: RouteId },
    Refresh,
    Apps,
    Down { button: i32, count: i32 },
    Move { button: i32, count: i32 },
    Up { button: i32, count: i32 },
    Click,
    Scroll,
    Key { code: Seq<char>, meta: bool, ctrl: bool, shift: bool, alt: bool },
    Text { value: Seq<char>, replace: u32 },
    Ime { korean: Option<bool>, current: bool },
    ImeState,
    ImeHeal,
    Launch { path: Seq<char>, new_instance: bool },
    Close { id: RouteId, listed: bool, list_pid: i32, client_pid: i32, client_pid_listed: bool },
    Quit { pid: i32, listed: bool },
    ClipAuto { value: bool },
    ClipboardGet,
    Quality { permille: i64 },
    Format { value: Seq<char> },
    Preset { value: Seq<char> },
    Keyframe { id: RouteId },
    Stats { pressure: Option<i32> },
    Fps { value: i32 },
    Resize { w: i32, h: i32 },
}

/// `Effect` with its strings as character sequences.
pub enum EffectView {
    StopCapture { route: i64 },
    StartCapture { route: i64, gen: u64 },
    RequestKeyframe { route: i64 },
    SetBitrate { route: i64, bps: u32 },
    BroadcastClients,
    BroadcastMetrics,
    PushWindows,
    WakeDisplay,
    SendApps,
    Mouse { phase: MousePhase, button: i32, count: i32, target: Option<i64> },
    Scroll { target: Option<i64> },
    Key {
        code: Seq<char>,
        meta: bool,
        ctrl: bool,
        shift: bool,
        alt: bool,
        target: Option<i64>,
        watch_clipboard: bool,
    },
    Text { value: Seq<char>, replace: u32, target: Option<i64> },
    SetIme { korean: bool },
    ReportIme,
    Launch { path: Seq<char>, new_instance: bool },
    CloseWindow { route: i64, pid: i32 },
    QuitPid { pid: i32 },
    SendClipboard,
    Resize { route: i64, w: i32, h: i32 },
    NotifyBusy { who: Seq<char> },
}

impl View for Request {
    type V = RequestView;

    open spec fn view(&self) -> RequestView {
        match self {
            Request::Select { id } => RequestView::Select { id: *id },
            Request::Refresh => RequestView::Refresh,
            Request::Apps => RequestView::Apps,
            Request::Down { button, count } => RequestView::Down { button: *button, count: *count },
            Request::Move { button, count } => RequestView::Move { button: *button, count: *count },
            Request::Up { button, count } => RequestView::Up { button: *button, count: *count },
            Request::Click => RequestView::Click,
            Request::Scroll => RequestView::Scroll,
            Request::Key { code, meta, ctrl, shift, alt } => RequestView::Key {
                code: code@,
                meta: *meta,
                ctrl: *ctrl,
                shift: *shift,
                alt: *alt,
            },
            Request::Text { value, replace } => RequestView::Text { value: value@, replace: *replace },
            Request::Ime { korean, current } => RequestView::Ime { korean: *korean, current: *current },
            Request::ImeState => RequestView::ImeState,
            Request::ImeHeal => RequestView::ImeHeal,
            Request::Launch { path, new_instance } => RequestView::Launch {
                path: path@,
                new_instance: *new_instance,
            },
            Request::Close { id, listed, list_pid, client_pid, client_pid_listed } => RequestView::Close {
                id: *id,
                listed: *listed,
                list_pid: *list_pid,
                client_pid: *client_pid,
                client_pid_listed: *client_pid_listed,
            },
            Request::Quit { pid, listed } => RequestView::Quit { pid: *pid, listed: *listed },
            Request::ClipAuto { value } => RequestView::ClipAuto { value: *value },
            Request::ClipboardGet => RequestView::ClipboardGet,
            Request::Quality { permille } => RequestView::Quality { permille: *permille },
            Request::Format { value } => RequestView::Format { value: value@ },
            Request::Preset { value } => RequestView::Preset { value: value@ },
            Request::Keyframe { id } => RequestView::Keyframe { id: *id },
            Request::Stats { pressure } => RequestView::Stats { pressure: *pressure },
            Request::Fps { value } => RequestView::Fps { value: *value },
            Request::Resize { w, h } => RequestView::Resize { w: *w, h: *h },
        }
    }
}

impl View for Effect {
    type V = EffectView;

    open spec fn view(&self) -> EffectView {
        match self {
            Effect::StopCapture { route } => EffectView::StopCapture { route: *route },
            Effect::StartCapture { route, gen } => EffectView::StartCapture { route: *route, gen: *gen },
            Effect::RequestKeyframe { route } => EffectView::RequestKeyframe { route: *route },
            Effect::SetBitrate { route, bps } => EffectView::SetBitrate { route: *route, bps: *bps },
            Effect::BroadcastClients => EffectView::BroadcastClients,
            Effect::BroadcastMetrics => EffectView::BroadcastMetrics,
            Effect::PushWindows => EffectView::PushWindows,
            Effect::WakeDisplay => EffectView::WakeDisplay,
            Effect::SendApps => EffectView::SendApps,
            Effect::Mouse { phase, button, count, target } => EffectView::Mouse {
                phase: *phase,
                button: *button,
                count: *count,
                target: *target,
            },
            Effect::Scroll { target } => EffectView::Scroll { target: *target },
            Effect::Key { code, meta, ctrl, shift, alt, target, watch_clipboard } => EffectView::Key {
                code: code@,
                meta: *meta,
                ctrl: *ctrl,
                shift: *shift,
                alt: *alt,
                target: *target,
                watch_clipboard: *watch_clipboard,
            },
            Effect::Text { value, replace, target } => EffectView::Text {
                value: value@,
                replace: *replace,
                target: *target,
            },
            Effect::SetIme { korean } => EffectView::SetIme { korean: *korean },
            Effect::ReportIme => EffectView::ReportIme,
            Effect::Launch { path, new_instance } => EffectView::Launch {
                path: path@,
                new_instance: *new_instance,
            },
            Effect::CloseWindow { route, pid } => EffectView::CloseWindow { route: *route, pid: *pid },
            Effect::QuitPid { pid } => EffectView::QuitPid { pid: *pid },
            Effect::SendClipboard => EffectView::SendClipboard,
            Effect::Resize { route, w, h } => EffectView::Resize { route: *route, w: *w, h: *h },
            Effect::NotifyBusy { who } => EffectView::NotifyBusy { who: who@ },
        }
    }
}

pub open spec fn effects_view(v: Seq<Effect>) -> Seq<EffectView> {
    v.map_values(|e: Effect| e@)
}

/// Model of the control state.
pub struct ControlView {
    pub hub: HubView,
    pub seat: SeatView,
    pub stream: StreamConfig,
    pub os: HostOs,
}

// ----- the rules, as spec functions -----

/// Asking for the input seat: the flag says whether the input goes through;
/// a refused peer is told at most once per interval.
pub open spec fn claim_step(s: SeatView, peer: u64, ip: Seq<char>, kind: InputKind, now: u64) -> (
    SeatView,
    bool,
    Seq<EffectView>,
) {
    if s.busy_for(peer, now) {
        if s.notice_due(peer, now) {
            (s.noticed(peer, now), false, seq![EffectView::NotifyBusy { who: s.label }])
        } else {
            (s, false, seq![])
        }
    } else {
        (s.granted(peer, kind, ip, now), true, seq![])
    }
}

/// Start a capture task for `route` unless one is marked.
pub open spec fn ensure_step(h: HubView, route: i64) -> (HubView, Seq<EffectView>) {
    let (h2, g) = h.marked(route);
    match g {
        Some(gen) => (h2, seq![EffectView::StartCapture { route, gen }]),
        None => (h2, seq![]),
    }
}

/// Stop and restart the capture of `route` (restarted only while viewed).
pub open spec fn restart_step(h: HubView, route: i64) -> (HubView, Seq<EffectView>) {
    let h1 = h.cleared(route);
    let stop = seq![EffectView::StopCapture { route }];
    if h1.watched(route) {
        let (h2, e) = ensure_step(h1, route);
        (h2, stop + e)
    } else {
        (h1, stop)
    }
}

/// Restart the capture of the route `peer` views, if any.
pub open spec fn restart_viewed(h: HubView, peer: u64) -> (HubView, Seq<EffectView>) {
    match viewed_by(h, peer) {
        Some(route) => restart_step(h, route),
        None => (h, seq![]),
    }
}

/// `peer` selects route `id`.
pub open spec fn select_step(h: HubView, peer: u64, id: i64) -> (HubView, Seq<EffectView>) {
    let prev = viewed_by(h, peer);
    let (h1, released) = h.with_viewing(peer, id);
    let e1 = if released {
        seq![EffectView::StopCapture { route: prev->0 }]
    } else {
        seq![]
    };
    let e2 = seq![EffectView::BroadcastClients];
    let e3 = if spec_is_display_route(id) {
        seq![EffectView::WakeDisplay]
    } else {
        seq![]
    };
    let (h2, e4) = if prev != Some(id) {
        restart_step(h1, id)
    } else {
        let (h2, e) = ensure_step(h1, id);
        (h2, e + seq![EffectView::RequestKeyframe { route: id }])
    };
    (h2, e1 + e2 + e3 + e4 + seq![EffectView::PushWindows])
}

/// Stream format named by the browser (case-insensitive; JPEG otherwise).
pub open spec fn format_named(v: Seq<char>) -> StreamFormat {
    let l = lower(v);
    if l == "png"@ {
        StreamFormat::Png
    } else if l == "h264"@ || l == "avc"@ || l == "video"@ {
        StreamFormat::H264
    } else {
        StreamFormat::Jpeg
    }
}

pub open spec fn clamp_u32(v: u32, lo: u32, hi: u32) -> u32 {
    if v < lo {
        lo
    } else if v > hi {
        hi
    } else {
        v
    }
}

/// Settings after switching to `fmt`; H.264 gets a real-time frame rate, a
/// width the encoder holds and at least the broadcast bitrate.
pub open spec fn with_format(c: StreamConfig, fmt: StreamFormat, os: HostOs) -> StreamConfig {
    if fmt == StreamFormat::H264 {
        StreamConfig {
            format: fmt,
            fps: clamp_u32(c.fps, 24, 30),
            max_width: if c.max_width < 1280 {
                if 1280 > h264_max_width(os) { h264_max_width(os) } else { 1280 }
            } else if c.max_width > h264_max_width(os) {
                h264_max_width(os)
            } else {
                c.max_width
            },
            bitrate_bps: clamp_u32(c.bitrate_bps, BROADCAST_BITRATE_BPS, 12_000_000),
            ..c
        }
    } else {
        StreamConfig { format: fmt, ..c }
    }
}

/// Settings of a named preset (case-insensitive): "fast"/"low",
/// "broadcast"/"high"/"live"/"h264", otherwise the balanced default.
pub open spec fn preset_named(v: Seq<char>, os: HostOs) -> StreamConfig {
    let l = lower(v);
    if l == "fast"@ || l == "low"@ {
        StreamConfig {
            fps: 15,
            jpeg_quality_permille: 700,
            max_width: 1280,
            format: StreamFormat::Jpeg,
            bitrate_bps: 1_600_000,
        }
    } else if l == "broadcast"@ || l == "high"@ || l == "live"@ || l == "h264"@ {
        StreamConfig {
            fps: 30,
            jpeg_quality_permille: 1000,
            max_width: h264_max_width(os),
            format: StreamFormat::H264,
            bitrate_bps: BROADCAST_BITRATE_BPS,
        }
    } else {
        StreamConfig {
            fps: 20,
            jpeg_quality_permille: 920,
            max_width: 1600,
            format: StreamFormat::Jpeg,
            bitrate_bps: 2_800_000,
        }
    }
}

/// Bitrate for network pressure `p` (clamped to the ladder).
pub open spec fn ladder_bps(p: i32) -> u32 {
    if p <= 0 {
        6_000_000
    } else if p == 1 {
        4_000_000
    } else if p == 2 {
        2_800_000
    } else {
        1_800_000
    }
}

/// Cmd/Ctrl+C or X without Shift/Alt: a copy or cut.
pub open spec fn is_copy(code: Seq<char>, meta: bool, ctrl: bool, shift: bool, alt: bool) -> bool {
    (meta || ctrl) && !shift && !alt && (code == "KeyC"@ || code == "KeyX"@)
}

/// Owner pid used to close a route: the host's own resolution wins; the
/// browser's pid counts only when it owns a listed window.
pub open spec fn close_pid(list_pid: i32, client_pid: i32, client_pid_listed: bool) -> i32 {
    if list_pid > 0 {
        list_pid
    } else if client_pid > 0 && client_pid_listed {
        client_pid
    } else {
        0
    }
}

/// An input request gated by the seat: the effect `e` happens only when the
/// seat is granted.
pub open spec fn gated(
    v: ControlView,
    peer: u64,
    ip: Seq<char>,
    kind: InputKind,
    now: u64,
    e: Seq<EffectView>,
) -> (ControlView, Seq<EffectView>) {
    let (s, ok, n) = claim_step(v.seat, peer, ip, kind, now);
    (ControlView { seat: s, ..v }, if ok { e } else { n })
}

/// The whole transition: new state and effects for `req` from `peer`.
pub open spec fn step(v: ControlView, peer: u64, ip: Seq<char>, req: RequestView, now: u64) -> (
    ControlView,
    Seq<EffectView>,
) {
    let target = viewed_by(v.hub, peer);
    match req {
        RequestView::Select { id } => {
            let (h, e) = select_step(v.hub, peer, id.0);
            (ControlView { hub: h, ..v }, e)
        },
        RequestView::Refresh => (v, seq![EffectView::PushWindows, EffectView::BroadcastMetrics]),
        RequestView::Apps => (v, seq![EffectView::SendApps]),
        RequestView::Down { button, count } => gated(v, peer, ip, InputKind::Down, now, seq![
            EffectView::Mouse { phase: MousePhase::Down, button, count, target },
        ]),
        RequestView::Move { button, count } => gated(v, peer, ip, InputKind::Move, now, seq![
            EffectView::Mouse { phase: MousePhase::Move, button, count, target },
        ]),
        RequestView::Up { button, count } => gated(v, peer, ip, InputKind::Up, now, seq![
            EffectView::Mouse { phase: MousePhase::Up, button, count, target },
        ]),
        RequestView::Click => {
            let (s1, ok, n) = claim_step(v.seat, peer, ip, InputKind::Down, now);
            if ok {
                let (s2, _ok2, n2) = claim_step(s1, peer, ip, InputKind::Up, now);
                (
                    ControlView { seat: s2, ..v },
                    seq![
                        EffectView::Mouse { phase: MousePhase::Down, button: 0, count: 1, target },
                        EffectView::Mouse { phase: MousePhase::Up, button: 0, count: 1, target },
                    ] + n2,
                )
            } else {
                (ControlView { seat: s1, ..v }, n)
            }
        },
        RequestView::Scroll => gated(v, peer, ip, InputKind::Scroll, now, seq![EffectView::Scroll { target }]),
        RequestView::Key { code, meta, ctrl, shift, alt } => {
            let watch = is_copy(code, meta, ctrl, shift, alt) && v.hub.peer_map().contains_key(peer)
                && v.hub.peer_map()[peer].1;
            gated(v, peer, ip, InputKind::Key, now, seq![
                EffectView::Key { code, meta, ctrl, shift, alt, target, watch_clipboard: watch },
            ])
        },
        RequestView::Text { value, replace } => gated(v, peer, ip, InputKind::Text, now, seq![
            EffectView::Text { value, replace, target },
        ]),
        RequestView::Ime { korean, current } => (v, seq![
            EffectView::SetIme { korean: match korean {
                Some(k) => k,
                None => !current,
            } },
        ]),
        RequestView::ImeState => (v, seq![EffectView::ReportIme]),
        RequestView::ImeHeal => (v, seq![EffectView::ReportIme]),
        RequestView::Launch { path, new_instance } => (v, seq![EffectView::Launch { path, new_instance }]),
        RequestView::Close { id, listed, list_pid, client_pid, client_pid_listed } => if listed {
            (v, seq![
                EffectView::CloseWindow {
                    route: id.0,
                    pid: close_pid(list_pid, client_pid, client_pid_listed),
                },
            ])
        } else {
            (v, seq![])
        },
        RequestView::Quit { pid, listed } => if listed {
            (v, seq![EffectView::QuitPid { pid }])
        } else {
            (v, seq![])
        },
        RequestView::ClipAuto { value } => (
            ControlView { hub: v.hub.with_clip_auto(peer, value), ..v },
            seq![],
        ),
        RequestView::ClipboardGet => (v, seq![EffectView::SendClipboard]),
        RequestView::Quality { permille } => {
            let q = if permille < 200 {
                200u32
            } else if permille > 1000 {
                1000u32
            } else {
                permille as u32
            };
            (ControlView { stream: StreamConfig { jpeg_quality_permille: q, ..v.stream }, ..v }, seq![])
        },
        RequestView::Format { value } => {
            let fmt = format_named(value);
            let c = with_format(v.stream, fmt, v.os);
            if v.stream.format != fmt {
                let (h, e) = restart_viewed(v.hub, peer);
                (ControlView { hub: h, stream: c, ..v }, e)
            } else {
                (ControlView { stream: c, ..v }, seq![])
            }
        },
        RequestView::Preset { value } => {
            let (h, e) = restart_viewed(v.hub, peer);
            (ControlView { hub: h, stream: preset_named(value, v.os), ..v }, e)
        },
        RequestView::Keyframe { id } => (v, seq![EffectView::RequestKeyframe { route: id.0 }]),
        RequestView::Stats { pressure } => match pressure {
            Some(p) => {
                let br = ladder_bps(p);
                let c = StreamConfig { bitrate_bps: br, ..v.stream };
                match target {
                    Some(route) => (
                        ControlView { stream: c, ..v },
                        seq![EffectView::SetBitrate { route, bps: br }],
                    ),
                    None => (ControlView { stream: c, ..v }, seq![]),
                }
            },
            None => (v, seq![]),
        },
        RequestView::Fps { value } => {
            let f = if value < 1 {
                1u32
            } else if value > 60 {
                60u32
            } else {
                value as u32
            };
            let (h, e) = restart_viewed(v.hub, peer);
            (ControlView { hub: h, stream: StreamConfig { fps: f, ..v.stream }, ..v }, e)
        },
        RequestView::Resize { w, h } => match target {
            Some(route) => (v, seq![EffectView::Resize { route, w, h }]),
            None => (v, seq![]),
        },
    }
}


// ----- the state and its transitions -----

fn push_effect(out: &mut Vec<Effect>, e: Effect)
    ensures
        effects_view(final(out)@) == effects_view(old(out)@).push(e@),
{
    let ghost ev = e@;
    out.push(e);
    assert(effects_view(out@) =~= effects_view(old(out)@).push(ev));
}

fn append_effects(out: &mut Vec<Effect>, more: Vec<Effect>)
    ensures
        effects_view(final(out)@) == effects_view(old(out)@) + effects_view(more@),
{
    let ghost m = more@;
    let mut more = more;
    let mut rest: Vec<Effect> = Vec::new();
    // Reverse `more` into `rest`, then pop from `rest` to keep the order.
    while more.len() > 0
        invariant
            more@ + rest@.reverse() == m,
        decreases more@.len(),
    {
        let ghost before = more@;
        let e = more.pop().unwrap();
        proof {
            assert(before =~= more@.push(e));
            assert(rest@.push(e).reverse() =~= seq![e] + rest@.reverse());
        }
        rest.push(e);
        assert(more@ + rest@.reverse() =~= m);
    }
    assert(rest@.reverse() =~= m);
    while rest.len() > 0
        invariant
            effects_view(out@) + effects_view(rest@.reverse()) == effects_view(old(out)@) + effects_view(m),
        decreases rest@.len(),
    {
        let ghost before = rest@;
        let e = rest.pop().unwrap();
        proof {
            assert(before =~= rest@.push(e));
            assert(before.reverse() =~= seq![e] + rest@.reverse());
            assert(effects_view(before.reverse()) =~= seq![e@] + effects_view(rest@.reverse()));
        }
        push_effect(out, e);
        assert(effects_view(out@) + effects_view(rest@.reverse()) =~= effects_view(old(out)@)
            + effects_view(m));
    }
    assert(effects_view(rest@.reverse()) =~= Seq::<EffectView>::empty());
}

/// Control state of the host: peers, input seat and stream settings.
pub struct Control {
    pub hub: PeerHub,
    pub seat: InputSeat,
    pub stream: StreamConfig,
    pub os: HostOs,
    /// Origin of the times given to the seat.
    pub clock: Instant,
}

impl View for Control {
    type V = ControlView;

    open spec fn view(&self) -> ControlView {
        ControlView { hub: self.hub@, seat: self.seat@, stream: self.stream, os: self.os }
    }
}

/// Copy of a string (the library keeps its own copy of labels it reports).
fn copy_string(s: &str) -> (r: String)
    ensures
        r@ == s@,
{
    string_of(chars_of(s).as_slice())
}

impl Control {
    /// Fresh state: no peers, a free seat, default stream settings.
    pub fn new(os: HostOs) -> (c: Control)
        ensures
            c.hub.wf(),
            c@.hub.peers.len() == 0,
            c@.hub.viewing.len() == 0,
            c@.hub.streaming.len() == 0,
            c@.seat.owner is None,
            c@.stream == (StreamConfig {
                fps: 20,
                max_width: 1920,
                jpeg_quality_permille: 920,
                format: StreamFormat::Jpeg,
                bitrate_bps: 2_800_000,
            }),
            c@.os == os,
    {
        let hub = PeerHub::new();
        Control {
            hub,
            seat: InputSeat::new(),
            stream: StreamConfig::default(),
            os,
            clock: instant_now(),
        }
    }

    fn claim(&mut self, peer: u64, ip: &str, kind: InputKind, now: u64) -> (r: (bool, Vec<Effect>))
        ensures
            (final(self)@.seat, r.0, effects_view(r.1@)) == claim_step(old(self)@.seat, peer, ip@, kind, now),
            final(self).hub == old(self).hub,
            final(self).stream == old(self).stream,
            final(self).os == old(self).os,
    {
        let mut out: Vec<Effect> = Vec::new();
        match self.seat.acquire_at(peer, kind, ip, now) {
            SeatResult::Allowed => {
                assert(effects_view(out@) =~= seq![]);
                (true, out)
            },
            SeatResult::Busy { who } => {
                if self.seat.should_notify_busy_at(peer, now) {
                    push_effect(&mut out, Effect::NotifyBusy { who });
                    assert(effects_view(out@) =~= seq![EffectView::NotifyBusy { who: old(self)@.seat.label }]);
                } else {
                    assert(effects_view(out@) =~= seq![]);
                }
                (false, out)
            },
        }
    }

    fn ensure_stream(hub: &mut PeerHub, route: i64) -> (r: Vec<Effect>)
        requires
            old(hub).wf(),
        ensures
            final(hub).wf(),
            (final(hub)@, effects_view(r@)) == ensure_step(old(hub)@, route),
    {
        let mut out: Vec<Effect> = Vec::new();
        match hub.mark_streaming(route) {
            Some(gen) => {
                push_effect(&mut out, Effect::StartCapture { route, gen });
                assert(effects_view(out@) =~= seq![EffectView::StartCapture { route, gen }]);
            },
            None => {
                assert(effects_view(out@) =~= seq![]);
            },
        }
        out
    }

    fn restart_stream(hub: &mut PeerHub, route: i64) -> (r: Vec<Effect>)
        requires
            old(hub).wf(),
        ensures
            final(hub).wf(),
            (final(hub)@, effects_view(r@)) == restart_step(old(hub)@, route),
    {
        let mut out: Vec<Effect> = Vec::new();
        assert(effects_view(out@) =~= Seq::<EffectView>::empty());
        push_effect(&mut out, Effect::StopCapture { route });
        assert(effects_view(out@) =~= seq![EffectView::StopCapture { route }]);
        hub.clear_streaming(route);
        if hub.viewing_of_any(route) {
            let more = Self::ensure_stream(hub, route);
            append_effects(&mut out, more);
        }
        out
    }

    fn restart_viewed(hub: &mut PeerHub, peer: u64) -> (r: Vec<Effect>)
        requires
            old(hub).wf(),
        ensures
            final(hub).wf(),
            (final(hub)@, effects_view(r@)) == restart_viewed(old(hub)@, peer),
    {
        match hub.viewing_of(peer) {
            Some(route) => Self::restart_stream(hub, route),
            None => {
                let out: Vec<Effect> = Vec::new();
                assert(effects_view(out@) =~= seq![]);
                out
            },
        }
    }
}


fn one(e: Effect) -> (r: Vec<Effect>)
    ensures
        effects_view(r@) == seq![e@],
{
    let mut out: Vec<Effect> = Vec::new();
    let ghost ev = e@;
    out.push(e);
    assert(effects_view(out@) =~= seq![ev]);
    out
}

fn none() -> (r: Vec<Effect>)
    ensures
        effects_view(r@) == Seq::<EffectView>::empty(),
{
    let out: Vec<Effect> = Vec::new();
    assert(effects_view(out@) =~= Seq::<EffectView>::empty());
    out
}

fn format_named_exec(v: &str) -> (f: StreamFormat)
    ensures
        f == format_named(v@),
{
    let l = lower_chars(chars_of(v).as_slice());
    if eq_str(l.as_slice(), "png") {
        StreamFormat::Png
    } else if eq_str(l.as_slice(), "h264") || eq_str(l.as_slice(), "avc") || eq_str(
        l.as_slice(),
        "video",
    ) {
        StreamFormat::H264
    } else {
        StreamFormat::Jpeg
    }
}

fn preset_named_exec(v: &str, os: HostOs) -> (c: StreamConfig)
    ensures
        c == preset_named(v@, os),
{
    let l = lower_chars(chars_of(v).as_slice());
    if eq_str(l.as_slice(), "fast") || eq_str(l.as_slice(), "low") {
        StreamConfig {
            fps: 15,
            jpeg_quality_permille: 700,
            max_width: 1280,
            format: StreamFormat::Jpeg,
            bitrate_bps: 1_600_000,
        }
    } else if eq_str(l.as_slice(), "broadcast") || eq_str(l.as_slice(), "high") || eq_str(
        l.as_slice(),
        "live",
    ) || eq_str(l.as_slice(), "h264") {
        StreamConfig {
            fps: 30,
            jpeg_quality_permille: 1000,
            max_width: h264_max_width(os),
            format: StreamFormat::H264,
            bitrate_bps: BROADCAST_BITRATE_BPS,
        }
    } else {
        StreamConfig {
            fps: 20,
            jpeg_quality_permille: 920,
            max_width: 1600,
            format: StreamFormat::Jpeg,
            bitrate_bps: 2_800_000,
        }
    }
}

fn with_format_exec(c: StreamConfig, fmt: StreamFormat, os: HostOs) -> (r: StreamConfig)
    ensures
        r == with_format(c, fmt, os),
{
    if fmt == StreamFormat::H264 {
        let fps = if c.fps < 24 {
            24
        } else if c.fps > 30 {
            30
        } else {
            c.fps
        };
        let cap = h264_max_width(os);
        let mw = if c.max_width < 1280 {
            if 1280 > cap {
                cap
            } else {
                1280
            }
        } else if c.max_width > cap {
            cap
        } else {
            c.max_width
        };
        let br = if c.bitrate_bps < BROADCAST_BITRATE_BPS {
            BROADCAST_BITRATE_BPS
        } else if c.bitrate_bps > 12_000_000 {
            12_000_000
        } else {
            c.bitrate_bps
        };
        StreamConfig { format: fmt, fps, max_width: mw, bitrate_bps: br, ..c }
    } else {
        StreamConfig { format: fmt, ..c }
    }
}

/// Bitrate of the adaptive ladder for network pressure `p`.
pub fn ladder_bps_exec(p: i32) -> (r: u32)
    ensures
        r == ladder_bps(p),
{
    let idx: usize = if p <= 0 {
        0
    } else if p >= 3 {
        3
    } else {
        p as usize
    };
    let ladder = BITRATE_LADDER_BPS;
    ladder[idx]
}

fn is_copy_exec(code: &str, meta: bool, ctrl: bool, shift: bool, alt: bool) -> (r: bool)
    ensures
        r == is_copy(code@, meta, ctrl, shift, alt),
{
    if (meta || ctrl) && !shift && !alt {
        let c = chars_of(code);
        eq_str(c.as_slice(), "KeyC") || eq_str(c.as_slice(), "KeyX")
    } else {
        false
    }
}

/// Owner pid used to close a route.
pub fn close_pid_exec(list_pid: i32, client_pid: i32, client_pid_listed: bool) -> (r: i32)
    ensures
        r == close_pid(list_pid, client_pid, client_pid_listed),
{
    if list_pid > 0 {
        list_pid
    } else if client_pid > 0 && client_pid_listed {
        client_pid
    } else {
        0
    }
}

/// Text of the "input busy" notice naming the peer that holds the input.
pub open spec fn busy_message(who: Seq<char>) -> Seq<char> {
    "다른 곳에서 입력 중 ("@ + who + ") — 잠시 후 다시 시도"@
}

/// Text of the "input busy" notice.
pub fn busy_message_exec(who: &str) -> (r: String)
    ensures
        r@ == busy_message(who@),
{
    let mut out = chars_of("다른 곳에서 입력 중 (");
    push_str_chars(&mut out, who);
    push_str_chars(&mut out, ") — 잠시 후 다시 시도");
    string_of(out.as_slice())
}

impl Control {
    fn gated(&mut self, peer: u64, ip: &str, kind: InputKind, now: u64, e: Vec<Effect>) -> (r: Vec<Effect>)
        requires
            old(self).hub.wf(),
        ensures
            final(self).hub.wf(),
            (final(self)@, effects_view(r@)) == gated(old(self)@, peer, ip@, kind, now, effects_view(e@)),
    {
        let (ok, n) = self.claim(peer, ip, kind, now);
        if ok {
            e
        } else {
            n
        }
    }

    fn select(&mut self, peer: u64, id: i64) -> (r: Vec<Effect>)
        requires
            old(self).hub.wf(),
        ensures
            final(self).hub.wf(),
            (final(self)@.hub, effects_view(r@)) == select_step(old(self)@.hub, peer, id),
            final(self)@.seat == old(self)@.seat,
            final(self)@.stream == old(self)@.stream,
            final(self)@.os == old(self)@.os,
    {
        let (prev, released) = self.hub.set_viewing(peer, id);
        let mut out: Vec<Effect> = Vec::new();
        assert(effects_view(out@) =~= Seq::<EffectView>::empty());
        if released {
            push_effect(&mut out, Effect::StopCapture { route: prev.unwrap() });
        }
        push_effect(&mut out, Effect::BroadcastClients);
        if is_display_route(RouteId(id)) {
            push_effect(&mut out, Effect::WakeDisplay);
        }
        let ghost before = effects_view(out@);
        if prev != Some(id) {
            let more = Self::restart_stream(&mut self.hub, id);
            append_effects(&mut out, more);
        } else {
            let more = Self::ensure_stream(&mut self.hub, id);
            append_effects(&mut out, more);
            push_effect(&mut out, Effect::RequestKeyframe { route: id });
        }
        push_effect(&mut out, Effect::PushWindows);
        proof {
            let h0 = old(self)@.hub;
            let p = viewed_by(h0, peer);
            let (h1, rel) = h0.with_viewing(peer, id);
            let e1 = if rel { seq![EffectView::StopCapture { route: p->0 }] } else { seq![] };
            let e3 = if spec_is_display_route(id) { seq![EffectView::WakeDisplay] } else { seq![] };
            assert(before =~= e1 + seq![EffectView::BroadcastClients] + e3);
        }
        out
    }

    /// Handles `req` from peer `peer` (address `ip`) at time `now`
    /// (nanoseconds of the host's clock): updates the state and returns the
    /// effects to perform, in order.
    pub fn handle_at(&mut self, peer: u64, ip: &str, req: Request, now: u64) -> (r: Vec<Effect>)
        requires
            old(self).hub.wf(),
        ensures
            final(self).hub.wf(),
            (final(self)@, effects_view(r@)) == step(old(self)@, peer, ip@, req@, now),
    {
        let target = self.hub.viewing_of(peer);
        match req {
            Request::Select { id } => self.select(peer, id.0),
            Request::Refresh => {
                let mut out = one(Effect::PushWindows);
                push_effect(&mut out, Effect::BroadcastMetrics);
                assert(effects_view(out@) =~= seq![EffectView::PushWindows, EffectView::BroadcastMetrics]);
                out
            },
            Request::Apps => one(Effect::SendApps),
            Request::Down { button, count } => {
                let e = one(Effect::Mouse { phase: MousePhase::Down, button, count, target });
                self.gated(peer, ip, InputKind::Down, now, e)
            },
            Request::Move { button, count } => {
                let e = one(Effect::Mouse { phase: MousePhase::Move, button, count, target });
                self.gated(peer, ip, InputKind::Move, now, e)
            },
            Request::Up { button, count } => {
                let e = one(Effect::Mouse { phase: MousePhase::Up, button, count, target });
                self.gated(peer, ip, InputKind::Up, now, e)
            },
            Request::Click => {
                let (ok, n) = self.claim(peer, ip, InputKind::Down, now);
                if ok {
                    let mut out = one(
                        Effect::Mouse { phase: MousePhase::Down, button: 0, count: 1, target },
                    );
                    push_effect(
                        &mut out,
                        Effect::Mouse { phase: MousePhase::Up, button: 0, count: 1, target },
                    );
                    let (_ok2, n2) = self.claim(peer, ip, InputKind::Up, now);
                    append_effects(&mut out, n2);
                    out
                } else {
                    n
                }
            },
            Request::Scroll => {
                let e = one(Effect::Scroll { target });
                self.gated(peer, ip, InputKind::Scroll, now, e)
            },
            Request::Key { code, meta, ctrl, shift, alt } => {
                let watch = is_copy_exec(code.as_str(), meta, ctrl, shift, alt)
                    && self.hub.peer_clip_auto(peer);
                let e = one(
                    Effect::Key { code, meta, ctrl, shift, alt, target, watch_clipboard: watch },
                );
                self.gated(peer, ip, InputKind::Key, now, e)
            },
            Request::Text { value, replace } => {
                let e = one(Effect::Text { value, replace, target });
                self.gated(peer, ip, InputKind::Text, now, e)
            },
            Request::Ime { korean, current } => {
                let k = match korean {
                    Some(k) => k,
                    None => !current,
                };
                one(Effect::SetIme { korean: k })
            },
            Request::ImeState => one(Effect::ReportIme),
            Request::ImeHeal => one(Effect::ReportIme),
            Request::Launch { path, new_instance } => one(Effect::Launch { path, new_instance }),
            Request::Close { id, listed, list_pid, client_pid, client_pid_listed } => {
                if listed {
                    one(
                        Effect::CloseWindow {
                            route: id.0,
                            pid: close_pid_exec(list_pid, client_pid, client_pid_listed),
                        },
                    )
                } else {
                    none()
                }
            },
            Request::Quit { pid, listed } => {
                if listed {
                    one(Effect::QuitPid { pid })
                } else {
                    none()
                }
            },
            Request::ClipAuto { value } => {
                self.hub.set_clip_auto(peer, value);
                none()
            },
            Request::ClipboardGet => one(Effect::SendClipboard),
            Request::Quality { permille } => {
                let q: u32 = if permille < 200 {
                    200
                } else if permille > 1000 {
                    1000
                } else {
                    permille as u32
                };
                self.stream.jpeg_quality_permille = q;
                none()
            },
            Request::Format { value } => {
                let fmt = format_named_exec(value.as_str());
                let prev = self.stream.format;
                self.stream = with_format_exec(self.stream, fmt, self.os);
                if prev != fmt {
                    Self::restart_viewed(&mut self.hub, peer)
                } else {
                    none()
                }
            },
            Request::Preset { value } => {
                self.stream = preset_named_exec(value.as_str(), self.os);
                Self::restart_viewed(&mut self.hub, peer)
            },
            Request::Keyframe { id } => one(Effect::RequestKeyframe { route: id.0 }),
            Request::Stats { pressure } => match pressure {
                Some(p) => {
                    let br = ladder_bps_exec(p);
                    self.stream.bitrate_bps = br;
                    match target {
                        Some(route) => one(Effect::SetBitrate { route, bps: br }),
                        None => none(),
                    }
                },
                None => none(),
            },
            Request::Fps { value } => {
                let f: u32 = if value < 1 {
                    1
                } else if value > 60 {
                    60
                } else {
                    value as u32
                };
                self.stream.fps = f;
                Self::restart_viewed(&mut self.hub, peer)
            },
            Request::Resize { w, h } => match target {
                Some(route) => one(Effect::Resize { route, w, h }),
                None => none(),
            },
        }
    }
}


impl Control {
    /// [`Control::handle_at`] at the current time of the host's clock.
    pub fn handle(&mut self, peer: u64, ip: &str, req: Request) -> (r: Vec<Effect>)
        requires
            old(self).hub.wf(),
        ensures
            final(self).hub.wf(),
            exists|now: u64| (final(self)@, effects_view(r@)) == step(old(self)@, peer, ip@, req@, now),
    {
        let now = nanos_since(&self.clock);
        self.handle_at(peer, ip, req, now)
    }
}

/// The kinds of request that inject input.
pub open spec fn is_input(req: RequestView) -> bool {
    ||| req is Down
    ||| req is Move
    ||| req is Up
    ||| req is Click
    ||| req is Scroll
    ||| req is Key
    ||| req is Text
}

/// Exclusive input: while another browser holds the seat, an input request
/// injects nothing; at most a busy notice goes back, and the state outside
/// the seat is unchanged.
pub proof fn lemma_busy_input_injects_nothing(v: ControlView, peer: u64, ip: Seq<char>, req: RequestView, now: u64)
    requires
        is_input(req),
        v.seat.busy_for(peer, now),
    ensures
        ({
            let (v2, e) = step(v, peer, ip, req, now);
            &&& v2.hub == v.hub && v2.stream == v.stream
            &&& (e.len() == 0 || e == seq![EffectView::NotifyBusy { who: v.seat.label }])
        }),
{
}

/// A window that is not in the window list is never closed, and a pid that
/// owns no listed window is never quit.
pub proof fn lemma_unlisted_never_closed(v: ControlView, peer: u64, ip: Seq<char>, req: RequestView, now: u64)
    requires
        (req matches RequestView::Close { listed, .. } && !listed) || (req matches RequestView::Quit { listed, .. } && !listed),
    ensures
        step(v, peer, ip, req, now) == (v, Seq::<EffectView>::empty()),
{
}

/// Switching to H.264 always yields settings the encoder holds in real time:
/// 24 to 30 frames per second, a width no wider than the host's H.264 cap,
/// and a bitrate between the broadcast rate and 12 Mbit/s.
pub proof fn lemma_h264_settings_bounded(c: StreamConfig, os: HostOs)
    ensures
        ({
            let r = with_format(c, StreamFormat::H264, os);
            &&& r.format == StreamFormat::H264
            &&& 24 <= r.fps <= 30
            &&& r.max_width <= h264_max_width(os)
            &&& BROADCAST_BITRATE_BPS <= r.bitrate_bps <= 12_000_000
        }),
{
}

/// The stream settings stay within their bounds whatever the browser sends:
/// quality between 0.2 and 1.0, and a frame rate between 1 and 60.
pub proof fn lemma_settings_stay_bounded(v: ControlView, peer: u64, ip: Seq<char>, req: RequestView, now: u64)
    requires
        200 <= v.stream.jpeg_quality_permille <= 1000,
        1 <= v.stream.fps <= 60,
    ensures
        ({
            let c = step(v, peer, ip, req, now).0.stream;
            &&& 200 <= c.jpeg_quality_permille <= 1000
            &&& 1 <= c.fps <= 60
        }),
{
}

/// Under network pressure the bitrate always comes from the ladder, and
/// more pressure never raises it.
pub proof fn lemma_ladder_monotone(p: i32, q: i32)
    requires
        p <= q,
    ensures
        ladder_bps(q) <= ladder_bps(p),
        ladder_bps(p) == 6_000_000 || ladder_bps(p) == 4_000_000 || ladder_bps(p) == 2_800_000
            || ladder_bps(p) == 1_800_000,
{
}

/// A `Format` request sets the stream format the browser named, whatever
/// its case: PNG exactly for `png`, H.264 exactly for `h264`, `avc` or
/// `video`, and JPEG for anything else; a format other than H.264 changes
/// nothing else of the stream settings.
pub proof fn lemma_format_request(v: ControlView, peer: u64, ip: Seq<char>, value: Seq<char>, now: u64)
    ensures
        ({
            let c = step(v, peer, ip, RequestView::Format { value }, now).0.stream;
            let l = lower(value);
            &&& (c.format == StreamFormat::Png) == (l == "png"@)
            &&& (c.format == StreamFormat::H264) == (l == "h264"@ || l == "avc"@ || l == "video"@)
            &&& (c.format == StreamFormat::Jpeg) == !(l == "png"@ || l == "h264"@ || l == "avc"@
                || l == "video"@)
            &&& c.format != StreamFormat::H264 ==> c == (StreamConfig { format: c.format, ..v.stream })
        }),
{
    reveal_strlit("png");
    reveal_strlit("h264");
    reveal_strlit("avc");
    reveal_strlit("video");
    assert("png"@[0] != "avc"@[0]);
    assert("png"@ != "h264"@ && "png"@ != "avc"@ && "png"@ != "video"@);
    let fmt = format_named(value);
    let c = with_format(v.stream, fmt, v.os);
    assert(step(v, peer, ip, RequestView::Format { value }, now).0.stream == c);
    assert(c.format == fmt);
}

/// After selecting a route, the peer views it.
pub proof fn lemma_select_views(v: ControlView, peer: u64, ip: Seq<char>, id: RouteId, now: u64)
    ensures
        viewed_by(step(v, peer, ip, RequestView::Select { id }, now).0.hub, peer) == Some(id.0),
{
}

} // verus!
