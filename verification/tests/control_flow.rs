use webdock::control::{busy_message_exec, close_pid_exec, ladder_bps_exec, Control, Effect, Request};
use webdock::hub::PeerHub;
use webdock::login::LoginLimiter;
use webdock::platform::{MousePhase, StreamFormat};
use webdock::protocol::{RouteId, WindowInfo};
use webdock::tuning::HostOs;

fn win(id: i64, name: &str, title: &str) -> WindowInfo {
    WindowInfo {
        id: RouteId(id),
        pid: 1,
        name: name.into(),
        title: title.into(),
        path: None,
        w: None,
        h: None,
        icon: None,
        icon_key: None,
    }
}

#[test]
fn hub_viewing_reads_back_and_releases() {
    let mut hub = PeerHub::new();
    let a = hub.alloc_peer_id();
    let b = hub.alloc_peer_id();
    assert_eq!((a, b), (1, 2));
    hub.register_peer(a, "10.0.0.1".into());
    hub.register_peer(b, "10.0.0.2".into());
    assert_eq!(hub.set_viewing(a, 5), (None, false));
    assert_eq!(hub.viewing_of(a), Some(5));
    assert_eq!(hub.mark_streaming(5), Some(1));
    assert_eq!(hub.mark_streaming(5), None);
    assert_eq!(hub.set_viewing(b, 5), (None, false));
    // a moves away; b still views 5, so its stream stays.
    assert_eq!(hub.set_viewing(a, 6), (Some(5), false));
    assert!(hub.viewing_of_any(5));
    // b leaves: nobody views 5 any more.
    assert_eq!(hub.unregister_peer(b), (Some(5), true));
    assert!(!hub.viewing_of_any(5));
    assert_eq!(hub.viewers_of(6), vec![a]);
}

#[test]
fn hub_stale_task_does_not_clear_new_marker() {
    let mut hub = PeerHub::new();
    let g1 = hub.mark_streaming(9).unwrap();
    hub.clear_streaming(9);
    let g2 = hub.mark_streaming(9).unwrap();
    assert_ne!(g1, g2);
    hub.unmark_streaming(9, g1);
    assert_eq!(hub.mark_streaming(9), None, "marker of the new task survives");
    hub.unmark_streaming(9, g2);
    assert!(hub.mark_streaming(9).is_some());
}

#[test]
fn hub_client_rows_label_windows() {
    let mut hub = PeerHub::new();
    hub.register_peer(3, "1.2.3.4".into());
    hub.register_peer(4, "5.6.7.8".into());
    hub.set_viewing(3, 10);
    hub.set_viewing(4, 11);
    hub.set_clip_auto(4, true);
    assert!(hub.peer_clip_auto(4));
    assert!(!hub.peer_clip_auto(3));
    let rows = hub.client_rows(&[win(10, "Safari", "Home"), win(11, "Terminal", "")]);
    assert_eq!(rows.len(), 2);
    assert_eq!(rows[0].id, "3");
    assert_eq!(rows[0].ip, "1.2.3.4");
    assert_eq!(rows[0].viewing.as_deref(), Some("Safari — Home"));
    assert_eq!(rows[0].window_id, Some(RouteId(10)));
    assert_eq!(rows[1].viewing.as_deref(), Some("Terminal"));
}

#[test]
fn login_limit_ten_per_minute() {
    let mut l = LoginLimiter::new();
    for i in 0..10u64 {
        assert!(l.check_at("9.9.9.9", i * 1_000_000_000));
    }
    assert!(!l.check_at("9.9.9.9", 10_000_000_000));
    assert!(l.check_at("8.8.8.8", 10_000_000_000), "other addresses are independent");
    // 61 s after the first attempt, it has left the window.
    assert!(l.check_at("9.9.9.9", 61_000_000_000));
}

fn effects_of(c: &mut Control, peer: u64, req: Request, now: u64) -> Vec<Effect> {
    c.handle_at(peer, "10.0.0.1", req, now)
}

#[test]
fn select_starts_capture_and_reselect_keyframes() {
    let mut c = Control::new(HostOs::Linux);
    c.hub.register_peer(1, "10.0.0.1".into());
    let e = effects_of(&mut c, 1, Request::Select { id: RouteId(42) }, 0);
    assert!(matches!(e[0], Effect::BroadcastClients));
    assert!(matches!(e[1], Effect::StopCapture { route: 42 }));
    assert!(matches!(e[2], Effect::StartCapture { route: 42, gen: 1 }));
    assert!(matches!(e[3], Effect::PushWindows));
    assert_eq!(e.len(), 4);
    let e = effects_of(&mut c, 1, Request::Select { id: RouteId(42) }, 0);
    assert!(matches!(e[1], Effect::RequestKeyframe { route: 42 }));
    assert_eq!(e.len(), 3);
}

#[test]
fn select_display_wakes_it() {
    let mut c = Control::new(HostOs::MacOs);
    let d = 0xE000_0001i64;
    let e = effects_of(&mut c, 1, Request::Select { id: RouteId(d) }, 0);
    assert!(matches!(e[1], Effect::WakeDisplay));
}

#[test]
fn busy_input_gets_one_notice() {
    let mut c = Control::new(HostOs::Linux);
    let e = effects_of(&mut c, 1, Request::Down { button: 0, count: 1 }, 0);
    assert!(matches!(e[0], Effect::Mouse { phase: MousePhase::Down, button: 0, count: 1, target: None }));
    let e = c.handle_at(2, "10.0.0.2", Request::Key { code: "KeyA".into(), meta: false, ctrl: false, shift: false, alt: false }, 1);
    assert_eq!(e.len(), 1);
    match &e[0] {
        Effect::NotifyBusy { who } => assert_eq!(who, "10.0.0.1"),
        _ => panic!("expected a busy notice"),
    }
    let e = c.handle_at(2, "10.0.0.2", Request::Text { value: "x".into(), replace: 0 }, 2);
    assert!(e.is_empty(), "second notice within a second is suppressed");
}

#[test]
fn copy_shortcut_watches_clipboard_when_enabled() {
    let mut c = Control::new(HostOs::MacOs);
    c.hub.register_peer(1, "10.0.0.1".into());
    effects_of(&mut c, 1, Request::ClipAuto { value: true }, 0);
    let e = effects_of(&mut c, 1, Request::Key { code: "KeyC".into(), meta: true, ctrl: false, shift: false, alt: false }, 0);
    assert!(matches!(e[0], Effect::Key { watch_clipboard: true, .. }));
    let e = effects_of(&mut c, 1, Request::Key { code: "KeyC".into(), meta: true, ctrl: false, shift: true, alt: false }, 0);
    assert!(matches!(e[0], Effect::Key { watch_clipboard: false, .. }));
}

#[test]
fn format_h264_clamps_settings() {
    let mut c = Control::new(HostOs::Linux);
    let e = effects_of(&mut c, 1, Request::Format { value: "AVC".into() }, 0);
    assert!(e.is_empty(), "no viewed route, nothing restarts");
    assert_eq!(c.stream.format, StreamFormat::H264);
    assert_eq!(c.stream.fps, 24);
    assert_eq!(c.stream.max_width, 1280);
    assert_eq!(c.stream.bitrate_bps, 6_000_000);
}

#[test]
fn preset_fast_and_restart_of_viewed_route() {
    let mut c = Control::new(HostOs::MacOs);
    effects_of(&mut c, 1, Request::Select { id: RouteId(7) }, 0);
    let e = effects_of(&mut c, 1, Request::Preset { value: "Fast".into() }, 0);
    assert_eq!(c.stream.fps, 15);
    assert_eq!(c.stream.jpeg_quality_permille, 700);
    assert_eq!(c.stream.max_width, 1280);
    assert_eq!(c.stream.format, StreamFormat::Jpeg);
    assert_eq!(c.stream.bitrate_bps, 1_600_000);
    assert!(matches!(e[0], Effect::StopCapture { route: 7 }));
    assert!(matches!(e[1], Effect::StartCapture { route: 7, .. }));
    effects_of(&mut c, 1, Request::Preset { value: "live".into() }, 0);
    assert_eq!(c.stream.max_width, 1920);
    assert_eq!(c.stream.format, StreamFormat::H264);
}

#[test]
fn stats_pressure_ladder_and_bounds() {
    assert_eq!(ladder_bps_exec(-4), 6_000_000);
    assert_eq!(ladder_bps_exec(1), 4_000_000);
    assert_eq!(ladder_bps_exec(2), 2_800_000);
    assert_eq!(ladder_bps_exec(9), 1_800_000);
    let mut c = Control::new(HostOs::Linux);
    effects_of(&mut c, 1, Request::Select { id: RouteId(3) }, 0);
    let e = effects_of(&mut c, 1, Request::Stats { pressure: Some(2) }, 0);
    assert!(matches!(e[0], Effect::SetBitrate { route: 3, bps: 2_800_000 }));
    effects_of(&mut c, 1, Request::Fps { value: 500 }, 0);
    assert_eq!(c.stream.fps, 60);
    effects_of(&mut c, 1, Request::Quality { permille: 50 }, 0);
    assert_eq!(c.stream.jpeg_quality_permille, 200);
}

#[test]
fn close_only_listed_routes() {
    let mut c = Control::new(HostOs::Linux);
    let e = effects_of(&mut c, 1, Request::Close { id: RouteId(5), listed: false, list_pid: 10, client_pid: 0, client_pid_listed: false }, 0);
    assert!(e.is_empty());
    let e = effects_of(&mut c, 1, Request::Close { id: RouteId(5), listed: true, list_pid: 0, client_pid: 33, client_pid_listed: true }, 0);
    assert!(matches!(e[0], Effect::CloseWindow { route: 5, pid: 33 }));
    assert_eq!(close_pid_exec(12, 33, true), 12);
    assert_eq!(close_pid_exec(0, 33, false), 0);
    let e = effects_of(&mut c, 1, Request::Quit { pid: 5, listed: false }, 0);
    assert!(e.is_empty());
}

#[test]
fn ime_toggle_uses_current_state() {
    let mut c = Control::new(HostOs::MacOs);
    let e = effects_of(&mut c, 1, Request::Ime { korean: None, current: true }, 0);
    assert!(matches!(e[0], Effect::SetIme { korean: false }));
    let e = effects_of(&mut c, 1, Request::Ime { korean: Some(true), current: true }, 0);
    assert!(matches!(e[0], Effect::SetIme { korean: true }));
}

#[test]
fn busy_notice_text() {
    assert_eq!(busy_message_exec("1.2.3.4"), "다른 곳에서 입력 중 (1.2.3.4) — 잠시 후 다시 시도");
}

#[test]
fn login_limit_sliding_window_series() {
    let mut l = LoginLimiter::new();
    let s = 1_000_000_000u64;
    // Ten grants spread over 50 s, interleaved with another address.
    for i in 0..10u64 {
        assert!(l.check_at("1.1.1.1", i * 5 * s));
        assert!(l.check_at("2.2.2.2", i * 5 * s + 1));
    }
    // Refused attempts do not count against the window.
    for i in 0..5u64 {
        assert!(!l.check_at("1.1.1.1", 50 * s + i));
    }
    // At 60.5 s the attempt from 0 s has left the window: one slot frees up.
    assert!(l.check_at("1.1.1.1", 60 * s + s / 2));
    assert!(!l.check_at("1.1.1.1", 61 * s));
    // At 65.5 s the attempt from 5 s has left too.
    assert!(l.check_at("1.1.1.1", 65 * s + s / 2));
}

#[test]
fn login_clock_never_goes_back() {
    let mut l = LoginLimiter::new();
    let t0 = l.now();
    assert!(l.check_at("3.3.3.3", t0 + 5_000_000_000));
    assert!(l.now() >= t0 + 5_000_000_000);
    assert!(l.check("3.3.3.3"));
}
