use webdock::auth::AuthFail;
use webdock::config::AppConfig;
use webdock::fanout::{frame_packet, h264_config, must_wait};
use webdock::frame::pack_h264_frame;
use webdock::hub::{pid_for_route, pid_in_window_list, route_in_window_list};
use webdock::protocol::{RouteId, WindowInfo};
use webdock::web::{inject_webui_version, replace_all_bytes};
use webdock::gate::{login_plan, static_plan, LoginPlan, StaticPlan};
use webdock::input::{cg_mouse_plan, unicode_chunks_exec, ButtonKind, CgMouseEvent};
use webdock::login::LoginLimiter;
use webdock::platform::{AppCatalog, ImeControl, MockPlatform, MousePhase, PowerControl};
use webdock::platform::PixelFormat;
use webdock::still::{crop_rgba, encode_jpeg, encode_png, rgba_to_rgb};
use webdock::tuning::HostOs;
use webdock::updater::{
    add_download_chunk, check_download_size, download_start_message, download_target, install_supported,
    InstallKind, UpdateInfo,
};
use webdock::windowctl::{
    close_plan, linux_raise_attempts, raise_failed_message, raise_script_exec, resize_script_exec, resolve_pid,
    win_after_attached, win_after_foreground, win_raise_target, ClosePlan, WinRaiseNext, WinTarget,
};

fn info(url: Option<&str>, asset: Option<&str>) -> UpdateInfo {
    UpdateInfo {
        current_version: "1.0.0".to_string(),
        latest_version: "1.1.0".to_string(),
        update_available: true,
        download_url: url.map(|s| s.to_string()),
        html_url: None,
        asset_name: asset.map(|s| s.to_string()),
        notes: None,
        install_kind: InstallKind::LinuxTarGz,
    }
}

#[test]
fn pid_resolution_and_close() {
    assert_eq!(resolve_pid(42, Some(7)), 42);
    assert_eq!(resolve_pid(0, Some(7)), 7);
    assert_eq!(resolve_pid(-1, None), 0);
    assert_eq!(close_plan(-1, 5), ClosePlan::NothingToDo);
    assert_eq!(close_plan(12, 0), ClosePlan::NotFound);
    assert_eq!(close_plan(12, 5), ClosePlan::Close { pid: 5 });
}

#[test]
fn applescript_texts() {
    assert_eq!(
        raise_script_exec(321),
        "tell application \"System Events\" to set frontmost of first process whose unix id is 321 to true"
    );
    let s = resize_script_exec(9, "My \"doc\"", 800, -1);
    assert!(s.contains("every process whose unix id is 9\n"));
    assert!(s.contains("if name of win is \"My \\\"doc\\\"\" or \"My \\\"doc\\\"\" is \"\" then"));
    assert!(s.contains("set size of win to {800, -1}"));
    assert_eq!(raise_failed_message(-3), "raise failed for pid -3 (Accessibility permission?)");
}

#[test]
fn x11_raise_order() {
    let a = linux_raise_attempts(Some(77), 12);
    assert_eq!(a.len(), 3);
    assert_eq!(a[0].first.program, "xdotool");
    assert_eq!(a[0].first.args, vec!["windowactivate", "--sync", "77"]);
    let f = a[0].followup.as_ref().unwrap();
    assert_eq!(f.args, vec!["windowraise", "77"]);
    assert_eq!(a[1].first.program, "wmctrl");
    assert_eq!(a[1].first.args, vec!["-i", "-a", "77"]);
    assert_eq!(a[2].first.args, vec!["search", "--pid", "12", "windowactivate", "--sync"]);
    assert!(linux_raise_attempts(None, 0).is_empty());
    assert_eq!(linux_raise_attempts(None, 3).len(), 1);
}

#[test]
fn static_files_behind_token() {
    let mut c = AppConfig::default();
    c.token = "s3cret".to_string();
    match static_plan(&c, "10.0.0.2", Some("box.local:8080"), "index.html", None, None, None) {
        StaticPlan::GatePage { wrong } => assert!(!wrong),
        other => panic!("{:?}", other),
    }
    match static_plan(&c, "10.0.0.2", None, "index.html", None, None, Some("nope")) {
        StaticPlan::GatePage { wrong } => assert!(wrong),
        other => panic!("{:?}", other),
    }
    assert!(matches!(static_plan(&c, "10.0.0.2", None, "app.js", None, None, None), StaticPlan::Unauthorized));
    assert!(matches!(
        static_plan(&c, "10.0.0.2", None, "favicon.ico", None, None, None),
        StaticPlan::Serve { set_cookie: None }
    ));
    match static_plan(&c, "10.0.0.2", None, "index.html", None, None, Some("s3cret")) {
        StaticPlan::Serve { set_cookie: Some(k) } => {
            assert_eq!(k, "webrust_token=s3cret; Path=/; SameSite=Strict; Max-Age=604800")
        }
        other => panic!("{:?}", other),
    }
    assert!(matches!(
        static_plan(&c, "10.0.0.2", None, "app.js", Some("Bearer s3cret"), None, None),
        StaticPlan::Serve { set_cookie: None }
    ));
    c.allowed_domains = vec!["example.com".to_string()];
    assert!(matches!(
        static_plan(&c, "10.0.0.2", Some("evil.net"), "app.js", None, None, None),
        StaticPlan::Forbidden(AuthFail::ForbiddenHost)
    ));
    c.ip_allowlist_enabled = true;
    assert!(matches!(
        static_plan(&c, "10.0.0.2", None, "app.js", None, None, None),
        StaticPlan::Forbidden(AuthFail::ForbiddenIp)
    ));
}

#[test]
fn token_login_answers() {
    let mut c = AppConfig::default();
    c.token = "abc".to_string();
    let mut l = LoginLimiter::new();
    assert!(matches!(login_plan(&mut l, &c, "10.0.0.9", None, None, Some("zzz"), 100), LoginPlan::WrongToken));
    match login_plan(&mut l, &c, "10.0.0.9", None, None, Some("  abc "), 101) {
        LoginPlan::Redirect { set_cookie } => {
            assert_eq!(set_cookie, "webrust_token=abc; Path=/; SameSite=Strict; Max-Age=604800")
        }
        other => panic!("{:?}", other),
    }
    for i in 0..8 {
        let _ = login_plan(&mut l, &c, "10.0.0.9", None, None, Some("x"), 102 + i);
    }
    assert!(matches!(login_plan(&mut l, &c, "10.0.0.9", None, None, Some("abc"), 110), LoginPlan::TooMany));
    assert!(matches!(login_plan(&mut l, &c, "10.0.0.10", None, None, Some("abc"), 110), LoginPlan::Redirect { .. }));
    c.ip_allowlist_enabled = true;
    assert!(matches!(
        login_plan(&mut l, &c, "10.0.0.11", None, None, Some("abc"), 110),
        LoginPlan::Forbidden(AuthFail::ForbiddenIp)
    ));
}

#[test]
fn frame_fanout_packets() {
    let jpeg = [0xFFu8, 0xD8, 1, 2];
    assert_eq!(frame_packet(PixelFormat::Jpeg, 5, false, &jpeg), Some(jpeg.to_vec()));
    assert_eq!(frame_packet(PixelFormat::Rgba8, 5, false, &jpeg), None);
    let au = [0u8, 0, 0, 1, 0x65];
    assert_eq!(frame_packet(PixelFormat::H264, 33, true, &au), Some(pack_h264_frame(33, true, &au)));
    assert!(must_wait(true, PixelFormat::H264));
    assert!(must_wait(false, PixelFormat::Png));
    assert!(!must_wait(false, PixelFormat::H264));
    let c = h264_config(&[1, 2, 3], None, 640, 480);
    assert_eq!(c.codec, "avc1.42E01E");
    assert_eq!(c.description.as_deref(), Some("AQID"));
    assert_eq!((c.width, c.height), (640, 480));
    assert_eq!(h264_config(&[], Some("avc1.640028"), 2, 2).codec, "avc1.640028");
}

#[test]
fn update_download_checks() {
    assert_eq!(download_target(&info(None, None)), Err("no download URL for this platform".to_string()));
    assert_eq!(
        download_target(&info(Some("http://x/y.tar.gz"), None)),
        Err("refusing non-HTTPS download URL".to_string())
    );
    assert_eq!(
        download_target(&info(Some("https://x/y"), Some("../../etc/passwd"))),
        Ok(("https://x/y".to_string(), "passwd".to_string()))
    );
    assert_eq!(
        download_target(&info(Some("https://x/y"), Some("dir/.."))).unwrap().1,
        "webrust-update.bin"
    );
    assert_eq!(download_target(&info(Some("https://x/y"), Some("a/b.zip///"))).unwrap().1, "b.zip");
    assert_eq!(download_target(&info(Some("https://x/y"), None)).unwrap().1, "webrust-update.bin");
    assert_eq!(check_download_size(209_715_200), Ok(()));
    assert_eq!(
        check_download_size(209_715_201),
        Err("download too large (209715201 bytes > 209715200)".to_string())
    );
    assert_eq!(add_download_chunk(10, 5), Ok(15));
    assert_eq!(add_download_chunk(209_715_200, 1), Err("download exceeded size limit".to_string()));
    assert_eq!(add_download_chunk(u64::MAX, 1), Err("download exceeded size limit".to_string()));
    assert!(install_supported(HostOs::MacOs, InstallKind::MacAppZip));
    assert!(!install_supported(HostOs::Linux, InstallKind::WinZip));
    assert!(!install_supported(HostOs::Other, InstallKind::LinuxTarGz));
    assert_eq!(download_start_message(Some("a.pkg")), "Downloading a.pkg…");
    assert_eq!(download_start_message(None), "Downloading update…");
}

fn win(id: i64, pid: i32) -> WindowInfo {
    WindowInfo {
        id: RouteId(id),
        pid,
        name: "App".to_string(),
        title: "T".to_string(),
        path: None,
        w: None,
        h: None,
        icon: None,
        icon_key: None,
    }
}

#[test]
fn window_list_membership() {
    let list = vec![win(10, 300), win(-1, 0)];
    assert!(pid_in_window_list(Some(&list), 300));
    assert!(!pid_in_window_list(Some(&list), 0));
    assert!(!pid_in_window_list(Some(&list), 301));
    assert!(!pid_in_window_list(None, 300));
    assert!(route_in_window_list(Some(&list), -1));
    assert!(route_in_window_list(Some(&list), 10));
    assert!(!route_in_window_list(Some(&list), 11));
    assert!(!route_in_window_list(None, 10));
    let two = vec![win(10, 300), win(10, 301), win(12, 7)];
    assert_eq!(pid_for_route(Some(&two), RouteId(10)), Some(300));
    assert_eq!(pid_for_route(Some(&two), RouteId(13)), None);
    assert_eq!(pid_for_route(None, RouteId(10)), None);
    assert_eq!(pid_for_route(Some(&[win(-1, 5)]), RouteId(-1)), None);
}

#[test]
fn unicode_typing_chunks() {
    assert!(unicode_chunks_exec("").is_empty());
    assert_eq!(unicode_chunks_exec("안녕"), vec!["안녕".to_string()]);
    let s: String = std::iter::repeat('가').take(35).collect();
    let c = unicode_chunks_exec(&s);
    assert_eq!(c.iter().map(|p| p.chars().count()).collect::<Vec<_>>(), vec![16, 16, 3]);
    assert_eq!(c.concat(), s);
}

#[test]
fn webui_version_injection() {
    let html = b"<script src=\"app.js?v=__WEBRUST_VER__\"></script>__WEBRUST_VER__".to_vec();
    assert_eq!(
        inject_webui_version(html.clone(), "index.html", "0.9.1"),
        b"<script src=\"app.js?v=0.9.1\"></script>0.9.1".to_vec()
    );
    assert_eq!(inject_webui_version(html.clone(), "app.js", "0.9.1"), html);
    let bad = vec![0xFFu8, b'_', b'_'];
    assert_eq!(inject_webui_version(bad.clone(), "index.html", "1"), bad);
    assert_eq!(replace_all_bytes(b"aaa", b"aa", b"b"), b"ba".to_vec());
    assert_eq!(replace_all_bytes(b"abc", b"", b"x"), b"abc".to_vec());
}

#[test]
fn macos_mouse_events() {
    let p = cg_mouse_plan(MousePhase::Down, 2, 5);
    assert_eq!(p.event, CgMouseEvent::RightDown);
    assert_eq!(p.button, ButtonKind::Right);
    assert_eq!((p.button_number, p.click_state), (1, 3));
    let m = cg_mouse_plan(MousePhase::Move, 1, 0);
    assert_eq!(m.event, CgMouseEvent::OtherDragged);
    assert_eq!((m.button_number, m.click_state), (2, 1));
    let l = cg_mouse_plan(MousePhase::Up, 7, 2);
    assert_eq!(l.event, CgMouseEvent::LeftUp);
    assert_eq!((l.button_number, l.click_state), (0, 2));
}

#[test]
fn still_frame_encoding() {
    let px: Vec<u8> = (0u8..16).collect();
    assert_eq!(rgba_to_rgb(&px), vec![0, 1, 2, 4, 5, 6, 8, 9, 10, 12, 13, 14]);
    // 3x2 image cropped to 2x2: the first two pixels of each row.
    let img: Vec<u8> = (0u8..24).collect();
    assert_eq!(crop_rgba(&img, 3, 2, 2, 2), vec![0, 1, 2, 3, 4, 5, 6, 7, 12, 13, 14, 15, 16, 17, 18, 19]);
    assert!(crop_rgba(&img, 3, 2, 3, 0).is_empty());
    let rgba = vec![200u8; 8 * 8 * 4];
    let jpeg = encode_jpeg(&rgba, 8, 8, 80).unwrap();
    assert_eq!(&jpeg[..2], &[0xFF, 0xD8]);
    let png = encode_png(&rgba, 8, 8).unwrap();
    assert_eq!(&png[..8], &[0x89, b'P', b'N', b'G', 0x0D, 0x0A, 0x1A, 0x0A]);
    assert!(encode_jpeg(&[], 0, 5, 80).is_none());
    assert!(encode_png(&[], 3, 0).is_none());
}

#[test]
fn mock_platform_answers() {
    let m = MockPlatform;
    assert!(m.list_apps().unwrap().is_empty());
    assert!(m.launch("/x", false).is_ok() && m.quit_pid(3).is_ok());
    assert!(m.current_korean().is_none());
    assert_eq!(m.set_korean(true).unwrap(), (true, "A".to_string()));
    assert_eq!(m.capabilities(), vec!["mock".to_string()]);
    assert!(m.wake_display().is_ok() && m.keep_awake(true).is_ok());
}

#[test]
fn windows_raise_steps() {
    assert_eq!(win_raise_target(Some(0x1234), true, 50), WinTarget::Exact(0x1234));
    assert_eq!(win_raise_target(Some(0x1234), false, 50), WinTarget::ByPid(50));
    assert_eq!(win_raise_target(None, false, 0), WinTarget::NotFound);
    assert_eq!(win_after_foreground(true, 9, 3), WinRaiseNext::Done);
    assert_eq!(win_after_foreground(false, 9, 3), WinRaiseNext::AttachToForeground { fg_tid: 9 });
    assert_eq!(win_after_foreground(false, 3, 3), WinRaiseNext::ToggleTopmost);
    assert_eq!(win_after_foreground(false, 0, 3), WinRaiseNext::ToggleTopmost);
    assert_eq!(win_after_attached(false), WinRaiseNext::ToggleTopmost);
    assert_eq!(win_after_attached(true), WinRaiseNext::Done);
}
