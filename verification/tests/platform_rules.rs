use webdock::apps::{
    is_allowed_launch_path, is_under_search_dirs, launch_command, parse_desktop_name, LaunchCommand,
};
use webdock::capture::{
    bitrate_change, display_labels, even_dims, is_system_app, stream_plan, window_listed,
    EncoderSpec, H264Loop,
};
use webdock::icons::{
    data_url, display_glyph_rgba, display_icon_data_url, expand_to_rgba, icns_to_png, plist_string_value, IconFormat,
};
use webdock::ime::{
    capabilities, current_state, ime_next, is_korean_source_id, is_latin_source_id,
    korean_candidates, latin_candidates, ImeNext, ImeStage, LatinCandidate,
};
use webdock::input::{
    button_steps, key_plan, map_button, map_dom_key, printable_latin, ButtonKind, ButtonStep,
    KeyCode, KeyPlan,
};
use webdock::platform::{KeyEvent, MousePhase, StreamConfig, StreamFormat};
use webdock::power::{HoldChange, PowerHold};
use webdock::tuning::HostOs;

#[test]
fn system_chrome_is_hidden() {
    assert!(is_system_app("Dock"));
    assert!(is_system_app("dOcK"));
    assert!(is_system_app("WebRust"));
    assert!(!is_system_app("Safari"));
    assert!(window_listed(false, 800, 600, "Safari", "", 10, 99));
    assert!(!window_listed(true, 800, 600, "Safari", "", 10, 99));
    assert!(!window_listed(false, 39, 600, "Safari", "x", 10, 99));
    assert!(!window_listed(false, 800, 600, "?", "", 10, 99));
    assert!(!window_listed(false, 800, 600, "Safari", "x", 99, 99));
}

#[test]
fn display_rows_show_lock_screen() {
    let (n, t) = display_labels(true, "Built-in");
    assert_eq!(n, "잠금 화면");
    assert_eq!(t, "화면 잠김 · Built-in");
    let (n, t) = display_labels(false, "Built-in");
    assert_eq!((n.as_str(), t.as_str()), ("전체 화면", "Built-in"));
}

#[test]
fn stream_plan_pacing() {
    let c = StreamConfig { fps: 60, max_width: 100, jpeg_quality_permille: 920, format: StreamFormat::H264, bitrate_bps: 100 };
    let p = stream_plan(c);
    assert_eq!((p.fps, p.period_ms, p.max_width, p.quality_pct, p.bitrate_bps), (30, 33, 320, 92, 400_000));
    let c = StreamConfig { fps: 0, ..StreamConfig::default() };
    assert_eq!(stream_plan(c).period_ms, 1000);
    assert_eq!(even_dims(1921, 1081), Some((1920, 1080)));
    assert_eq!(even_dims(1, 100), None);
    assert_eq!(bitrate_change(4_000_000, 100), (400_000, true));
    assert_eq!(bitrate_change(4_000_000, 4_000_000), (4_000_000, false));
}

#[test]
fn encoder_recreation_rules() {
    let mut l = H264Loop::new();
    assert!(l.needs_encoder(640, 480, 2_000_000, 10_000));
    l.encoder_opened(EncoderSpec { width: 640, height: 480, bitrate_bps: 2_000_000 }, 10_000);
    assert!(!l.needs_encoder(640, 480, 2_000_000, 10_001));
    assert!(l.needs_encoder(800, 480, 2_000_000, 10_001));
    // Big bitrate move within 4 s: kept; after 4 s: recreated.
    assert!(!l.needs_encoder(640, 480, 6_000_000, 12_000));
    assert!(l.needs_encoder(640, 480, 6_000_000, 14_000));
    assert_eq!(l.encode_empty(), (false, false));
    assert_eq!(l.encode_empty(), (false, false));
    assert_eq!(l.encode_empty(), (true, false));
    for _ in 3..14 {
        l.encode_empty();
    }
    assert_eq!(l.encode_empty(), (true, true));
    assert!(l.encoder.is_none());
    assert_eq!(l.empty_streak, 0);
}

#[test]
fn printable_keys_are_typed() {
    assert_eq!(printable_latin("KeyA", false), Some('a'));
    assert_eq!(printable_latin("KeyA", true), Some('A'));
    assert_eq!(printable_latin("Digit1", false), Some('1'));
    assert_eq!(printable_latin("Digit1", true), Some('!'));
    assert_eq!(printable_latin("Slash", true), Some('?'));
    assert_eq!(printable_latin("NumpadAdd", true), None);
    assert_eq!(printable_latin("Enter", false), None);
    assert_eq!(map_dom_key("Enter"), Some(KeyCode::Return));
    assert_eq!(map_dom_key("F11"), Some(KeyCode::F(11)));
    assert_eq!(map_dom_key("KeyQ"), Some(KeyCode::Unicode('q')));
    assert_eq!(map_dom_key("Numpad7"), Some(KeyCode::Unicode('7')));
    assert_eq!(map_dom_key("OSRight"), Some(KeyCode::Meta));
    assert_eq!(map_dom_key("Launch"), None);
    assert_eq!(map_button(1), ButtonKind::Middle);
    assert_eq!(map_button(7), ButtonKind::Left);
    assert_eq!(button_steps(MousePhase::Down, 2), vec![ButtonStep::Press, ButtonStep::Release, ButtonStep::Press]);
    assert!(button_steps(MousePhase::Move, 1).is_empty());
}

#[test]
fn key_plans() {
    let ev = KeyEvent { code: "KeyV".into(), meta: true, ctrl: false, shift: false, alt: false };
    assert!(matches!(key_plan(&ev), Ok(KeyPlan::Chord { key: KeyCode::Unicode('v'), meta: true, .. })));
    let ev = KeyEvent { code: "KeyV".into(), meta: false, ctrl: false, shift: false, alt: false };
    assert!(matches!(key_plan(&ev), Ok(KeyPlan::Type('v'))));
    let ev = KeyEvent { code: "Fn".into(), meta: false, ctrl: false, shift: false, alt: false };
    match key_plan(&ev) {
        Err(m) => assert_eq!(m, "unmapped key code: Fn"),
        Ok(_) => panic!("expected an unmapped key"),
    }
}

#[test]
fn input_sources() {
    assert!(is_korean_source_id("com.apple.inputmethod.Korean.2SetKorean"));
    assert!(is_korean_source_id("org.x.HANGUL"));
    assert!(!is_korean_source_id("com.apple.keylayout.ABC"));
    assert!(is_latin_source_id("com.apple.keylayout.British"));
    assert!(!is_latin_source_id("com.apple.inputmethod.Kotoeri"));
    assert_eq!(current_state(true).1, "한");
    assert_eq!(capabilities(HostOs::MacOs).last().map(String::as_str), Some("ime-korean"));
    assert_eq!(capabilities(HostOs::Linux).len(), 6);
    let ids = vec![
        "com.apple.keylayout.ABC".to_string(),
        "com.apple.inputmethod.Korean.2SetKorean".to_string(),
        "org.hangul.3set".to_string(),
    ];
    assert_eq!(korean_candidates(&ids), vec![1, 1, 1, 2]);
    assert_eq!(
        latin_candidates(&ids, Some("com.apple.keylayout.US")),
        vec![LatinCandidate::Listed(0), LatinCandidate::AsciiCurrent, LatinCandidate::Listed(0)]
    );
}

#[test]
fn ime_switch_sequence() {
    assert!(matches!(ime_next(true, ImeStage::Start, true), ImeNext::Finish(true)));
    match ime_next(true, ImeStage::Start, false) {
        ImeNext::Select { modes, stage } => {
            assert_eq!(modes, vec![true]);
            assert_eq!(stage, ImeStage::Selected);
        }
        _ => panic!(),
    }
    match ime_next(true, ImeStage::Retried, false) {
        ImeNext::Select { modes, stage } => {
            assert_eq!(modes, vec![false, true]);
            assert_eq!(stage, ImeStage::Healed);
        }
        _ => panic!(),
    }
    assert!(matches!(ime_next(true, ImeStage::Healed, false), ImeNext::Finish(false)));
}

#[test]
fn icon_helpers() {
    let plist = "<dict>\n\t<key>CFBundleIconFile</key>\n\t<string> AppIcon </string>\n</dict>";
    assert_eq!(plist_string_value(plist, "CFBundleIconFile").as_deref(), Some("AppIcon"));
    assert_eq!(plist_string_value(plist, "CFBundleIconName"), None);
    assert_eq!(expand_to_rgba(&[1, 2, 3, 4, 5, 6], 2, 1, IconFormat::Rgb), Some(vec![1, 2, 3, 255, 4, 5, 6, 255]));
    assert_eq!(expand_to_rgba(&[7, 8], 1, 1, IconFormat::GrayAlpha), Some(vec![7, 7, 7, 8]));
    assert_eq!(expand_to_rgba(&[9], 1, 1, IconFormat::Gray), Some(vec![9, 9, 9, 255]));
    assert_eq!(expand_to_rgba(&[1, 2], 2, 1, IconFormat::Rgba), None);
    let g = display_glyph_rgba();
    assert_eq!(g.len(), 32 * 32 * 4);
    assert_eq!(&g[0..4], &[90, 140, 220, 255]);
    let center = ((10 * 32 + 10) * 4) as usize;
    assert_eq!(&g[center..center + 4], &[40, 50, 70, 255]);
    assert_eq!(data_url(&[1, 2, 3]), "data:image/png;base64,AQID");
}

#[test]
fn launch_rules() {
    let dirs = vec!["/Applications".to_string()];
    assert!(is_under_search_dirs(HostOs::MacOs, "/Applications/Safari.app", &dirs));
    assert!(!is_under_search_dirs(HostOs::MacOs, "/Applications2/Safari.app", &dirs));
    assert!(!is_under_search_dirs(HostOs::MacOs, "/Applications/tool", &dirs));
    assert!(is_under_search_dirs(HostOs::Linux, "/usr/share/applications/gedit.desktop", &[]));
    assert!(is_under_search_dirs(HostOs::Linux, "/opt/app/bin/run", &[]));
    assert!(!is_under_search_dirs(HostOs::Linux, "/tmp/x", &[]));
    assert!(is_under_search_dirs(HostOs::Windows, "C:\\Program Files\\App\\app.EXE", &[]));
    assert!(!is_allowed_launch_path(HostOs::Linux, "/usr/bin/a;rm", None, &[]));
    assert!(!is_allowed_launch_path(HostOs::Linux, "", None, &[]));
    assert!(!is_allowed_launch_path(HostOs::Linux, "/usr/bin/x", Some("/usr/bin/../x"), &[]));
    assert!(is_allowed_launch_path(HostOs::Linux, "/usr/bin/gedit", Some("/usr/bin/gedit"), &[]));
    match launch_command(HostOs::Linux, "/usr/share/applications/org.gnome.gedit.desktop", false) {
        LaunchCommand::GtkLaunch { name } => assert_eq!(name, "org.gnome.gedit"),
        _ => panic!(),
    }
    assert!(matches!(launch_command(HostOs::MacOs, "/Applications/A.app", true), LaunchCommand::Open { new_instance: true, .. }));
    assert_eq!(parse_desktop_name("[Desktop Entry]\r\nName= Text Editor \r\nName=Other\n").as_deref(), Some("Text Editor"));
    assert_eq!(parse_desktop_name("Exec=x"), None);
}

#[test]
fn power_hold_refcount() {
    let mut h = PowerHold::new();
    assert_eq!(h.keep_awake(true), HoldChange::Acquire);
    assert_eq!(h.keep_awake(true), HoldChange::Keep);
    assert_eq!(h.keep_awake(false), HoldChange::Keep);
    assert_eq!(h.keep_awake(false), HoldChange::Release);
    assert_eq!(h.keep_awake(false), HoldChange::Keep);
    assert_eq!(h.count(), 0);
}

fn sample_icns(side: u32, kind: icns::IconType) -> Vec<u8> {
    let mut img = icns::Image::new(icns::PixelFormat::RGBA, side, side);
    for px in img.data_mut().chunks_mut(4) {
        px.copy_from_slice(&[10, 20, 30, 255]);
    }
    let mut family = icns::IconFamily::new();
    family.add_icon_with_type(&img, kind).unwrap();
    let mut out = Vec::new();
    family.write(&mut out).unwrap();
    out
}

#[test]
fn icns_icons_become_png() {
    const PNG_SIG: [u8; 8] = [0x89, b'P', b'N', b'G', 0x0D, 0x0A, 0x1A, 0x0A];
    let same = icns_to_png(&sample_icns(32, icns::IconType::RGBA32_32x32), 32).unwrap();
    assert_eq!(&same[..8], &PNG_SIG);
    let scaled = icns_to_png(&sample_icns(64, icns::IconType::RGBA32_64x64), 32).unwrap();
    assert_eq!(&scaled[..8], &PNG_SIG);
    assert!(icns_to_png(b"not an icns file", 32).is_none());
    assert!(icns_to_png(&sample_icns(32, icns::IconType::RGBA32_32x32), 0).is_none());
    let url = display_icon_data_url().unwrap();
    assert!(url.starts_with("data:image/png;base64,iVBORw0KGgo"));
}

fn crc32(bytes: &[u8]) -> u32 {
    let mut crc: u32 = 0xFFFF_FFFF;
    for &b in bytes {
        crc ^= b as u32;
        for _ in 0..8 {
            let mask = (crc & 1).wrapping_neg();
            crc = (crc >> 1) ^ (0xEDB8_8320 & mask);
        }
    }
    !crc
}

fn png_chunk(out: &mut Vec<u8>, kind: &[u8; 4], data: &[u8]) {
    out.extend_from_slice(&(data.len() as u32).to_be_bytes());
    let mut body = kind.to_vec();
    body.extend_from_slice(data);
    out.extend_from_slice(&body);
    out.extend_from_slice(&crc32(&body).to_be_bytes());
}

/// A PNG stream whose header declares a `side`×`side` RGBA picture.
fn png_header_only(side: u32) -> Vec<u8> {
    let mut out = vec![0x89, b'P', b'N', b'G', 0x0D, 0x0A, 0x1A, 0x0A];
    let mut ihdr = side.to_be_bytes().to_vec();
    ihdr.extend_from_slice(&side.to_be_bytes());
    ihdr.extend_from_slice(&[8, 6, 0, 0, 0]);
    png_chunk(&mut out, b"IHDR", &ihdr);
    png_chunk(&mut out, b"IDAT", &[]);
    png_chunk(&mut out, b"IEND", &[]);
    out
}

fn family_bytes(family: &icns::IconFamily) -> Vec<u8> {
    let mut out = Vec::new();
    family.write(&mut out).unwrap();
    out
}

#[test]
fn icns_oversized_png_element_is_skipped() {
    let mut family = icns::IconFamily::new();
    family.elements.push(icns::IconElement::new(icns::OSType(*b"icp5"), png_header_only(65536)));
    assert!(icns_to_png(&family_bytes(&family), 32).is_none());

    let mut img = icns::Image::new(icns::PixelFormat::RGBA, 64, 64);
    for px in img.data_mut().chunks_mut(4) {
        px.copy_from_slice(&[10, 20, 30, 255]);
    }
    family.add_icon_with_type(&img, icns::IconType::RGBA32_64x64).unwrap();
    let png = icns_to_png(&family_bytes(&family), 32).unwrap();
    let decoded = image::load_from_memory(&png).unwrap().to_rgba8();
    assert_eq!(decoded.dimensions(), (32, 32));
    assert_eq!(decoded.get_pixel(5, 5).0, [10, 20, 30, 255]);
}

#[test]
fn icns_prefers_listed_type_over_file_order() {
    let mut family = icns::IconFamily::new();
    let mut big = icns::Image::new(icns::PixelFormat::RGBA, 128, 128);
    for px in big.data_mut().chunks_mut(4) {
        px.copy_from_slice(&[200, 0, 0, 255]);
    }
    family.add_icon_with_type(&big, icns::IconType::RGBA32_128x128).unwrap();
    let mut small = icns::Image::new(icns::PixelFormat::RGBA, 32, 32);
    for px in small.data_mut().chunks_mut(4) {
        px.copy_from_slice(&[0, 0, 200, 255]);
    }
    family.add_icon_with_type(&small, icns::IconType::RGBA32_32x32).unwrap();
    let png = icns_to_png(&family_bytes(&family), 32).unwrap();
    let decoded = image::load_from_memory(&png).unwrap().to_rgba8();
    assert_eq!(decoded.dimensions(), (32, 32));
    assert_eq!(decoded.get_pixel(0, 0).0, [0, 0, 200, 255]);
}

#[test]
fn data_url_padding() {
    assert_eq!(data_url(b"Man"), "data:image/png;base64,TWFu");
    assert_eq!(data_url(b"Ma"), "data:image/png;base64,TWE=");
    assert_eq!(data_url(b"M"), "data:image/png;base64,TQ==");
    assert_eq!(data_url(&[0xfb, 0xff]), "data:image/png;base64,+/8=");
    assert_eq!(data_url(b""), "data:image/png;base64,");
}
