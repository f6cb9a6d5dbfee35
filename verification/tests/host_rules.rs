use webdock::auth::{check_access, extract_token, gate_page, peer_ip, set_cookie_header, urlencoding_decode, AuthFail};
use webdock::cli::{help_text, parse_cli_args, parse_port, port_candidates, top_command, TopCommand};
use webdock::config::AppConfig;
use webdock::hostctl::{
    apply_settings, bind_failed_message, ipc_command, open_remote_url, update_check_message,
    IpcCommand, Lifecycle, SettingsEdit,
};
use webdock::updater::{InstallKind, UpdateInfo};
use webdock::web::{cache_control_for, content_type_for, is_asset_public, normalize_path};

fn args(v: &[&str]) -> Vec<String> {
    v.iter().map(|s| s.to_string()).collect()
}

#[test]
fn top_command_priority() {
    assert_eq!(top_command(&args(&["--cli", "--help"])), TopCommand::Help);
    assert_eq!(top_command(&args(&["-V"])), TopCommand::Version);
    assert_eq!(top_command(&args(&["--headless"])), TopCommand::Cli);
    assert_eq!(top_command(&args(&["--cli", "--check-update"])), TopCommand::CheckUpdate);
    assert_eq!(top_command(&args(&["--install-update", "--cli"])), TopCommand::InstallUpdate);
    assert_eq!(top_command(&args(&[])), TopCommand::Gui);
    assert!(help_text("1.2.3").starts_with("WebRust — remote desktop host v1.2.3\n\n"));
}

#[test]
fn port_parsing_messages() {
    assert_eq!(parse_port("8080"), Ok(8080));
    assert_eq!(parse_port("+81"), Ok(81));
    assert_eq!(parse_port(""), Err("cannot parse integer from empty string".to_string()));
    assert_eq!(parse_port("80a"), Err("invalid digit found in string".to_string()));
    assert_eq!(parse_port("70000"), Err("number too large to fit in target type".to_string()));
}

#[test]
fn cli_options() {
    let p = parse_cli_args(AppConfig::default(), &args(&["--cli", "--port", "9100", "--lan", "--token", "t", "--bogus"])).unwrap();
    assert!(p.config.server_enabled);
    assert_eq!(p.config.port, 9100);
    assert!(p.port_forced);
    assert!(p.config.allow_lan);
    assert_eq!(p.config.token, "t");
    assert_eq!(p.unknown, vec!["--bogus".to_string()]);
    assert!(!p.gen_token);
    assert!(parse_cli_args(AppConfig::default(), &args(&["--port", "x"])).is_err());
    let p = parse_cli_args(AppConfig::default(), &args(&["--gen-token", "--lan"])).unwrap();
    assert!(p.gen_token);
    assert!(!p.config.allow_lan);
}

#[test]
fn cli_options_values_and_endings() {
    let p = parse_cli_args(AppConfig::default(), &args(&["a", "--webui", "/srv/ui", "b", "--headless"])).unwrap();
    assert_eq!(p.webui_dir, Some("/srv/ui".to_string()));
    assert_eq!(p.unknown, vec!["a".to_string(), "b".to_string()]);
    assert!(!p.port_forced);
    assert_eq!(p.config.port, AppConfig::default().port);
    let p = parse_cli_args(AppConfig::default(), &args(&["--lan", "--token"])).unwrap();
    assert!(p.config.allow_lan);
    assert_eq!(p.config.token, "");
    let p = parse_cli_args(AppConfig::default(), &args(&["--port"])).unwrap();
    assert!(!p.port_forced);
    let p = parse_cli_args(AppConfig::default(), &args(&["x", "--gen-token", "y"])).unwrap();
    assert!(p.gen_token);
    assert_eq!(p.unknown, vec!["x".to_string()]);
    assert_eq!(
        parse_cli_args(AppConfig::default(), &args(&["--port", "70000"])).err(),
        Some("number too large to fit in target type".to_string())
    );
    let p = parse_cli_args(AppConfig::default(), &args(&["--port", "9000", "--port", "9001"])).unwrap();
    assert_eq!(p.config.port, 9001);
}

#[test]
fn port_candidates_order() {
    assert_eq!(port_candidates(9000, true), vec![9000]);
    let v = port_candidates(8095, false);
    assert_eq!(v[0], 8095);
    assert_eq!(v.len(), 11);
    assert_eq!(v[1], 8090);
    assert!(!v[1..].contains(&8095));
}

fn edit(port: u16, enabled: bool) -> SettingsEdit {
    SettingsEdit {
        server_enabled: enabled,
        port,
        allow_lan: false,
        token: String::new(),
        allowed_domains: vec![],
        ip_allowlist_enabled: false,
        allowed_ips: vec![],
    }
}

#[test]
fn settings_lifecycle() {
    let prev = AppConfig::default();
    match apply_settings(&prev, edit(0, true), false) {
        Err(m) => assert_eq!(m, "port must be between 1 and 65535"),
        Ok(_) => panic!(),
    }
    let (c, l) = apply_settings(&prev, edit(9000, true), true).unwrap();
    assert_eq!(c.port, 9000);
    assert_eq!(l, Lifecycle::Restart { start_again: true });
    let (_, l) = apply_settings(&prev, edit(8090, true), false).unwrap();
    assert_eq!(l, Lifecycle::Start);
    let (_, l) = apply_settings(&prev, edit(8090, false), true).unwrap();
    assert_eq!(l, Lifecycle::Stop);
    let (_, l) = apply_settings(&prev, edit(8090, false), false).unwrap();
    assert_eq!(l, Lifecycle::Nothing);
}

#[test]
fn remote_url_and_messages() {
    let mut c = AppConfig::default();
    assert_eq!(open_remote_url(&c, None), "http://127.0.0.1:8090/");
    c.token = "abc".into();
    assert_eq!(open_remote_url(&c, Some(9001)), "http://127.0.0.1:9001/?token=abc");
    assert_eq!(bind_failed_message(80, "denied"), "port 80 is unavailable (denied). Choose another port and Apply.");
    assert!(matches!(ipc_command("genToken"), IpcCommand::GenToken));
    match ipc_command("dance") {
        IpcCommand::Unknown(n) => assert_eq!(n, "dance"),
        _ => panic!(),
    }
    let info = UpdateInfo {
        current_version: "0.1.0".into(),
        latest_version: "0.2.0".into(),
        update_available: true,
        download_url: None,
        html_url: None,
        asset_name: None,
        notes: None,
        install_kind: InstallKind::LinuxTarGz,
    };
    assert_eq!(update_check_message(&info), "Update available: v0.2.0 → open release page");
}

#[test]
fn static_paths() {
    assert_eq!(normalize_path("/"), "index.html");
    assert_eq!(normalize_path("/app.js?v=2"), "app.js");
    assert_eq!(normalize_path("///"), "index.html");
    assert_eq!(content_type_for("app.JS"), "application/javascript; charset=utf-8");
    assert_eq!(content_type_for("font.woff2"), "font/woff2");
    assert_eq!(content_type_for("noext"), "application/octet-stream");
    assert_eq!(cache_control_for("index.html"), "no-cache");
    assert_eq!(cache_control_for("logo.png"), "public, max-age=86400");
    assert!(is_asset_public("favicon.png"));
    assert!(!is_asset_public("index.html"));
}

#[test]
fn access_rules() {
    let mut c = AppConfig::default();
    c.token = "s3".into();
    assert_eq!(check_access(&c, None, None, None, Some("s3"), "1.2.3.4"), Ok(()));
    assert_eq!(
        check_access(&c, None, None, None, None, "1.2.3.4"),
        Err(AuthFail::Unauthorized { wrong: false })
    );
    assert_eq!(
        check_access(&c, None, None, Some("webrust_token=bad"), None, "1.2.3.4"),
        Err(AuthFail::Unauthorized { wrong: true })
    );
    assert_eq!(check_access(&c, None, Some("Bearer s3"), None, None, "1.2.3.4"), Ok(()));
    assert_eq!(extract_token(None, Some("a=1; webrust_token=x%20y"), None).as_deref(), Some("x y"));
    assert_eq!(set_cookie_header("t"), "webrust_token=t; Path=/; SameSite=Strict; Max-Age=604800");
    assert!(gate_page(true).contains("토큰이 올바르지 않습니다"));
    assert_eq!(peer_ip(Some("9.9.9.9, 1.1.1.1"), None, "5.5.5.5", true), "9.9.9.9");
    assert_eq!(peer_ip(Some("9.9.9.9"), None, "5.5.5.5", false), "5.5.5.5");
}

#[test]
fn cookie_value_percent_decoding() {
    assert_eq!(urlencoding_decode("a%2Fb+c%zz%4"), "a/b c%zz%4");
    assert_eq!(urlencoding_decode("%E2%9C%93"), "\u{2713}");
    assert_eq!(urlencoding_decode("%FF"), "\u{FFFD}");
    assert_eq!(urlencoding_decode(""), "");
}
