use webdock::config::{parse_ini, AppConfig};
use webdock::seat::{InputKind, InputSeat, SeatResult};

#[test]
fn token_match() {
    let mut c = AppConfig::default();
    assert!(c.token_matches(None));
    c.token = "secret".into();
    assert!(!c.token_matches(None));
    assert!(c.token_matches(Some("secret")));
    assert!(!c.token_matches(Some("Secret")));
}

#[test]
fn parse_ini_sample() {
    let ini = r#"
serverEnabled=true
port=9090
allowLAN=1
token=abc
allowedIPs=10.0.0.1, 10.0.0.2
ipAllowlistEnabled=true
"#;
    let c = parse_ini(ini);
    assert!(c.server_enabled);
    assert_eq!(c.port, 9090);
    assert!(c.allow_lan);
    assert_eq!(c.token, "abc");
    assert_eq!(c.allowed_ips.len(), 2);
    assert!(c.ip_allowlist_enabled);
}

#[test]
fn exclusive() {
    let mut seat = InputSeat::new();
    assert!(matches!(seat.acquire(1, InputKind::Key, "a"), SeatResult::Allowed));
    assert!(matches!(seat.acquire(2, InputKind::Key, "b"), SeatResult::Busy { .. }));
    seat.release(1);
    assert!(matches!(seat.acquire(2, InputKind::Key, "b"), SeatResult::Allowed));
}

#[test]
fn same_owner_drag_continues() {
    let mut seat = InputSeat::new();
    assert!(matches!(seat.acquire(1, InputKind::Down, "a"), SeatResult::Allowed));
    assert!(matches!(seat.acquire(1, InputKind::Move, "a"), SeatResult::Allowed));
    assert!(matches!(seat.acquire(1, InputKind::Up, "a"), SeatResult::Allowed));
    assert!(matches!(seat.acquire(2, InputKind::Down, "b"), SeatResult::Busy { .. }));
}

#[test]
fn busy_notify_rate_limit() {
    let mut seat = InputSeat::new();
    assert!(seat.should_notify_busy(1));
    assert!(!seat.should_notify_busy(1));
}

#[test]
fn seat_expires_after_idle_ttl() {
    let mut seat = InputSeat::new();
    assert!(matches!(seat.acquire_at(1, InputKind::Key, "a", 0), SeatResult::Allowed));
    // Within the 850 ms idle lifetime the seat stays taken.
    assert!(matches!(seat.acquire_at(2, InputKind::Key, "b", 800_000_000), SeatResult::Busy { .. }));
    // After it, another peer gets it.
    assert!(matches!(seat.acquire_at(2, InputKind::Key, "b", 900_000_000), SeatResult::Allowed));
}

#[test]
fn seat_drag_grace_keeps_owner() {
    let mut seat = InputSeat::new();
    assert!(matches!(seat.acquire_at(1, InputKind::Down, "a", 0), SeatResult::Allowed));
    // Idle past the TTL but inside the 2 s drag grace: still held.
    match seat.acquire_at(2, InputKind::Down, "b", 1_500_000_000) {
        SeatResult::Busy { who } => assert_eq!(who, "a"),
        SeatResult::Allowed => panic!("seat should be busy during drag grace"),
    }
    assert!(matches!(seat.acquire_at(2, InputKind::Down, "b", 2_100_000_000), SeatResult::Allowed));
}

#[test]
fn busy_notice_after_interval() {
    let mut seat = InputSeat::new();
    assert!(seat.should_notify_busy_at(7, 0));
    assert!(!seat.should_notify_busy_at(7, 999_999_999));
    assert!(seat.should_notify_busy_at(7, 1_000_000_000));
}

#[test]
fn default_config_values() {
    let c = AppConfig::default();
    assert!(!c.server_enabled);
    assert_eq!(c.port, 8090);
    assert!(!c.allow_lan);
    assert!(!c.has_token());
    assert!(!c.trust_proxy_headers);
}

#[test]
fn loopback_always_allowed_and_allowlist() {
    let mut c = AppConfig::default();
    c.ip_allowlist_enabled = true;
    c.allowed_ips = vec![" 10.0.0.1 ".into()];
    assert!(c.is_ip_allowed("127.0.0.1"));
    assert!(c.is_ip_allowed("::1"));
    assert!(c.is_ip_allowed("10.0.0.1"));
    assert!(!c.is_ip_allowed("10.0.0.2"));
}

#[test]
fn domain_allowlist_case_insensitive() {
    let mut c = AppConfig::default();
    assert!(c.is_domain_allowed("anything.example"));
    c.allowed_domains = vec!["Remote.Example.com".into()];
    assert!(c.is_domain_allowed("remote.example.COM"));
    assert!(c.is_domain_allowed("localhost"));
    assert!(!c.is_domain_allowed("evil.example"));
}

#[test]
fn generated_token_is_url_safe() {
    let t = AppConfig::generate_token(24);
    assert_eq!(t.len(), 32);
    assert!(t.chars().all(|c| c.is_ascii_alphanumeric() || c == '-' || c == '_'));
}

#[test]
fn connection_urls_loopback_and_lan() {
    let mut c = AppConfig::default();
    c.port = 9000;
    let urls = c.connection_urls(&["192.168.1.5".to_string()]);
    assert_eq!(urls, vec!["http://127.0.0.1:9000".to_string()]);
    c.allow_lan = true;
    let urls = c.connection_urls(&["192.168.1.5".to_string()]);
    assert_eq!(urls.len(), 2);
    assert_eq!(urls[1], "http://192.168.1.5:9000");
}

#[test]
fn origin_ipv6_loopback_accepted() {
    let mut cfg = AppConfig::default();
    cfg.allowed_domains = vec!["example.com".to_string()];
    assert!(cfg.is_origin_allowed(Some("http://[::1]:8090"), None));
    assert!(cfg.is_origin_allowed(Some("http://[::1]"), None));
    assert!(!cfg.is_origin_allowed(Some("http://[fe80::2]:8090"), None));
    assert!(!cfg.is_origin_allowed(Some("http://[::1"), None));
}

#[test]
fn origin_ipv6_matches_host_header() {
    let mut cfg = AppConfig::default();
    cfg.allowed_domains = vec!["example.com".to_string()];
    assert!(cfg.is_origin_allowed(Some("http://[FE80::2]:8090"), Some("[fe80::2]:8090")));
    assert!(!cfg.is_origin_allowed(Some("http://[fe80::2]:8090"), Some("box.lan:8090")));
}

#[test]
fn origin_rules() {
    let mut cfg = AppConfig::default();
    cfg.allowed_domains = vec!["example.com".to_string()];
    assert!(cfg.is_origin_allowed(Some("https://Example.com:443/x"), None));
    assert!(cfg.is_origin_allowed(Some("http://localhost:8090"), None));
    assert!(cfg.is_origin_allowed(Some("http://box.lan:8090"), Some("box.lan:8090")));
    assert!(!cfg.is_origin_allowed(Some("http://evil.com"), Some("box.lan:8090")));
    assert!(!cfg.is_origin_allowed(Some(" null "), None));
    assert!(!cfg.is_origin_allowed(Some(""), None));
    assert!(!cfg.is_origin_allowed(None, None));
    cfg.token = "t".to_string();
    assert!(cfg.is_origin_allowed(None, None));
}

#[test]
fn bind_follows_lan_setting() {
    let mut cfg = AppConfig::default();
    cfg.port = 8123;
    assert_eq!(cfg.bind_address(), ([127, 0, 0, 1], 8123));
    cfg.allow_lan = true;
    assert_eq!(cfg.bind_address(), ([0, 0, 0, 0], 8123));
}
