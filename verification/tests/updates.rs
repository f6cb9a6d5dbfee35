use webdock::tuning::HostOs;
use webdock::updater::{classify_asset, is_newer, InstallKind};

#[test]
fn semver_compare() {
    assert!(is_newer("0.1.1", "0.1.0"));
    assert!(is_newer("v0.2.0", "0.1.9"));
    assert!(!is_newer("0.1.0", "0.1.0"));
    assert!(!is_newer("0.1.0", "0.1.1"));
    assert!(is_newer("1.0.0", "0.9.9"));
}

#[test]
fn classify_macos_prefers_pkg() {
    let (s_pkg, k) = classify_asset(HostOs::MacOs, "WebRust-macOS-0.1.9.pkg");
    let (s_zip, _) = classify_asset(HostOs::MacOs, "WebRust-macOS-0.1.9.zip");
    assert!(s_pkg > s_zip);
    assert_eq!(k, InstallKind::MacPkg);
}

#[test]
fn newer_with_longer_version() {
    assert!(is_newer("0.1.0.1", "0.1.0"));
    assert!(!is_newer("0.1", "0.1.0"));
}

#[test]
fn newer_ignores_padding_and_prefix() {
    assert!(!is_newer("1.0", "1.0.0"));
    assert!(!is_newer("1.0.0", "1.0"));
    assert!(!is_newer("v1.2.3", "1.2.3"));
    assert!(!is_newer("1.2.3", "v1.2.3"));
    assert!(is_newer("1.3", "1.2.9"));
    assert!(is_newer("1.2.9", "1.2.3"));
    assert!(is_newer("1.3", "1.2.3"));
}
