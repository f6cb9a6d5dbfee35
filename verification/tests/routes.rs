use webdock::protocol::RouteId;
use webdock::route::{
    display_id_from_route, display_route, is_display_route, route_from_target, route_to_target,
    window_id_from_route, window_route, CaptureTarget, DISPLAY_ROUTE_FLAG,
};

#[test]
fn display_flag_not_window() {
    let w = window_route(1_073_741_824);
    let d = display_route(3);
    assert!(is_display_route(d));
    assert_eq!(display_id_from_route(d), Some(3));
    assert_eq!(d.as_i64() & DISPLAY_ROUTE_FLAG, DISPLAY_ROUTE_FLAG);
    let _ = w;
}

#[test]
fn normal_window_not_display() {
    let w = window_route(42);
    assert!(!is_display_route(w));
    assert_eq!(window_id_from_route(w), Some(42));
}

#[test]
fn display_route_roundtrip_target() {
    let t = CaptureTarget::Display(7);
    let r = route_from_target(t);
    assert_eq!(r.as_i64(), 0xE000_0007);
    assert_eq!(route_to_target(r.as_i64()), t);
    assert_eq!(window_id_from_route(r), None);
}

#[test]
fn legacy_flag_counts_as_display() {
    assert!(is_display_route(RouteId(0x4000_0005)));
    assert_eq!(route_to_target(42), CaptureTarget::Window(RouteId(42)));
}
