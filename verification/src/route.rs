//! Route ids: real windows use the OS window id; displays carry high flag bits.
//!
//! The flag is `0xE000_0000` (the value the WebDock web client knows), so
//! OS window ids never collide (X11 ids can set bit 30). Display routes that
//! carry `1 << 30` alone still count as displays.

use vstd::prelude::*;

use crate::protocol::RouteId;

verus! {

/// High bits set on display (full-screen) routes.
pub const DISPLAY_ROUTE_FLAG: i64 = 0xE000_0000;

/// Other display flag (bit 30 alone), still accepted.
pub const LEGACY_DISPLAY_FLAG: i64 = 0x4000_0000;

/// Mask of the OS display id inside a display route.
pub const DISPLAY_ID_MASK: i64 = 0x1FFF_FFFF;

/// What a capture stream shows.
#[derive(Debug, Clone, Copy, PartialEq, Eq, Structural)]
pub enum CaptureTarget {
    Window(RouteId),
    Display(u32),
}

/// The route is a display route (current or legacy flag).
pub open spec fn spec_is_display_route(v: i64) -> bool {
    (v & DISPLAY_ROUTE_FLAG) == DISPLAY_ROUTE_FLAG || (v & LEGACY_DISPLAY_FLAG)
        == LEGACY_DISPLAY_FLAG
}

/// Whether a route names a display.
pub fn is_display_route(id: RouteId) -> (r: bool)
    ensures
        r == spec_is_display_route(id.0),
{
    let v = id.as_i64();
    (v & DISPLAY_ROUTE_FLAG) == DISPLAY_ROUTE_FLAG || (v & LEGACY_DISPLAY_FLAG)
        == LEGACY_DISPLAY_FLAG
}

/// Route of a display.
pub fn display_route(monitor_id: u32) -> (r: RouteId)
    ensures
        r.0 == DISPLAY_ROUTE_FLAG | ((monitor_id & 0x1FFF_FFFFu32) as i64),
{
    RouteId(DISPLAY_ROUTE_FLAG | ((monitor_id & 0x1FFF_FFFFu32) as i64))
}

/// The display id of a display route.
pub fn display_id_from_route(id: RouteId) -> (r: Option<u32>)
    ensures
        r == (if spec_is_display_route(id.0) {
            Some((id.0 & DISPLAY_ID_MASK) as u32)
        } else {
            None::<u32>
        }),
{
    if !is_display_route(id) {
        return None;
    }
    Some((id.as_i64() & DISPLAY_ID_MASK) as u32)
}

/// Route of an OS window.
pub fn window_route(window_id: u32) -> (r: RouteId)
    ensures
        r.0 == window_id as i64,
{
    RouteId(window_id as i64)
}

/// The window id of a window route.
pub fn window_id_from_route(id: RouteId) -> (r: Option<u32>)
    ensures
        r == (if spec_is_display_route(id.0) {
            None::<u32>
        } else {
            Some(id.0 as u32)
        }),
{
    if is_display_route(id) {
        None
    } else {
        Some(id.as_i64() as u32)
    }
}

/// Route that a capture target streams.
pub fn route_from_target(target: CaptureTarget) -> (r: RouteId)
    ensures
        r == (match target {
            CaptureTarget::Window(id) => id,
            CaptureTarget::Display(m) => RouteId(
                DISPLAY_ROUTE_FLAG | ((m & 0x1FFF_FFFFu32) as i64),
            ),
        }),
{
    match target {
        CaptureTarget::Window(id) => id,
        CaptureTarget::Display(id) => display_route(id),
    }
}

/// Capture target of a route.
pub fn route_to_target(route: i64) -> (t: CaptureTarget)
    ensures
        t == (if spec_is_display_route(route) {
            CaptureTarget::Display((route & DISPLAY_ID_MASK) as u32)
        } else {
            CaptureTarget::Window(RouteId(route))
        }),
{
    let id = RouteId(route);
    if is_display_route(id) {
        match display_id_from_route(id) {
            Some(d) => CaptureTarget::Display(d),
            None => CaptureTarget::Display(0),
        }
    } else {
        CaptureTarget::Window(id)
    }
}

/// A display route is recognised as one, and gives back the display id (its
/// low 29 bits).
pub proof fn lemma_display_route_roundtrip(m: u32)
    ensures
        spec_is_display_route(DISPLAY_ROUTE_FLAG | ((m & 0x1FFF_FFFFu32) as i64)),
        ((DISPLAY_ROUTE_FLAG | ((m & 0x1FFF_FFFFu32) as i64)) & DISPLAY_ID_MASK) as u32 == m
            & 0x1FFF_FFFFu32,
{
    assert(((0xE000_0000i64 | ((m & 0x1FFF_FFFFu32) as i64)) & 0xE000_0000i64) == 0xE000_0000i64)
        by (bit_vector);
    assert((((0xE000_0000i64 | ((m & 0x1FFF_FFFFu32) as i64)) & 0x1FFF_FFFFi64) as u32) == m
        & 0x1FFF_FFFFu32) by (bit_vector);
}

/// A window route whose id has bit 30 clear is not a display route and gives
/// the window id back. (Ids with bit 30 set read as legacy display routes.)
pub proof fn lemma_window_route_roundtrip(w: u32)
    requires
        w & 0x4000_0000u32 == 0,
    ensures
        !spec_is_display_route(w as i64),
        (w as i64) as u32 == w,
{
    assert(((w as i64) & 0xE000_0000i64) != 0xE000_0000i64) by (bit_vector)
        requires
            w & 0x4000_0000u32 == 0,
    ;
    assert(((w as i64) & 0x4000_0000i64) != 0x4000_0000i64) by (bit_vector)
        requires
            w & 0x4000_0000u32 == 0,
    ;
    assert((w as i64) as u32 == w) by (bit_vector);
}

/// Streaming the route of a display target streams that display again (for
/// display ids that fit the 29-bit mask).
pub proof fn lemma_target_roundtrip(m: u32)
    requires
        m <= 0x1FFF_FFFF,
    ensures
        spec_is_display_route(DISPLAY_ROUTE_FLAG | ((m & 0x1FFF_FFFFu32) as i64)),
        ((DISPLAY_ROUTE_FLAG | ((m & 0x1FFF_FFFFu32) as i64)) & DISPLAY_ID_MASK) as u32 == m,
{
    lemma_display_route_roundtrip(m);
    assert(m & 0x1FFF_FFFFu32 == m) by (bit_vector)
        requires
            m <= 0x1FFF_FFFF,
    ;
}

} // verus!
