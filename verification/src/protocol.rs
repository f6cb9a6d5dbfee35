//! Shared value types of the WebSocket protocol (JSON side).

use vstd::prelude::*;

verus! {

/// Protocol version advertised in the `hello` message.
pub const PROTOCOL_VERSION: u32 = 1;

/// Window or display route id (a window id, or a display id with flag bits).
#[derive(Debug, Clone, Copy, PartialEq, Eq, Structural)]
pub struct RouteId(pub i64);

impl RouteId {
    /// The raw id.
    pub fn as_i64(self) -> (r: i64)
        ensures
            r == self.0,
    {
        self.0
    }
}

/// Mouse button number as sent by the browser (0 left, 1 middle, 2 right).
#[derive(Debug, Clone, Copy, PartialEq, Eq, Structural)]
pub struct MouseButton(pub i32);

/// Window row of the browser sidebar (`name` is the application name).
#[derive(Debug, Clone)]
pub struct WindowInfo {
    pub id: RouteId,
    pub pid: i32,
    pub name: String,
    pub title: String,
    pub path: Option<String>,
    pub w: Option<i32>,
    pub h: Option<i32>,
    /// `data:image/png;base64,...`, only sent when new to the peer.
    pub icon: Option<String>,
    pub icon_key: Option<String>,
}

/// Installed application row.
#[derive(Debug, Clone)]
pub struct AppInfo {
    pub name: String,
    pub path: String,
    pub icon: Option<String>,
    pub icon_key: Option<String>,
}

/// Connected browser row.
#[derive(Debug, Clone)]
pub struct ClientInfo {
    pub id: String,
    pub ip: String,
    pub viewing: Option<String>,
    pub window_id: Option<RouteId>,
}

/// Input-method state for the browser.
#[derive(Debug, Clone)]
pub struct ImePayload {
    pub korean: bool,
    pub label: String,
}

/// Decoder configuration of an H.264 stream.
#[derive(Debug, Clone)]
pub struct H264Config {
    pub codec: String,
    pub width: u32,
    pub height: u32,
    /// Base64 `avcC` record.
    pub description: Option<String>,
}

} // verus!
