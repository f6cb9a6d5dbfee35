//! Value types shared by the host and its platform backends (capture, input,
//! windows, applications, input method, power), and the backend traits whose
//! results the library reads.

use vstd::prelude::*;

use crate::protocol::{AppInfo, RouteId};
use crate::text::{chars_of, push_chars, push_str_chars, string_of};

verus! {

/// Stream encoding chosen by the browser.
#[derive(Debug, Clone, Copy, PartialEq, Eq, Structural)]
pub enum StreamFormat {
    Jpeg,
    Png,
    H264,
}

impl Default for StreamFormat {
    fn default() -> (f: StreamFormat)
        ensures
            f == StreamFormat::Jpeg,
    {
        StreamFormat::Jpeg
    }
}

/// Stream settings shared by all captures. The JPEG quality is kept in
/// thousandths (920 is quality 0.92).
#[derive(Debug, Clone, Copy, PartialEq, Eq, Structural)]
pub struct StreamConfig {
    pub fps: u32,
    pub max_width: u32,
    pub jpeg_quality_permille: u32,
    pub format: StreamFormat,
    /// Target bitrate of H.264 (bit/s).
    pub bitrate_bps: u32,
}

impl Default for StreamConfig {
    fn default() -> (c: StreamConfig)
        ensures
            c == (StreamConfig {
                fps: 20,
                max_width: 1920,
                jpeg_quality_permille: 920,
                format: StreamFormat::Jpeg,
                bitrate_bps: 2_800_000,
            }),
    {
        StreamConfig {
            fps: 20,
            max_width: 1920,
            jpeg_quality_permille: 920,
            format: StreamFormat::Jpeg,
            bitrate_bps: 2_800_000,
        }
    }
}

/// Pixel layout or encoding of a captured frame.
#[derive(Debug, Clone, Copy, PartialEq, Eq, Structural)]
pub enum PixelFormat {
    Bgra8,
    Rgba8,
    Jpeg,
    Png,
    H264,
}

/// Encoded or raw frame from a capture backend.
#[derive(Debug, Clone)]
pub struct RawFrame {
    pub width: u32,
    pub height: u32,
    pub pts_us: i64,
    pub bytes: Vec<u8>,
    pub format: PixelFormat,
    pub keyframe: bool,
    /// When set, an `h264config` message goes out before this sample.
    pub h264_avcc: Option<Vec<u8>>,
    pub h264_codec: Option<String>,
}

impl Default for RawFrame {
    fn default() -> (f: RawFrame)
        ensures
            f.width == 0 && f.height == 0 && f.pts_us == 0,
            f.bytes@.len() == 0,
            f.format == PixelFormat::Jpeg,
            f.keyframe,
            f.h264_avcc is None,
            f.h264_codec is None,
    {
        RawFrame {
            width: 0,
            height: 0,
            pts_us: 0,
            bytes: Vec::new(),
            format: PixelFormat::Jpeg,
            keyframe: true,
            h264_avcc: None,
            h264_codec: None,
        }
    }
}

/// Phase of a pointer event.
#[derive(Debug, Clone, Copy, PartialEq, Eq, Structural)]
pub enum MousePhase {
    Down,
    Move,
    Up,
}

/// Key press from the browser (`code` is a DOM `KeyboardEvent.code`).
#[derive(Debug, Clone)]
pub struct KeyEvent {
    pub code: String,
    pub meta: bool,
    pub ctrl: bool,
    pub shift: bool,
    pub alt: bool,
}

/// Target window of an input or window operation.
#[derive(Debug, Clone, Copy, PartialEq, Eq, Structural)]
pub struct WindowRef {
    pub id: RouteId,
    pub pid: i32,
}

/// A display of the host.
#[derive(Debug, Clone)]
pub struct DisplayInfo {
    pub id: u32,
    pub name: String,
    pub width: u32,
    pub height: u32,
}

/// `prefix` followed by `s`.
fn prefixed(prefix: &str, s: &str) -> (r: String)
    ensures
        r@ == prefix@ + s@,
{
    let mut out = chars_of(prefix);
    push_str_chars(&mut out, s);
    string_of(out.as_slice())
}

fn copied(s: &str) -> (r: String)
    ensures
        r@ == s@,
{
    string_of(chars_of(s).as_slice())
}

/// Capture backend failure.
#[derive(Debug)]
pub enum CaptureError {
    NotSupported(&'static str),
    NotFound,
    Other(String),
}

impl CaptureError {
    /// The error's message.
    pub fn message(&self) -> (r: String)
        ensures
            r@ == (match self {
                CaptureError::NotSupported(s) => "not supported: "@ + s@,
                CaptureError::NotFound => "target not found"@,
                CaptureError::Other(s) => s@,
            }),
    {
        match self {
            CaptureError::NotSupported(s) => prefixed("not supported: ", s),
            CaptureError::NotFound => copied("target not found"),
            CaptureError::Other(s) => copied(s.as_str()),
        }
    }
}

/// Input injection failure.
#[derive(Debug)]
pub enum InputError {
    NotSupported(&'static str),
    Other(String),
}

impl InputError {
    /// The error's message.
    pub fn message(&self) -> (r: String)
        ensures
            r@ == (match self {
                InputError::NotSupported(s) => "not supported: "@ + s@,
                InputError::Other(s) => s@,
            }),
    {
        match self {
            InputError::NotSupported(s) => prefixed("not supported: ", s),
            InputError::Other(s) => copied(s.as_str()),
        }
    }
}

/// Window operation failure.
#[derive(Debug)]
pub enum WindowError {
    NotFound,
    Other(String),
}

impl WindowError {
    /// The error's message.
    pub fn message(&self) -> (r: String)
        ensures
            r@ == (match self {
                WindowError::NotFound => "not found"@,
                WindowError::Other(s) => s@,
            }),
    {
        match self {
            WindowError::NotFound => copied("not found"),
            WindowError::Other(s) => copied(s.as_str()),
        }
    }
}

/// Other platform failure.
#[derive(Debug)]
pub enum PlatformError {
    Other(String),
}

impl PlatformError {
    /// The error's message.
    pub fn message(&self) -> (r: String)
        ensures
            r@ == (match self {
                PlatformError::Other(s) => s@,
            }),
    {
        match self {
            PlatformError::Other(s) => copied(s.as_str()),
        }
    }
}

/// Installed applications: list, launch, quit.
pub trait AppCatalog {
    fn list_apps(&self) -> Result<Vec<AppInfo>, PlatformError>;

    fn launch(&self, path: &str, new_instance: bool) -> Result<(), PlatformError>;

    fn quit_pid(&self, pid: i32) -> Result<(), PlatformError>;
}

/// Korean / Latin input-method switching.
pub trait ImeControl {
    /// Whether Korean input is active, with the label of the current source.
    fn current_korean(&self) -> Option<(bool, String)>;

    fn set_korean(&self, korean: bool) -> Result<(bool, String), PlatformError>;

    fn capabilities(&self) -> Vec<String>;
}

/// Display wake and sleep prevention.
pub trait PowerControl {
    fn wake_display(&self) -> Result<(), PlatformError>;

    fn keep_awake(&self, enable: bool) -> Result<(), PlatformError>;
}

/// Test double of the platform: no applications, a fixed input method, no
/// power management.
pub struct MockPlatform;

impl AppCatalog for MockPlatform {
    fn list_apps(&self) -> (r: Result<Vec<AppInfo>, PlatformError>)
        ensures
            r matches Ok(v) && v@.len() == 0,
    {
        Ok(Vec::new())
    }

    fn launch(&self, path: &str, new_instance: bool) -> (r: Result<(), PlatformError>)
        ensures
            r is Ok,
    {
        Ok(())
    }

    fn quit_pid(&self, pid: i32) -> (r: Result<(), PlatformError>)
        ensures
            r is Ok,
    {
        Ok(())
    }
}

impl ImeControl for MockPlatform {
    fn current_korean(&self) -> (r: Option<(bool, String)>)
        ensures
            r is None,
    {
        None
    }

    fn set_korean(&self, korean: bool) -> (r: Result<(bool, String), PlatformError>)
        ensures
            r matches Ok((k, label)) && k == korean && label@ == "A"@,
    {
        Ok((korean, copied("A")))
    }

    fn capabilities(&self) -> (r: Vec<String>)
        ensures
            r@.len() == 1 && r@[0]@ == "mock"@,
    {
        let mut v: Vec<String> = Vec::new();
        v.push(copied("mock"));
        v
    }
}

impl PowerControl for MockPlatform {
    fn wake_display(&self) -> (r: Result<(), PlatformError>)
        ensures
            r is Ok,
    {
        Ok(())
    }

    fn keep_awake(&self, enable: bool) -> (r: Result<(), PlatformError>)
        ensures
            r is Ok,
    {
        Ok(())
    }
}

} // verus!
