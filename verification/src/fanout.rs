//! Fan-out of captured frames to the browsers viewing a route: the binary
//! packet of each frame, whether it may be dropped under backpressure, and
//! the `h264config` payload that must precede a new stream configuration.

use vstd::prelude::*;

use crate::b64::{base64_standard, encode_standard};
use crate::frame::{pack_h264_frame, pack_jpeg_frame, pack_png_frame, packet_bytes};
use crate::platform::PixelFormat;
use crate::protocol::H264Config;
use crate::text::{chars_of, string_of};

verus! {

/// The packet of a frame: JPEG and PNG raw, H.264 with its header; raw
/// pixel frames are not sent.
pub open spec fn spec_frame_packet(format: PixelFormat, pts_us: i64, keyframe: bool, bytes: Seq<u8>) -> Option<Seq<u8>> {
    match format {
        PixelFormat::Jpeg => Some(bytes),
        PixelFormat::Png => Some(bytes),
        PixelFormat::H264 => Some(packet_bytes(keyframe, pts_us, bytes)),
        _ => None,
    }
}

/// Packet of a captured frame for the browsers.
pub fn frame_packet(format: PixelFormat, pts_us: i64, keyframe: bool, bytes: &[u8]) -> (r: Option<Vec<u8>>)
    ensures
        match r {
            Some(p) => spec_frame_packet(format, pts_us, keyframe, bytes@) == Some(p@),
            None => spec_frame_packet(format, pts_us, keyframe, bytes@) is None,
        },
{
    match format {
        PixelFormat::Jpeg => Some(pack_jpeg_frame(pts_us, bytes)),
        PixelFormat::Png => Some(pack_png_frame(pts_us, bytes)),
        PixelFormat::H264 => Some(pack_h264_frame(pts_us, keyframe, bytes)),
        _ => None,
    }
}

/// Keyframes and still images wait briefly for a full queue (the browser
/// needs them to resync); H.264 deltas are dropped instead (live beats lag).
pub open spec fn spec_must_wait(keyframe: bool, format: PixelFormat) -> bool {
    keyframe || format == PixelFormat::Jpeg || format == PixelFormat::Png
}

/// Whether delivery of a frame waits for queue space.
pub fn must_wait(keyframe: bool, format: PixelFormat) -> (r: bool)
    ensures
        r == spec_must_wait(keyframe, format),
{
    keyframe || format == PixelFormat::Jpeg || format == PixelFormat::Png
}

/// Codec string used when the encoder gave none (Baseline 3.0).
pub open spec fn default_codec() -> Seq<char> {
    "avc1.42E01E"@
}

/// Decoder configuration announced before a stream's first frames: the
/// encoder's codec string (or the default), size, and the Base64 `avcC`.
pub fn h264_config(avcc: &[u8], codec: Option<&str>, width: u32, height: u32) -> (c: H264Config)
    requires
        avcc@.len() <= usize::MAX / 2,
    ensures
        c.codec@ == (match codec {
            Some(s) => s@,
            None => default_codec(),
        }),
        c.width == width,
        c.height == height,
        c.description matches Some(d) && d@ == base64_standard(avcc@),
{
    let codec_s = match codec {
        Some(s) => string_of(chars_of(s).as_slice()),
        None => string_of(chars_of("avc1.42E01E").as_slice()),
    };
    H264Config { codec: codec_s, width, height, description: Some(encode_standard(avcc)) }
}

/// Deltas are never waited for: dropping one under backpressure is allowed,
/// a keyframe or still image is always given a chance.
pub proof fn lemma_only_deltas_dropped(keyframe: bool, format: PixelFormat)
    ensures
        !spec_must_wait(keyframe, format) ==> !keyframe && format != PixelFormat::Jpeg && format != PixelFormat::Png,
{
}

} // verus!
