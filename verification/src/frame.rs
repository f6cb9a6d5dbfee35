//! Binary wire format of the video channel.
//!
//! JPEG and PNG frames travel as raw image bytes; the client sniffs their magic
//! bytes. H.264 samples are framed as
//! `[0]=0x01 type · [1]=flags (key=1) · [2..10]=pts_us big-endian i64 ·
//! [10..14]=payload length big-endian u32 · AVCC payload`.

use vstd::prelude::*;

verus! {

/// Header size of an H.264 sample packet.
pub const H264_HEADER_LEN: usize = 14;

/// Older name of [`H264_HEADER_LEN`].
pub const FRAME_HEADER_LEN: usize = 14;

/// Wire type byte of H.264 samples (the client checks it first).
pub const H264_TYPE_BYTE: u8 = 1;

/// Frame type byte of framed packets.
#[derive(Debug, Clone, Copy, PartialEq, Eq, Structural)]
pub enum FrameType {
    /// H.264 sample packet.
    H264,
}

impl FrameType {
    /// Recognises the type byte of a framed packet.
    pub fn from_u8(v: u8) -> (r: Option<FrameType>)
        ensures
            r == (if v == 1 { Some(FrameType::H264) } else { None::<FrameType> }),
    {
        if v == 1 {
            Some(FrameType::H264)
        } else {
            None
        }
    }
}

/// Header of one H.264 sample packet.
#[derive(Debug, Clone, Copy, PartialEq, Eq, Structural)]
pub struct H264Header {
    pub keyframe: bool,
    pub pts_us: i64,
    pub payload_len: u32,
}

/// Why a buffer is not an H.264 sample packet.
#[derive(Debug, Clone, Copy, PartialEq, Eq, Structural)]
pub enum FrameError {
    /// Fewer than [`H264_HEADER_LEN`] bytes.
    TruncatedHeader,
    /// First byte is not the H.264 type byte.
    UnknownType(u8),
    /// Payload length does not match the header.
    LengthMismatch,
}

/// Big-endian bytes of a `u32`.
pub open spec fn be_u32(x: u32) -> Seq<u8> {
    seq![(x >> 24u32) as u8, (x >> 16u32) as u8, (x >> 8u32) as u8, x as u8]
}

/// Big-endian bytes of a `u64`.
pub open spec fn be_u64(x: u64) -> Seq<u8> {
    seq![
        (x >> 56u64) as u8,
        (x >> 48u64) as u8,
        (x >> 40u64) as u8,
        (x >> 32u64) as u8,
        (x >> 24u64) as u8,
        (x >> 16u64) as u8,
        (x >> 8u64) as u8,
        x as u8,
    ]
}

/// The `u32` whose big-endian bytes are `s[0..4]`.
pub open spec fn u32_of_be(s: Seq<u8>) -> u32 {
    ((s[0] as u32) << 24u32) | ((s[1] as u32) << 16u32) | ((s[2] as u32) << 8u32) | (s[3] as u32)
}

/// The `u64` whose big-endian bytes are `s[0..8]`.
pub open spec fn u64_of_be(s: Seq<u8>) -> u64 {
    ((s[0] as u64) << 56u64) | ((s[1] as u64) << 48u64) | ((s[2] as u64) << 40u64) | ((
    s[3] as u64) << 32u64) | ((s[4] as u64) << 24u64) | ((s[5] as u64) << 16u64) | ((s[6] as u64)
        << 8u64) | (s[7] as u64)
}

/// Wire bytes of a header.
pub open spec fn header_bytes(h: H264Header) -> Seq<u8> {
    seq![H264_TYPE_BYTE, if h.keyframe { 1u8 } else { 0u8 }] + be_u64(h.pts_us as u64) + be_u32(
        h.payload_len,
    )
}

/// What decoding the start of `buf` gives.
pub open spec fn decode_header(buf: Seq<u8>) -> Result<H264Header, FrameError> {
    if buf.len() < H264_HEADER_LEN {
        Err(FrameError::TruncatedHeader)
    } else if buf[0] != H264_TYPE_BYTE {
        Err(FrameError::UnknownType(buf[0]))
    } else {
        Ok(
            H264Header {
                keyframe: buf[1] & 1u8 == 1u8,
                pts_us: u64_of_be(buf.subrange(2, 10)) as i64,
                payload_len: u32_of_be(buf.subrange(10, 14)),
            },
        )
    }
}

/// Wire bytes of a whole H.264 sample packet.
pub open spec fn packet_bytes(keyframe: bool, pts_us: i64, payload: Seq<u8>) -> Seq<u8> {
    header_bytes(H264Header { keyframe, pts_us, payload_len: payload.len() as u32 }) + payload
}

proof fn lemma_u32_roundtrip(x: u32)
    ensures
        u32_of_be(be_u32(x)) == x,
{
    let b0 = (x >> 24u32) as u8;
    let b1 = (x >> 16u32) as u8;
    let b2 = (x >> 8u32) as u8;
    let b3 = x as u8;
    assert(((b0 as u32) << 24u32) | ((b1 as u32) << 16u32) | ((b2 as u32) << 8u32) | (b3 as u32)
        == x) by (bit_vector)
        requires
            b0 == (x >> 24u32) as u8,
            b1 == (x >> 16u32) as u8,
            b2 == (x >> 8u32) as u8,
            b3 == x as u8,
    ;
}

proof fn lemma_u64_roundtrip(x: u64)
    ensures
        u64_of_be(be_u64(x)) == x,
{
    let b0 = (x >> 56u64) as u8;
    let b1 = (x >> 48u64) as u8;
    let b2 = (x >> 40u64) as u8;
    let b3 = (x >> 32u64) as u8;
    let b4 = (x >> 24u64) as u8;
    let b5 = (x >> 16u64) as u8;
    let b6 = (x >> 8u64) as u8;
    let b7 = x as u8;
    assert(((b0 as u64) << 56u64) | ((b1 as u64) << 48u64) | ((b2 as u64) << 40u64) | ((
    b3 as u64) << 32u64) | ((b4 as u64) << 24u64) | ((b5 as u64) << 16u64) | ((b6 as u64)
        << 8u64) | (b7 as u64) == x) by (bit_vector)
        requires
            b0 == (x >> 56u64) as u8,
            b1 == (x >> 48u64) as u8,
            b2 == (x >> 40u64) as u8,
            b3 == (x >> 32u64) as u8,
            b4 == (x >> 24u64) as u8,
            b5 == (x >> 16u64) as u8,
            b6 == (x >> 8u64) as u8,
            b7 == x as u8,
    ;
}

proof fn lemma_i64_u64_roundtrip(x: i64)
    ensures
        (x as u64) as i64 == x,
{
    assert((x as u64) as i64 == x) by (bit_vector);
}

impl H264Header {
    /// The 14 header bytes.
    pub fn encode(&self) -> (buf: [u8; 14])
        ensures
            buf@ == header_bytes(*self),
    {
        let p = self.pts_us as u64;
        let n = self.payload_len;
        let flag: u8 = if self.keyframe { 1 } else { 0 };
        let buf: [u8; 14] = [
            H264_TYPE_BYTE,
            flag,
            (p >> 56u64) as u8,
            (p >> 48u64) as u8,
            (p >> 40u64) as u8,
            (p >> 32u64) as u8,
            (p >> 24u64) as u8,
            (p >> 16u64) as u8,
            (p >> 8u64) as u8,
            p as u8,
            (n >> 24u32) as u8,
            (n >> 16u32) as u8,
            (n >> 8u32) as u8,
            n as u8,
        ];
        assert(buf@ =~= header_bytes(*self));
        buf
    }

    /// Reads the header at the start of `buf`.
    pub fn decode(buf: &[u8]) -> (r: Result<H264Header, FrameError>)
        ensures
            r == decode_header(buf@),
    {
        if buf.len() < H264_HEADER_LEN {
            return Err(FrameError::TruncatedHeader);
        }
        if buf[0] != H264_TYPE_BYTE {
            return Err(FrameError::UnknownType(buf[0]));
        }
        let keyframe = (buf[1] & 1u8) == 1u8;
        let p: u64 = ((buf[2] as u64) << 56u64) | ((buf[3] as u64) << 48u64) | ((buf[4] as u64)
            << 40u64) | ((buf[5] as u64) << 32u64) | ((buf[6] as u64) << 24u64) | ((buf[7] as u64)
            << 16u64) | ((buf[8] as u64) << 8u64) | (buf[9] as u64);
        let n: u32 = ((buf[10] as u32) << 24u32) | ((buf[11] as u32) << 16u32) | ((buf[12] as u32)
            << 8u32) | (buf[13] as u32);
        proof {
            let s = buf@;
            assert(s.subrange(2, 10)[0] == s[2]);
            assert(s.subrange(2, 10)[7] == s[9]);
            assert(s.subrange(10, 14)[0] == s[10]);
        }
        Ok(H264Header { keyframe, pts_us: p as i64, payload_len: n })
    }

    /// A whole H.264 sample packet: header followed by the AVCC access unit.
    pub fn pack(keyframe: bool, pts_us: i64, payload: &[u8]) -> (out: Vec<u8>)
        ensures
            out@ == packet_bytes(keyframe, pts_us, payload@),
    {
        let header = H264Header { keyframe, pts_us, payload_len: payload.len() as u32 };
        let bytes = header.encode();
        let mut out: Vec<u8> = Vec::new();
        let mut i: usize = 0;
        while i < 14
            invariant
                0 <= i <= 14,
                bytes@.len() == 14,
                out@ == bytes@.subrange(0, i as int),
            decreases 14 - i,
        {
            out.push(bytes[i]);
            i = i + 1;
            assert(out@ =~= bytes@.subrange(0, i as int));
        }
        let mut j: usize = 0;
        while j < payload.len()
            invariant
                0 <= j <= payload@.len(),
                bytes@.len() == 14,
                out@ == bytes@ + payload@.subrange(0, j as int),
            decreases payload@.len() - j,
        {
            out.push(payload[j]);
            j = j + 1;
            assert(out@ =~= bytes@ + payload@.subrange(0, j as int));
        }
        assert(payload@.subrange(0, payload@.len() as int) =~= payload@);
        out
    }
}

/// Decoding the bytes of a header gives the header back.
pub proof fn lemma_header_roundtrip(h: H264Header)
    ensures
        decode_header(header_bytes(h)) == Ok::<H264Header, FrameError>(h),
{
    let s = header_bytes(h);
    lemma_u64_roundtrip(h.pts_us as u64);
    lemma_u32_roundtrip(h.payload_len);
    lemma_i64_u64_roundtrip(h.pts_us);
    assert(s.subrange(2, 10) =~= be_u64(h.pts_us as u64));
    assert(s.subrange(10, 14) =~= be_u32(h.payload_len));
    let f: u8 = if h.keyframe { 1u8 } else { 0u8 };
    assert(f & 1u8 == 1u8 <==> f == 1u8) by (bit_vector)
        requires
            f == 0u8 || f == 1u8,
    ;
}

/// A packed sample decodes to its flags, timestamp and payload length, and the
/// payload follows the header unchanged.
pub proof fn lemma_packet_roundtrip(keyframe: bool, pts_us: i64, payload: Seq<u8>)
    ensures
        decode_header(packet_bytes(keyframe, pts_us, payload)) == Ok::<H264Header, FrameError>(
            H264Header { keyframe, pts_us, payload_len: payload.len() as u32 },
        ),
        packet_bytes(keyframe, pts_us, payload).subrange(
            H264_HEADER_LEN as int,
            packet_bytes(keyframe, pts_us, payload).len() as int,
        ) == payload,
        packet_bytes(keyframe, pts_us, payload).len() == H264_HEADER_LEN + payload.len(),
{
    let h = H264Header { keyframe, pts_us, payload_len: payload.len() as u32 };
    lemma_header_roundtrip(h);
    let p = packet_bytes(keyframe, pts_us, payload);
    let hb = header_bytes(h);
    assert(hb.len() == 14);
    assert(p.subrange(0, 14) =~= hb);
    assert(p.subrange(14, p.len() as int) =~= payload);
    assert(decode_header(p) == decode_header(hb)) by {
        assert(p.subrange(2, 10) =~= hb.subrange(2, 10));
        assert(p.subrange(10, 14) =~= hb.subrange(10, 14));
    }
}

} // verus!

verus! {

/// Encoder failure.
#[derive(Debug, Clone)]
pub enum EncodeError {
    Unsupported,
    Other(String),
}

/// JPEG frames are sent raw; the client recognises `FF D8`.
pub fn pack_jpeg_frame(pts_us: i64, jpeg: &[u8]) -> (out: Vec<u8>)
    ensures
        out@ == jpeg@,
{
    let _ = pts_us;
    let mut out: Vec<u8> = Vec::new();
    crate::h264::extend_bytes(&mut out, jpeg);
    assert(out@ =~= jpeg@);
    out
}

/// PNG frames are sent raw; the client recognises `89 50 4E 47`.
pub fn pack_png_frame(pts_us: i64, png: &[u8]) -> (out: Vec<u8>)
    ensures
        out@ == png@,
{
    let _ = pts_us;
    let mut out: Vec<u8> = Vec::new();
    crate::h264::extend_bytes(&mut out, png);
    assert(out@ =~= png@);
    out
}

/// H.264 sample packet: header then the AVCC access unit.
pub fn pack_h264_frame(pts_us: i64, keyframe: bool, au: &[u8]) -> (out: Vec<u8>)
    ensures
        out@ == packet_bytes(keyframe, pts_us, au@),
{
    H264Header::pack(keyframe, pts_us, au)
}

/// A raw JPEG never starts with the H.264 type byte, so the client can tell
/// the two apart by the first byte.
pub proof fn lemma_jpeg_not_h264(jpeg: Seq<u8>)
    requires
        jpeg.len() >= 2,
        jpeg[0] == 0xFFu8,
        jpeg[1] == 0xD8u8,
    ensures
        jpeg[0] != H264_TYPE_BYTE,
        decode_header(jpeg) is Err,
{
}

} // verus!
