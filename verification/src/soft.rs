//! Software H.264 (OpenH264) for browsers: RGBA frames in, AVCC access units
//! out, with the `avcC` record sent once per SPS/PPS.
//!
//! The encoder object itself is configured by the host (its frame-rate
//! setting is a float); the library owns it from then on, asks it for NAL
//! units, assembles the access unit and keeps the parameter-set state.

use vstd::prelude::*;

use openh264::encoder::{Encoder, FrameType};
use openh264::formats::{RgbaSliceU8, YUVBuffer, YUVSource};
use openh264::Timestamp;

use crate::frame::be_u32;
use crate::h264::{
    avcc_record, avcc_unit, build_avcc, codec_of_sps, codec_string_from_sps, extend_bytes,
    nal_type, push_be_u32, strip_start_code, vcl_avcc, without_start_code,
};
use crate::text::{chars_of, dec, dec_chars, push_chars, push_str_chars, string_of};

verus! {

#[verifier::external_type_specification]
#[verifier::external_body]
pub struct ExEncoder(Encoder);

#[verifier::external_type_specification]
#[verifier::external_body]
pub struct ExOpenH264Error(openh264::Error);

/// Software encoder failure.
#[derive(Debug)]
pub enum H264Error {
    /// OpenH264 failed, or the input was unusable (message).
    OpenH264(String),
    /// The encoder produced no picture for the frame.
    Empty,
}

impl H264Error {
    /// The error's message.
    pub fn message(&self) -> (r: String)
        ensures
            r@ == (match self {
                H264Error::OpenH264(m) => "openh264: "@ + m@,
                H264Error::Empty => "no NAL data"@,
            }),
    {
        match self {
            H264Error::OpenH264(m) => {
                let mut out = chars_of("openh264: ");
                push_str_chars(&mut out, m.as_str());
                string_of(out.as_slice())
            },
            H264Error::Empty => string_of(chars_of("no NAL data").as_slice()),
        }
    }
}

/// Kind of an encoded frame as OpenH264 reports it.
#[derive(Debug, Clone, Copy, PartialEq, Eq, Structural)]
pub enum FrameKind {
    Invalid,
    Idr,
    I,
    P,
    Skip,
    IpMixed,
}

/// Raw output of one encoder call: frame kind, number of layers, and the
/// NAL units of all layers in order (as OpenH264 hands them out).
pub struct EncoderOutput {
    pub kind: FrameKind,
    pub layers: usize,
    pub nals: Vec<Vec<u8>>,
}

/// A planar 4:2:0 picture: the Y plane (`width`×`height` bytes), then the U
/// and the V plane (a quarter of that each).
pub struct YuvFrame {
    pub data: Vec<u8>,
    pub width: usize,
    pub height: usize,
}

/// The 4:2:0 planes that OpenH264 computes from an RGBA picture of `w`×`h`
/// pixels, Y then U then V.
pub uninterp spec fn yuv420_of(rgba: Seq<u8>, w: usize, h: usize) -> Seq<u8>;

/// `openh264::formats::YUVBuffer::from_rgb_source` on an `RgbaSliceU8` of
/// `w`×`h` pixels, its three planes copied out in order. The planes are the
/// named conversion of the pixels, and take `3·w·h/2` bytes (the buffer that
/// `YUVBuffer::new` allocates). The even sides and the exact length that
/// `requires` asks for are what the conversion asserts.
#[verifier::external_body]
fn yuv_from_rgba(rgba: &[u8], w: usize, h: usize) -> (y: YuvFrame)
    requires
        rgba@.len() == w * h * 4,
        w % 2 == 0,
        h % 2 == 0,
    ensures
        y.data@ == yuv420_of(rgba@, w, h),
        y.data@.len() == 3 * (w * h) / 2,
        y.width == w,
        y.height == h,
{
    let b = YUVBuffer::from_rgb_source(RgbaSliceU8::new(rgba, (w, h)));
    let mut data = b.y().to_vec();
    data.extend_from_slice(b.u());
    data.extend_from_slice(b.v());
    YuvFrame { data, width: w, height: h }
}

/// `openh264::encoder::Encoder::force_intra_frame`: the next frame is an
/// intra frame. Its effect lies inside the encoder and is not stated.
#[verifier::external_body]
fn force_intra_frame(enc: &mut Encoder) {
    enc.force_intra_frame();
}

/// One encoder call's output as the bitstream hands it out: the frame kind
/// and, per layer, its NAL units.
pub(crate) struct RawBitstream {
    pub kind: FrameKind,
    pub layers: Vec<Option<Vec<Option<Vec<u8>>>>>,
}

/// `openh264::encoder::Encoder::encode_at` on the picture `yuv` (put into a
/// `YUVBuffer` by `YUVBuffer::from_vec`) at `ts_ms` milliseconds, with the
/// bitstream's frame type, layers (`layer(i)` for each index below
/// `num_layers`) and NAL units (`nal_unit(n)` below `nal_count`) copied out
/// one for one. What the encoder produces depends on its internal state and
/// is not stated. `from_vec` asserts even sides and the planes' length, and
/// `encode_at` panics on a timestamp beyond `i64`: `requires` leaves those
/// inputs out.
#[verifier::external_body]
fn encode_frame(enc: &mut Encoder, yuv: &YuvFrame, ts_ms: u64) -> (r: Result<RawBitstream, openh264::Error>)
    requires
        ts_ms <= i64::MAX,
        yuv.width % 2 == 0,
        yuv.height % 2 == 0,
        3 * (yuv.width * yuv.height) <= usize::MAX,
        yuv.data@.len() == 3 * (yuv.width * yuv.height) / 2,
{
    let buf = YUVBuffer::from_vec(yuv.data.clone(), yuv.width, yuv.height);
    let bs = enc.encode_at(&buf, Timestamp::from_millis(ts_ms))?;
    let kind = match bs.frame_type() {
        FrameType::Invalid => FrameKind::Invalid,
        FrameType::IDR => FrameKind::Idr,
        FrameType::I => FrameKind::I,
        FrameType::P => FrameKind::P,
        FrameType::Skip => FrameKind::Skip,
        FrameType::IPMixed => FrameKind::IpMixed,
    };
    let layers = (0..bs.num_layers()).map(|i| bs.layer(i).map(|l| (0..l.nal_count()).map(|n| l.nal_unit(n).map(<[u8]>::to_vec)).collect()));
    Ok(RawBitstream { kind, layers: layers.collect() })
}

/// The units present in a layer's list, in order.
pub open spec fn units_of(us: Seq<Option<Vec<u8>>>) -> Seq<Seq<u8>>
    decreases us.len(),
{
    if us.len() == 0 {
        Seq::empty()
    } else {
        let init = units_of(us.drop_last());
        match us.last() {
            Some(u) => init.push(u@),
            None => init,
        }
    }
}

/// The units of all present layers, layer by layer.
pub open spec fn layers_units(ls: Seq<Option<Vec<Option<Vec<u8>>>>>) -> Seq<Seq<u8>>
    decreases ls.len(),
{
    if ls.len() == 0 {
        Seq::empty()
    } else {
        layers_units(ls.drop_last()) + match ls.last() {
            Some(l) => units_of(l@),
            None => Seq::empty(),
        }
    }
}

/// The encoder output of a bitstream: its kind, layer count and all NAL
/// units in order.
fn flatten_bitstream(raw: &RawBitstream) -> (out: EncoderOutput)
    ensures
        out.kind == raw.kind,
        out.layers == raw.layers@.len(),
        out.nals@.map_values(|n: Vec<u8>| n@) == layers_units(raw.layers@),
{
    let mut nals: Vec<Vec<u8>> = Vec::new();
    let mut i: usize = 0;
    assert(raw.layers@.take(0) =~= Seq::<Option<Vec<Option<Vec<u8>>>>>::empty());
    while i < raw.layers.len()
        invariant
            i <= raw.layers@.len(),
            nals@.map_values(|n: Vec<u8>| n@) == layers_units(raw.layers@.take(i as int)),
        decreases raw.layers@.len() - i,
    {
        let ghost base = nals@.map_values(|n: Vec<u8>| n@);
        assert(raw.layers@.take(i as int + 1).drop_last() =~= raw.layers@.take(i as int));
        match &raw.layers[i] {
            Some(l) => {
                let mut j: usize = 0;
                assert(l@.take(0) =~= Seq::<Option<Vec<u8>>>::empty());
                while j < l.len()
                    invariant
                        j <= l@.len(),
                        nals@.map_values(|n: Vec<u8>| n@) == base + units_of(l@.take(j as int)),
                    decreases l@.len() - j,
                {
                    assert(l@.take(j as int + 1).drop_last() =~= l@.take(j as int));
                    let ghost before = nals@.map_values(|n: Vec<u8>| n@);
                    match &l[j] {
                        Some(u) => {
                            let mut c: Vec<u8> = Vec::new();
                            crate::h264::extend_bytes(&mut c, u.as_slice());
                            assert(c@ =~= u@);
                            nals.push(c);
                            assert(nals@.map_values(|n: Vec<u8>| n@) =~= before.push(u@));
                        },
                        None => {},
                    }
                    j += 1;
                }
                assert(l@.take(l@.len() as int) =~= l@);
            },
            None => {
                assert(base + Seq::<Seq<u8>>::empty() =~= base);
            },
        }
        i += 1;
    }
    assert(raw.layers@.take(raw.layers@.len() as int) =~= raw.layers@);
    EncoderOutput { kind: raw.kind, layers: raw.layers.len(), nals }
}

/// Message of an OpenH264 error (its `Display`). Not stated.
#[verifier::external_body]
fn openh264_error_text(e: &openh264::Error) -> (r: String) {
    e.to_string()
}

/// Encoder settings derived from the requested ones.
#[derive(Debug, Clone, Copy, PartialEq, Eq, Structural)]
pub struct SoftParams {
    /// Even width, at least 2.
    pub width: u32,
    /// Even height, at least 2.
    pub height: u32,
    /// 10 to 60.
    pub fps: u32,
    /// 1.5 to 12 Mbit/s.
    pub bitrate_bps: u32,
    /// Keyframe interval in frames (about one second): 15 to 60.
    pub gop: u32,
}

/// `x` raised to 2 and rounded down to even.
pub open spec fn even_at_least_2(x: u32) -> u32 {
    if x < 2 {
        2
    } else {
        (x - x % 2) as u32
    }
}

pub open spec fn clamp(v: u32, lo: u32, hi: u32) -> u32 {
    if v < lo {
        lo
    } else if v > hi {
        hi
    } else {
        v
    }
}

fn even2(x: u32) -> (r: u32)
    ensures
        r == even_at_least_2(x),
{
    if x < 2 {
        2
    } else {
        x - x % 2
    }
}

fn clamp_exec(v: u32, lo: u32, hi: u32) -> (r: u32)
    ensures
        r == clamp(v, lo, hi),
{
    if v < lo {
        lo
    } else if v > hi {
        hi
    } else {
        v
    }
}

/// Settings of a software encoder for a `width`×`height` stream at `fps`
/// with `bitrate_bps`: even sides, a real-time frame rate, a bitrate that
/// keeps UI text legible without exploding encode time, about one keyframe
/// per second.
pub fn soft_params(width: u32, height: u32, fps: u32, bitrate_bps: u32) -> (p: SoftParams)
    ensures
        p.width == even_at_least_2(width),
        p.height == even_at_least_2(height),
        p.fps == clamp(fps, 10, 60),
        p.bitrate_bps == clamp(bitrate_bps, 1_500_000, 12_000_000),
        p.gop == clamp(clamp(fps, 10, 60), 15, 60),
{
    let f = clamp_exec(fps, 10, 60);
    SoftParams {
        width: even2(width),
        height: even2(height),
        fps: f,
        bitrate_bps: clamp_exec(bitrate_bps, 1_500_000, 12_000_000),
        gop: clamp_exec(f, 15, 60),
    }
}

/// The units of an encoder output without start codes, empty ones dropped.
pub open spec fn stripped(nals: Seq<Seq<u8>>) -> Seq<Seq<u8>>
    decreases nals.len(),
{
    if nals.len() == 0 {
        Seq::empty()
    } else {
        let u = without_start_code(nals.last());
        let r = stripped(nals.drop_last());
        if u.len() == 0 {
            r
        } else {
            r.push(u)
        }
    }
}

/// SPS and PPS units (types 7 and 8) of a list, in order.
pub open spec fn param_units(units: Seq<Seq<u8>>) -> Seq<Seq<u8>>
    decreases units.len(),
{
    if units.len() == 0 {
        Seq::empty()
    } else {
        let u = units.last();
        let r = param_units(units.drop_last());
        if nal_type(u) == 7 || nal_type(u) == 8 {
            r.push(u)
        } else {
            r
        }
    }
}

/// Some unit is an IDR slice (type 5).
pub open spec fn has_idr(units: Seq<Seq<u8>>) -> bool {
    exists|i: int| 0 <= i < units.len() && nal_type(#[trigger] units[i]) == 5
}

/// An access unit: its VCL units in AVCC form, its parameter sets, and
/// whether it is a keyframe.
pub struct AccessUnit {
    pub vcl_avcc: Vec<u8>,
    pub params: Vec<Vec<u8>>,
    pub keyframe: bool,
}

/// The access unit of an encoder output: nothing for a skipped frame;
/// otherwise the VCL units (types 1 and 5), the parameter sets, and a
/// keyframe flag that is set by an intra frame type or by any IDR unit.
pub open spec fn spec_access_unit(kind: FrameKind, layers: usize, nals: Seq<Seq<u8>>) -> (
    Seq<u8>,
    Seq<Seq<u8>>,
    bool,
) {
    if kind == FrameKind::Skip || layers == 0 {
        (Seq::empty(), Seq::empty(), false)
    } else {
        let u = stripped(nals);
        (vcl_avcc(u), param_units(u), kind == FrameKind::Idr || kind == FrameKind::I || has_idr(u))
    }
}

/// Builds the access unit of an encoder output.
pub fn assemble_access_unit(out: &EncoderOutput) -> (au: AccessUnit)
    ensures
        (au.vcl_avcc@, au.params@.map_values(|p: Vec<u8>| p@), au.keyframe) == spec_access_unit(
            out.kind,
            out.layers,
            out.nals@.map_values(|n: Vec<u8>| n@),
        ),
{
    let ghost ns = out.nals@.map_values(|n: Vec<u8>| n@);
    if out.kind == FrameKind::Skip || out.layers == 0 {
        let au = AccessUnit { vcl_avcc: Vec::new(), params: Vec::new(), keyframe: false };
        assert(au.params@.map_values(|p: Vec<u8>| p@) =~= Seq::<Seq<u8>>::empty());
        return au;
    }
    let mut keyframe = out.kind == FrameKind::Idr || out.kind == FrameKind::I;
    let mut vcl: Vec<u8> = Vec::new();
    let mut params: Vec<Vec<u8>> = Vec::new();
    let mut i: usize = 0;
    while i < out.nals.len()
        invariant
            i <= out.nals@.len(),
            ns == out.nals@.map_values(|n: Vec<u8>| n@),
            vcl@ == vcl_avcc(stripped(ns.take(i as int))),
            params@.map_values(|p: Vec<u8>| p@) == param_units(stripped(ns.take(i as int))),
            keyframe == (out.kind == FrameKind::Idr || out.kind == FrameKind::I || has_idr(
                stripped(ns.take(i as int)),
            )),
        decreases out.nals@.len() - i,
    {
        let raw = out.nals[i].as_slice();
        let nal = strip_start_code(raw);
        let ghost prev = stripped(ns.take(i as int));
        proof {
            assert(ns.take(i as int + 1).drop_last() =~= ns.take(i as int));
            assert(ns.take(i as int + 1).last() == raw@);
        }
        if nal.len() > 0 {
            let ghost now = prev.push(nal@);
            assert(stripped(ns.take(i as int + 1)) == now);
            assert(now.drop_last() =~= prev);
            let t = nal[0] & 0x1f;
            if t == 7 || t == 8 {
                let mut copy: Vec<u8> = Vec::new();
                extend_bytes(&mut copy, nal);
                let ghost pb = params@.map_values(|p: Vec<u8>| p@);
                params.push(copy);
                assert(params@.map_values(|p: Vec<u8>| p@) =~= pb.push(nal@));
            } else if t == 5 || t == 1 {
                if t == 5 {
                    keyframe = true;
                }
                push_be_u32(&mut vcl, nal.len() as u32);
                extend_bytes(&mut vcl, nal);
                assert(vcl@ =~= vcl_avcc(prev) + avcc_unit(nal@));
            }
            proof {
                if nal_type(nal@) == 5 {
                    assert(now[now.len() - 1] == nal@);
                }
                if has_idr(now) {
                    let k = choose|k: int| 0 <= k < now.len() && nal_type(#[trigger] now[k]) == 5;
                    if k < prev.len() {
                        assert(now[k] == prev[k]);
                    }
                }
                if has_idr(prev) {
                    let k = choose|k: int| 0 <= k < prev.len() && nal_type(#[trigger] prev[k]) == 5;
                    assert(now[k] == prev[k]);
                }
            }
        } else {
            assert(stripped(ns.take(i as int + 1)) == prev);
        }
        i += 1;
    }
    assert(ns.take(out.nals@.len() as int) =~= ns);
    AccessUnit { vcl_avcc: vcl, params, keyframe }
}

/// One encoded frame for the browser.
pub struct H264Encoded {
    pub avcc_au: Vec<u8>,
    pub keyframe: bool,
    pub pts_us: i64,
    /// `avcC` record, when the parameter sets first appear or change.
    pub avcc_config: Option<Vec<u8>>,
    pub codec: String,
    pub width: u32,
    pub height: u32,
}

/// Model of the encoder's own state.
pub struct SoftView {
    pub width: u32,
    pub height: u32,
    pub bitrate_bps: u32,
    pub frame_idx: u64,
    pub sps: Option<Seq<u8>>,
    pub pps: Option<Seq<u8>>,
    /// The next frame is forced to be an intra frame.
    pub force_key: bool,
    /// The `avcC` of the current parameter sets went out.
    pub config_sent: bool,
    /// What was handed to OpenH264 so far, in order.
    pub calls: Seq<EncoderCall>,
    /// The access units that OpenH264's pictures gave so far, in order
    /// (VCL units in AVCC form, parameter sets, keyframe flag).
    pub units: Seq<(Seq<u8>, Seq<Seq<u8>>, bool)>,
}

/// A request handed to OpenH264.
pub enum EncoderCall {
    /// `force_intra_frame`: the next picture is to be an intra frame.
    ForceIntra,
    /// `encode_at` on a 4:2:0 picture at a timestamp in milliseconds.
    Encode { yuv: Seq<u8>, width: usize, height: usize, ts_ms: u64 },
}

pub open spec fn opt_bytes(o: Option<Vec<u8>>) -> Option<Seq<u8>> {
    match o {
        Some(v) => Some(v@),
        None => None,
    }
}

/// Parameter-set state after the parameter sets of one access unit:
/// (SPS, PPS, config sent, a set changed).
pub open spec fn fold_params(
    sps: Option<Seq<u8>>,
    pps: Option<Seq<u8>>,
    sent: bool,
    params: Seq<Seq<u8>>,
) -> (Option<Seq<u8>>, Option<Seq<u8>>, bool, bool)
    decreases params.len(),
{
    if params.len() == 0 {
        (sps, pps, sent, false)
    } else {
        let (s, p, c, g) = fold_params(sps, pps, sent, params.drop_last());
        let n = params.last();
        if n.len() == 0 {
            (s, p, c, g)
        } else if nal_type(n) == 7 && s != Some(n) {
            (Some(n), p, false, true)
        } else if nal_type(n) == 8 && p != Some(n) {
            (s, Some(n), false, true)
        } else {
            (s, p, c, g)
        }
    }
}

/// Codec string of the stream (from the SPS, else Main profile level 3.0).
pub open spec fn stream_codec(sps: Option<Seq<u8>>) -> Seq<char> {
    match sps {
        Some(s) => match codec_of_sps(s) {
            Some(c) => c,
            None => "avc1.4D401E"@,
        },
        None => "avc1.4D401E"@,
    }
}

/// An access unit by its VCL bytes, parameter sets and keyframe flag.
pub open spec fn unit_view(au: AccessUnit) -> (Seq<u8>, Seq<Seq<u8>>, bool) {
    (au.vcl_avcc@, au.params@.map_values(|p: Vec<u8>| p@), au.keyframe)
}

/// The access unit of some bitstream that OpenH264 could hand out.
pub open spec fn from_bitstream(u: (Seq<u8>, Seq<Seq<u8>>, bool)) -> bool {
    exists|kind: FrameKind, ls: Seq<Option<Vec<Option<Vec<u8>>>>>|
        u == #[trigger] spec_access_unit(kind, ls.len() as usize, layers_units(ls))
}

/// What the encoding attempts give from state `s`, where `once` is what
/// one attempt hands to OpenH264: a failed first call is its error; a
/// first unit that is not retried is finished; when a keyframe was asked
/// for (`may_retry`) and the first unit is non-empty but not a key, a
/// second attempt follows, and its error or its finished unit is the
/// result. Each unit OpenH264 gave is recorded in `units`.
pub open spec fn attempts_outcome(
    s: SoftView,
    once: Seq<EncoderCall>,
    may_retry: bool,
    pts_us: i64,
    r: Result<H264Encoded, H264Error>,
    fin: SoftView,
) -> bool {
    let n0 = s.units.len() as int;
    if fin.units.len() == n0 {
        fin == (SoftView { calls: s.calls + once, ..s }) && (r matches Err(H264Error::OpenH264(_)))
    } else {
        let u1 = fin.units[n0];
        let t1 = SoftView { calls: s.calls + once, units: s.units.push(u1), ..s };
        if !(may_retry && !u1.2 && u1.0.len() > 0) {
            frame_outcome(t1, u1, pts_us, r, fin)
        } else if fin.units.len() == n0 + 1 {
            fin == (SoftView { calls: t1.calls + once, ..t1 }) && (r matches Err(H264Error::OpenH264(_)))
        } else {
            let u2 = fin.units[n0 + 1];
            frame_outcome(SoftView { calls: t1.calls + once, units: t1.units.push(u2), ..t1 }, u2, pts_us, r, fin)
        }
    }
}

/// What finishing a frame from access unit `u` in state `s` gives: an empty
/// unit is `Empty` with the state unchanged; otherwise the parameter sets
/// are recorded, the `avcC` goes with the frame when it was not sent yet or
/// a set changed (and both are known), the keyframe request is cleared, and
/// the frame carries the unit, its keyframe flag and the stream's codec.
pub open spec fn frame_outcome(
    s: SoftView,
    u: (Seq<u8>, Seq<Seq<u8>>, bool),
    pts_us: i64,
    r: Result<H264Encoded, H264Error>,
    fin: SoftView,
) -> bool {
    if u.0.len() == 0 {
        fin == s && (r matches Err(H264Error::Empty))
    } else {
        let (sp, pp, c, g) = fold_params(s.sps, s.pps, s.config_sent, u.1);
        let send = (!c || g) && sp is Some && pp is Some;
        &&& r matches Ok(e)
        &&& e.avcc_au@ == u.0
        &&& e.keyframe == u.2
        &&& e.pts_us == pts_us
        &&& e.width == s.width
        &&& e.height == s.height
        &&& e.codec@ == stream_codec(sp)
        &&& opt_bytes(e.avcc_config) == (if send {
            Some(avcc_record(sp->0, pp->0))
        } else {
            None::<Seq<u8>>
        })
        &&& fin == (SoftView {
            sps: sp,
            pps: pp,
            config_sent: c || send,
            force_key: false,
            frame_idx: s.frame_idx.wrapping_add(1),
            ..s
        })
    }
}

/// Software H.264 encoder with its parameter-set bookkeeping.
pub struct H264SoftEncoder {
    encoder: Encoder,
    width: u32,
    height: u32,
    bitrate_bps: u32,
    frame_idx: u64,
    sps: Option<Vec<u8>>,
    pps: Option<Vec<u8>>,
    force_key: bool,
    config_sent: bool,
    calls: Ghost<Seq<EncoderCall>>,
    units: Ghost<Seq<(Seq<u8>, Seq<Seq<u8>>, bool)>>,
}

impl View for H264SoftEncoder {
    type V = SoftView;

    closed spec fn view(&self) -> SoftView {
        SoftView {
            width: self.width,
            height: self.height,
            bitrate_bps: self.bitrate_bps,
            frame_idx: self.frame_idx,
            sps: opt_bytes(self.sps),
            pps: opt_bytes(self.pps),
            force_key: self.force_key,
            config_sent: self.config_sent,
            calls: self.calls@,
            units: self.units@,
        }
    }
}

fn copy_bytes(v: &[u8]) -> (r: Vec<u8>)
    ensures
        r@ == v@,
{
    let mut out: Vec<u8> = Vec::new();
    extend_bytes(&mut out, v);
    out
}

fn same_bytes(a: &[u8], b: &[u8]) -> (r: bool)
    ensures
        r == (a@ == b@),
{
    if a.len() != b.len() {
        return false;
    }
    let mut i: usize = 0;
    while i < a.len()
        invariant
            a@.len() == b@.len(),
            i <= a@.len(),
            forall|j: int| 0 <= j < i ==> a@[j] == b@[j],
        decreases a@.len() - i,
    {
        if a[i] != b[i] {
            return false;
        }
        i += 1;
    }
    assert(a@ =~= b@);
    true
}

fn differs(cur: &Option<Vec<u8>>, n: &[u8]) -> (r: bool)
    ensures
        r == (opt_bytes(*cur) != Some(n@)),
{
    match cur {
        Some(v) => !same_bytes(v.as_slice(), n),
        None => true,
    }
}

impl H264SoftEncoder {
    /// Takes over a configured OpenH264 encoder for a stream with settings
    /// `p`. The first frame is forced to be a keyframe.
    pub fn from_encoder(encoder: Encoder, p: SoftParams) -> (e: H264SoftEncoder)
        ensures
            e@ == (SoftView {
                width: p.width,
                height: p.height,
                bitrate_bps: p.bitrate_bps,
                frame_idx: 0,
                sps: None,
                pps: None,
                force_key: true,
                config_sent: false,
                calls: Seq::empty(),
                units: Seq::empty(),
            }),
    {
        H264SoftEncoder {
            encoder,
            width: p.width,
            height: p.height,
            bitrate_bps: p.bitrate_bps,
            frame_idx: 0,
            sps: None,
            pps: None,
            force_key: true,
            config_sent: false,
            calls: Ghost(Seq::empty()),
            units: Ghost(Seq::empty()),
        }
    }

    /// Current frame size.
    pub fn dimensions(&self) -> (r: (u32, u32))
        ensures
            r == (self@.width, self@.height),
    {
        (self.width, self.height)
    }

    /// Configured bitrate.
    pub fn bitrate_bps(&self) -> (r: u32)
        ensures
            r == self@.bitrate_bps,
    {
        self.bitrate_bps
    }

    /// The next frame is a keyframe and carries the `avcC` again (browsers
    /// re-open their decoder on a window switch).
    pub fn force_keyframe(&mut self)
        ensures
            final(self)@ == (SoftView { force_key: true, config_sent: false, ..old(self)@ }),
    {
        self.force_key = true;
        self.config_sent = false;
    }

    /// Finishes a frame from its access unit: an empty unit is an error and
    /// keeps a pending keyframe request; otherwise the parameter sets are
    /// recorded, the `avcC` goes out once per change of SPS/PPS (re-sending
    /// it on every keyframe would make browsers re-open their decoder), and
    /// the frame carries the stream's codec string.
    pub fn finish_frame(&mut self, au: AccessUnit, pts_us: i64) -> (r: Result<H264Encoded, H264Error>)
        ensures
            frame_outcome(old(self)@, unit_view(au), pts_us, r, final(self)@),
    {
        if au.vcl_avcc.len() == 0 {
            return Err(H264Error::Empty);
        }
        self.force_key = false;
        let ghost ps = au.params@.map_values(|x: Vec<u8>| x@);
        let mut got_param = false;
        let mut i: usize = 0;
        while i < au.params.len()
            invariant
                i <= au.params@.len(),
                ps == au.params@.map_values(|x: Vec<u8>| x@),
                (opt_bytes(self.sps), opt_bytes(self.pps), self.config_sent, got_param) == fold_params(
                    old(self)@.sps,
                    old(self)@.pps,
                    old(self)@.config_sent,
                    ps.take(i as int),
                ),
                self.width == old(self)@.width,
                self.height == old(self)@.height,
                self.bitrate_bps == old(self)@.bitrate_bps,
                self.frame_idx == old(self)@.frame_idx,
                self.calls@ == old(self)@.calls,
                self.units@ == old(self)@.units,
                !self.force_key,
            decreases au.params@.len() - i,
        {
            let n = au.params[i].as_slice();
            proof {
                assert(ps.take(i as int + 1).drop_last() =~= ps.take(i as int));
                assert(ps.take(i as int + 1).last() == n@);
            }
            if n.len() > 0 {
                let t = n[0] & 0x1f;
                if t == 7 {
                    if differs(&self.sps, n) {
                        self.sps = Some(copy_bytes(n));
                        self.config_sent = false;
                        got_param = true;
                    }
                } else if t == 8 {
                    if differs(&self.pps, n) {
                        self.pps = Some(copy_bytes(n));
                        self.config_sent = false;
                        got_param = true;
                    }
                }
            }
            i += 1;
        }
        assert(ps.take(au.params@.len() as int) =~= ps);
        let avcc_config = if (!self.config_sent || got_param) && self.sps.is_some()
            && self.pps.is_some() {
            self.config_sent = true;
            match (&self.sps, &self.pps) {
                (Some(s), Some(p)) => Some(build_avcc(s.as_slice(), p.as_slice())),
                _ => None,
            }
        } else {
            None
        };
        let codec = match &self.sps {
            Some(s) => match codec_string_from_sps(s.as_slice()) {
                Some(c) => c,
                None => string_of(chars_of("avc1.4D401E").as_slice()),
            },
            None => string_of(chars_of("avc1.4D401E").as_slice()),
        };
        self.frame_idx = self.frame_idx.wrapping_add(1);
        Ok(
            H264Encoded {
                avcc_au: au.vcl_avcc,
                keyframe: au.keyframe,
                pts_us,
                avcc_config,
                codec,
                width: self.width,
                height: self.height,
            },
        )
    }
}


/// Message of a frame buffer that is too short.
pub open spec fn short_buffer_message(len: nat, expected: nat, w: nat, h: nat) -> Seq<char> {
    "rgba buffer too short: "@ + dec(len) + " < "@ + dec(expected) + " for "@ + dec(w) + "x"@ + dec(h)
}

/// Bytes of a `w`×`h` RGBA frame, saturating at `usize::MAX`.
pub open spec fn rgba_len(w: u32, h: u32) -> nat {
    let n = w * h * 4;
    if n > usize::MAX {
        usize::MAX as nat
    } else {
        n as nat
    }
}

fn short_buffer(len: usize, expected: usize, w: u32, h: u32) -> (e: H264Error)
    ensures
        e matches H264Error::OpenH264(m) && m@ == short_buffer_message(len as nat, expected as nat, w as nat, h as nat),
{
    let mut out = chars_of("rgba buffer too short: ");
    push_chars(&mut out, dec_chars(len as u64).as_slice());
    push_str_chars(&mut out, " < ");
    push_chars(&mut out, dec_chars(expected as u64).as_slice());
    push_str_chars(&mut out, " for ");
    push_chars(&mut out, dec_chars(w as u64).as_slice());
    push_str_chars(&mut out, "x");
    push_chars(&mut out, dec_chars(h as u64).as_slice());
    H264Error::OpenH264(string_of(out.as_slice()))
}

/// Timestamp handed to the encoder for a presentation time in microseconds:
/// whole milliseconds, 0 for a negative time.
pub open spec fn frame_ts_ms(pts_us: i64) -> u64 {
    if pts_us < 0 {
        0
    } else {
        (pts_us / 1000) as u64
    }
}

/// What one encoding attempt hands to OpenH264: an intra request when a
/// keyframe is pending, then the picture.
pub open spec fn attempt_calls(force: bool, pic: EncoderCall) -> Seq<EncoderCall> {
    if force {
        seq![EncoderCall::ForceIntra, pic]
    } else {
        seq![pic]
    }
}

impl H264SoftEncoder {
    /// Asks OpenH264 for an intra frame next.
    fn request_intra(&mut self)
        ensures
            final(self)@ == (SoftView { calls: old(self)@.calls.push(EncoderCall::ForceIntra), ..old(self)@ }),
    {
        force_intra_frame(&mut self.encoder);
        self.calls = Ghost(self.calls@.push(EncoderCall::ForceIntra));
    }

    /// One encoder call on `yuv` at `ts_ms`: the access unit of the
    /// bitstream it produced (what the encoder produces is not known here),
    /// or the encoder's error.
    fn run_encoder(&mut self, yuv: &YuvFrame, ts_ms: u64) -> (r: Result<AccessUnit, H264Error>)
        requires
            ts_ms <= i64::MAX,
            yuv.width % 2 == 0,
            yuv.height % 2 == 0,
            3 * (yuv.width * yuv.height) <= usize::MAX,
            yuv.data@.len() == 3 * (yuv.width * yuv.height) / 2,
        ensures
            r is Err ==> final(self)@ == (SoftView {
                calls: old(self)@.calls.push(
                    EncoderCall::Encode { yuv: yuv.data@, width: yuv.width, height: yuv.height, ts_ms },
                ),
                ..old(self)@
            }),
            r matches Ok(au) ==> final(self)@ == (SoftView {
                calls: old(self)@.calls.push(
                    EncoderCall::Encode { yuv: yuv.data@, width: yuv.width, height: yuv.height, ts_ms },
                ),
                units: old(self)@.units.push(unit_view(au)),
                ..old(self)@
            }),
            r matches Ok(au) ==> from_bitstream(unit_view(au)),
            r matches Err(e) ==> e is OpenH264,
    {
        let res = encode_frame(&mut self.encoder, yuv, ts_ms);
        self.calls = Ghost(
            self.calls@.push(EncoderCall::Encode { yuv: yuv.data@, width: yuv.width, height: yuv.height, ts_ms }),
        );
        match res {
            Ok(raw) => {
                let out = flatten_bitstream(&raw);
                let au = assemble_access_unit(&out);
                assert(out.nals@.map_values(|n: Vec<u8>| n@) == layers_units(raw.layers@));
                assert(raw.layers@.len() as usize == out.layers);
                assert((au.vcl_avcc@, au.params@.map_values(|p: Vec<u8>| p@), au.keyframe) == spec_access_unit(
                    raw.kind,
                    raw.layers@.len() as usize,
                    layers_units(raw.layers@),
                ));
                self.units = Ghost(self.units@.push(unit_view(au)));
                Ok(au)
            },
            Err(e) => Err(H264Error::OpenH264(openh264_error_text(&e))),
        }
    }

    /// Encodes one `width`×`height` RGBA frame (sides rounded down to even,
    /// at least 2). A buffer shorter than the frame is refused with the
    /// sizes in the message. Otherwise the first `4·w·h` bytes go to
    /// OpenH264 as a 4:2:0 picture, at the presentation time in whole
    /// milliseconds; a pending keyframe request forces an intra frame first,
    /// and once more with the same picture if the first try gives a picture
    /// that is not a key. When the encoder yields no picture, the error is
    /// `Empty` and the keyframe request stays pending.
    pub fn encode_rgba(&mut self, rgba: &[u8], width: u32, height: u32, pts_us: i64) -> (r: Result<
        H264Encoded,
        H264Error,
    >)
        ensures
            ({
                let w = even_at_least_2(width);
                let h = even_at_least_2(height);
                let expected = rgba_len(w, h);
                let pic = EncoderCall::Encode {
                    yuv: yuv420_of(rgba@.subrange(0, expected as int), w as usize, h as usize),
                    width: w as usize,
                    height: h as usize,
                    ts_ms: frame_ts_ms(pts_us),
                };
                let once = attempt_calls(old(self)@.force_key, pic);
                &&& rgba@.len() < expected || w * h * 4 > usize::MAX ==> final(self)@ == old(self)@
                    && (r matches Err(H264Error::OpenH264(m)) && m@ == short_buffer_message(
                    rgba@.len(),
                    expected,
                    w as nat,
                    h as nat,
                ))
                &&& !(rgba@.len() < expected || w * h * 4 > usize::MAX) ==> {
                    &&& attempts_outcome(
                        SoftView { width: w, height: h, ..old(self)@ },
                        once,
                        old(self)@.force_key,
                        pts_us,
                        r,
                        final(self)@,
                    )
                    &&& forall|i: int|
                        old(self)@.units.len() <= i < final(self)@.units.len() ==> from_bitstream(
                            #[trigger] final(self)@.units[i],
                        )
                }
            }),
    {
        let w32 = even2(width);
        let h32 = even2(height);
        let w = w32 as usize;
        let h = h32 as usize;
        let a: u128 = w32 as u128;
        let b: u128 = h32 as u128;
        assert(a * b <= 0xffff_ffffu128 * 0xffff_ffffu128) by (nonlinear_arith)
            requires
                a <= 0xffff_ffff,
                b <= 0xffff_ffff,
        ;
        let n: u128 = a * b * 4;
        let expected: usize = if n > usize::MAX as u128 {
            usize::MAX
        } else {
            n as usize
        };
        if rgba.len() < expected || n > usize::MAX as u128 {
            return Err(short_buffer(rgba.len(), expected, w32, h32));
        }
        self.width = w32;
        self.height = h32;
        let frame = vstd::slice::slice_subrange(rgba, 0, expected);
        assert(w % 2 == 0 && h % 2 == 0);
        let yuv = yuv_from_rgba(frame, w, h);
        let ts: u64 = if pts_us < 0 {
            0
        } else {
            (pts_us / 1000) as u64
        };
        let ghost pic = EncoderCall::Encode { yuv: yuv.data@, width: w, height: h, ts_ms: ts };
        let ghost once = attempt_calls(self.force_key, pic);
        let ghost s1 = self@;
        let ghost n0 = s1.units.len() as int;
        let need_force = self.force_key;
        if need_force {
            self.request_intra();
        }
        let res = self.run_encoder(&yuv, ts);
        assert(self@.calls =~= s1.calls + once);
        let au1 = match res {
            Ok(au) => au,
            Err(e) => {
                assert(self@ == (SoftView { calls: s1.calls + once, ..s1 }));
                return Err(e);
            },
        };
        let ghost u1 = unit_view(au1);
        let ghost t1 = SoftView { calls: s1.calls + once, units: s1.units.push(u1), ..s1 };
        assert(self@ == t1);
        assert(self@.units[n0] == u1);
        if need_force && !au1.keyframe && au1.vcl_avcc.len() > 0 {
            self.request_intra();
            let res2 = self.run_encoder(&yuv, ts);
            assert(self@.calls =~= t1.calls + once);
            let au2 = match res2 {
                Ok(au) => au,
                Err(e) => {
                    assert(self@ == (SoftView { calls: t1.calls + once, ..t1 }));
                    return Err(e);
                },
            };
            let ghost u2 = unit_view(au2);
            assert(self@ == (SoftView { calls: t1.calls + once, units: t1.units.push(u2), ..t1 }));
            assert(self@.units[n0] == u1);
            assert(self@.units[n0 + 1] == u2);
            self.finish_frame(au2, pts_us)
        } else {
            self.finish_frame(au1, pts_us)
        }
    }
}

/// Until the `avcC` has gone out (a new encoder, or after `force_keyframe`),
/// no parameter set of a frame marks it sent: the next frame whose SPS and
/// PPS are known carries it.
pub proof fn lemma_config_pending_until_sent(sps: Option<Seq<u8>>, pps: Option<Seq<u8>>, params: Seq<Seq<u8>>)
    ensures
        !fold_params(sps, pps, false, params).2,
    decreases params.len(),
{
    if params.len() > 0 {
        lemma_config_pending_until_sent(sps, pps, params.drop_last());
    }
}

/// Parameter sets equal to the ones already sent never send the `avcC`
/// again (browsers would re-open their decoder).
pub proof fn lemma_config_not_repeated(sps: Seq<u8>, pps: Seq<u8>, params: Seq<Seq<u8>>)
    requires
        forall|i: int|
            0 <= i < params.len() && #[trigger] params[i].len() > 0 ==> (nal_type(params[i]) == 7 ==> params[i]
                == sps) && (nal_type(params[i]) == 8 ==> params[i] == pps),
    ensures
        fold_params(Some(sps), Some(pps), true, params) == (Some(sps), Some(pps), true, false),
    decreases params.len(),
{
    if params.len() > 0 {
        let init = params.drop_last();
        assert forall|i: int|
            0 <= i < init.len() && #[trigger] init[i].len() > 0 implies (nal_type(init[i]) == 7 ==> init[i] == sps)
            && (nal_type(init[i]) == 8 ==> init[i] == pps) by {
            assert(init[i] == params[i]);
        }
        lemma_config_not_repeated(sps, pps, init);
        let n = params.last();
        assert(n == params[params.len() - 1]);
    }
}

} // verus!
