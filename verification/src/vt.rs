//! Hardware H.264 (VideoToolbox on macOS): the frame bookkeeping around the
//! system encoder. The host owns the compression session and hands each
//! encoded sample to `VtState::finish`, which decides what the browser gets:
//! only VCL units, a keyframe until an IDR arrived, and the `avcC` once per
//! change of parameter sets.

use vstd::prelude::*;

use crate::h264::{
    avcc_has_nal_type, avcc_record, avcc_units, build_avcc, codec_of_sps, codec_string_from_sps,
    nal_type, strip_to_vcl_avcc, vcl_avcc,
};
use crate::soft::{clamp, even_at_least_2, opt_bytes, H264Encoded, H264Error};
use crate::text::{chars_of, dec, dec_chars, push_chars, push_str_chars, string_of};

verus! {

/// Settings of a hardware session.
#[derive(Debug, Clone, Copy, PartialEq, Eq, Structural)]
pub struct VtParams {
    pub width: u32,
    pub height: u32,
    pub fps: u32,
    pub bitrate_bps: u32,
    /// Keyframe interval in frames.
    pub gop: u32,
}

/// Settings for a `width`×`height` stream: even sides, 10 to 60 fps,
/// 0.5 to 20 Mbit/s, a keyframe about every second (15 to 60 frames).
pub fn vt_params(width: u32, height: u32, fps: u32, bitrate_bps: u32) -> (p: VtParams)
    ensures
        p.width == even_at_least_2(width),
        p.height == even_at_least_2(height),
        p.fps == clamp(fps, 10, 60),
        p.bitrate_bps == clamp(bitrate_bps, 500_000, 20_000_000),
        p.gop == clamp(clamp(fps, 10, 60), 15, 60),
{
    let w = if width < 2 { 2 } else { width - width % 2 };
    let h = if height < 2 { 2 } else { height - height % 2 };
    let f = if fps < 10 { 10 } else if fps > 60 { 60 } else { fps };
    let b = if bitrate_bps < 500_000 {
        500_000
    } else if bitrate_bps > 20_000_000 {
        20_000_000
    } else {
        bitrate_bps
    };
    let g = if f < 15 { 15 } else { f };
    VtParams { width: w, height: h, fps: f, bitrate_bps: b, gop: g }
}

/// BGRA bytes of RGBA pixels (red and blue swapped; a trailing partial
/// pixel is dropped).
pub open spec fn bgra_of(rgba: Seq<u8>) -> Seq<u8> {
    Seq::new(
        ((rgba.len() / 4) * 4) as nat,
        |j: int|
            {
                let c = j % 4;
                let b = j - c;
                if c == 0 {
                    rgba[b + 2]
                } else if c == 2 {
                    rgba[b]
                } else {
                    rgba[j]
                }
            },
    )
}

/// Pixel data in the layout of the system's pixel buffers.
pub fn rgba_to_bgra(rgba: &[u8]) -> (r: Vec<u8>)
    ensures
        r@ == bgra_of(rgba@),
{
    let n = rgba.len() / 4;
    let mut out: Vec<u8> = Vec::new();
    let mut i: usize = 0;
    while i < n
        invariant
            i <= n,
            n == rgba@.len() / 4,
            out@.len() == 4 * i,
            forall|j: int| 0 <= j < out@.len() ==> out@[j] == bgra_of(rgba@)[j],
        decreases n - i,
    {
        assert(4 * i + 3 < rgba@.len()) by (nonlinear_arith)
            requires
                i < n,
                n == rgba@.len() / 4,
        ;
        assert(rgba@.len() == rgba.len());
        let b: usize = 4 * i;
        let ghost before = out@;
        out.push(rgba[b + 2]);
        out.push(rgba[b + 1]);
        out.push(rgba[b]);
        out.push(rgba[b + 3]);
        proof {
            assert forall|j: int| 0 <= j < out@.len() implies out@[j] == bgra_of(rgba@)[j] by {
                if j >= 4 * i {
                    assert(j % 4 == j - 4 * i);
                    assert(j - j % 4 == 4 * i);
                } else {
                    assert(out@[j] == before[j]);
                }
            }
        }
        i += 1;
    }
    assert(out@ =~= bgra_of(rgba@));
    out
}

/// Frame duration in microseconds at `fps` (at least 1 fps).
pub fn frame_duration_us(fps: u32) -> (d: i64)
    ensures
        d == 1_000_000int / (if fps == 0 { 1int } else { fps as int }),
{
    let f: i64 = if fps == 0 { 1 } else { fps as i64 };
    1_000_000 / f
}

/// `avcC` record and codec string from a session's SPS and PPS (none when
/// the SPS is shorter than four bytes or the PPS is empty).
pub fn avcc_and_codec(sps: &[u8], pps: &[u8]) -> (r: Option<(Vec<u8>, String)>)
    ensures
        sps@.len() < 4 || pps@.len() == 0 ==> r is None,
        sps@.len() >= 4 && pps@.len() > 0 ==> (r matches Some((b, c)) && b@ == avcc_record(sps@, pps@)
            && codec_of_sps(sps@) == Some(c@)),
{
    if sps.len() < 4 || pps.len() == 0 {
        return None;
    }
    match codec_string_from_sps(sps) {
        Some(c) => Some((build_avcc(sps, pps), c)),
        None => None,
    }
}

/// What the system encoder handed back for a frame.
pub struct VtSample {
    pub status: i32,
    pub info_flags: u32,
    /// AVCC data of the sample (length-prefixed units).
    pub data: Vec<u8>,
    /// `avcC` record of the session's current parameter sets, if readable.
    pub avcc: Option<Vec<u8>>,
    pub codec: String,
}

/// Flag of a frame the encoder dropped.
pub const VT_FRAME_DROPPED: u32 = 2;

/// Model of the session bookkeeping.
pub struct VtView {
    pub width: u32,
    pub height: u32,
    pub fps: u32,
    pub bitrate_bps: u32,
    /// Frames are refused until a real IDR comes out.
    pub need_idr: bool,
    pub frame_idx: u64,
    pub config_sent: bool,
    pub last_avcc: Option<Seq<u8>>,
    pub codec: Seq<char>,
}

/// Bookkeeping of a hardware session.
pub struct VtState {
    width: u32,
    height: u32,
    fps: u32,
    bitrate_bps: u32,
    need_idr: bool,
    frame_idx: u64,
    config_sent: bool,
    last_avcc: Option<Vec<u8>>,
    codec: String,
}

impl View for VtState {
    type V = VtView;

    closed spec fn view(&self) -> VtView {
        VtView {
            width: self.width,
            height: self.height,
            fps: self.fps,
            bitrate_bps: self.bitrate_bps,
            need_idr: self.need_idr,
            frame_idx: self.frame_idx,
            config_sent: self.config_sent,
            last_avcc: opt_bytes(self.last_avcc),
            codec: self.codec@,
        }
    }
}

/// Message of a frame whose size differs from the session's.
pub open spec fn size_change_message(w0: u32, h0: u32, w: u32, h: u32) -> Seq<char> {
    "size change "@ + dec(w0 as nat) + "x"@ + dec(h0 as nat) + " → "@ + dec(w as nat) + "x"@ + dec(h as nat)
}

/// The frame's IDR units.
pub open spec fn has_idr_unit(vcl: Seq<u8>) -> bool {
    exists|k: int| 0 <= k < avcc_units(vcl).len() && #[trigger] nal_type(avcc_units(vcl)[k]) == 5
}

/// The bookkeeping after an accepted frame with (`idr`) or without an IDR,
/// given the sample's `avcC` and codec: the new view and the `avcC` that
/// goes with the frame.
pub open spec fn vt_config_step(v0: VtView, avcc: Option<Seq<u8>>, codec: Seq<char>, idr: bool) -> (VtView, Option<Seq<u8>>) {
    let v1 = VtView { need_idr: if idr { false } else { v0.need_idr }, ..v0 };
    let (v2, cfg) = if avcc is Some && (v1.last_avcc != avcc || !v1.config_sent) {
        (VtView { last_avcc: avcc, codec: codec, config_sent: true, ..v1 }, avcc)
    } else {
        (v1, None::<Seq<u8>>)
    };
    if idr && cfg is None && v2.last_avcc is Some && !v2.config_sent {
        (VtView { config_sent: true, ..v2 }, v2.last_avcc)
    } else {
        (v2, cfg)
    }
}

/// What `finish` makes of a sample that arrived: the view before (`v0`)
/// and after (`v1`), and the result.
pub open spec fn vt_outcome(v0: VtView, v1: VtView, s: VtSample, pts_us: i64, r: Result<H264Encoded, H264Error>) -> bool {
    if s.status != 0 {
        &&& v1 == (VtView { need_idr: true, ..v0 })
        &&& (r matches Err(H264Error::OpenH264(m)) && m@ == "VT callback status "@ + crate::windowctl::dec_i(s.status as int))
    } else if s.info_flags & VT_FRAME_DROPPED != 0 || s.data@.len() == 0 {
        v1 == v0 && (r matches Err(H264Error::Empty))
    } else {
        let vcl = vcl_avcc(avcc_units(s.data@));
        let idr = has_idr_unit(vcl);
        if vcl.len() == 0 || (v0.need_idr && !idr) {
            v1 == v0 && (r matches Err(H264Error::Empty))
        } else {
            let (v2, cfg) = vt_config_step(v0, opt_bytes(s.avcc), s.codec@, idr);
            if idr && cfg is None && v2.last_avcc is None {
                v1 == (VtView { need_idr: true, ..v2 }) && (r matches Err(H264Error::Empty))
            } else {
                &&& v1 == (VtView { frame_idx: v2.frame_idx.wrapping_add(1), ..v2 })
                &&& (r matches Ok(e) && e.avcc_au@ == vcl && e.keyframe == idr && e.pts_us == pts_us
                    && opt_bytes(e.avcc_config) == cfg && e.codec@ == v2.codec && e.width == v0.width
                    && e.height == v0.height)
            }
        }
    }
}

fn same_bytes(a: &[u8], b: &[u8]) -> (r: bool)
    ensures
        r == (a@ == b@),
{
    if a.len() != b.len() {
        return false;
    }
    let mut i: usize = 0;
    while i < a.len()
        invariant
            a@.len() == b@.len(),
            i <= a@.len(),
            forall|j: int| 0 <= j < i ==> a@[j] == b@[j],
        decreases a@.len() - i,
    {
        if a[i] != b[i] {
            return false;
        }
        i += 1;
    }
    assert(a@ =~= b@);
    true
}

fn copy_bytes(v: &[u8]) -> (r: Vec<u8>)
    ensures
        r@ == v@,
{
    let mut out: Vec<u8> = Vec::new();
    crate::h264::extend_bytes(&mut out, v);
    out
}

impl VtState {
    /// A new session waits for an IDR and has sent no `avcC`.
    pub fn new(p: VtParams) -> (s: VtState)
        ensures
            s@ == (VtView {
                width: p.width,
                height: p.height,
                fps: p.fps,
                bitrate_bps: p.bitrate_bps,
                need_idr: true,
                frame_idx: 0,
                config_sent: false,
                last_avcc: None,
                codec: "avc1.4D401F"@,
            }),
    {
        VtState {
            width: p.width,
            height: p.height,
            fps: p.fps,
            bitrate_bps: p.bitrate_bps,
            need_idr: true,
            frame_idx: 0,
            config_sent: false,
            last_avcc: None,
            codec: string_of(chars_of("avc1.4D401F").as_slice()),
        }
    }

    /// Frame size of the session.
    pub fn dimensions(&self) -> (r: (u32, u32))
        ensures
            r == (self@.width, self@.height),
    {
        (self.width, self.height)
    }

    /// Configured bitrate.
    pub fn bitrate_bps(&self) -> (r: u32)
        ensures
            r == self@.bitrate_bps,
    {
        self.bitrate_bps
    }

    /// Frame rate of the session.
    pub fn fps(&self) -> (r: u32)
        ensures
            r == self@.fps,
    {
        self.fps
    }

    /// The next frame must be an IDR, sent with the `avcC` again.
    pub fn force_keyframe(&mut self)
        ensures
            final(self)@ == (VtView { need_idr: true, config_sent: false, ..old(self)@ }),
    {
        self.need_idr = true;
        self.config_sent = false;
    }

    /// Whether a new frame must be sent as a keyframe.
    pub fn needs_idr(&self) -> (r: bool)
        ensures
            r == self@.need_idr,
    {
        self.need_idr
    }

    /// Checks a `width`×`height` RGBA frame of `len` bytes before encoding:
    /// the buffer must hold it and the size must be the session's. Returns
    /// the even frame size.
    pub fn check_frame(&self, len: usize, width: u32, height: u32) -> (r: Result<(u32, u32), H264Error>)
        ensures
            ({
                let w = even_at_least_2(width);
                let h = even_at_least_2(height);
                &&& (len < w * h * 4) ==> (r matches Err(H264Error::OpenH264(m)) && m@ == "rgba too short"@)
                &&& (len >= w * h * 4 && (w != self@.width || h != self@.height)) ==> (r matches Err(
                    H264Error::OpenH264(m),
                ) && m@ == size_change_message(self@.width, self@.height, w, h))
                &&& (len >= w * h * 4 && w == self@.width && h == self@.height) ==> r == Ok::<
                    (u32, u32),
                    H264Error,
                >((w, h))
            }),
    {
        let w = if width < 2 { 2 } else { width - width % 2 };
        let h = if height < 2 { 2 } else { height - height % 2 };
        let a: u128 = w as u128;
        let b: u128 = h as u128;
        assert(a * b <= 0xffff_ffffu128 * 0xffff_ffffu128) by (nonlinear_arith)
            requires
                a <= 0xffff_ffff,
                b <= 0xffff_ffff,
        ;
        if (len as u128) < a * b * 4 {
            return Err(H264Error::OpenH264(string_of(chars_of("rgba too short").as_slice())));
        }
        if w != self.width || h != self.height {
            let mut out = chars_of("size change ");
            push_chars(&mut out, dec_chars(self.width as u64).as_slice());
            push_str_chars(&mut out, "x");
            push_chars(&mut out, dec_chars(self.height as u64).as_slice());
            push_str_chars(&mut out, " → ");
            push_chars(&mut out, dec_chars(w as u64).as_slice());
            push_str_chars(&mut out, "x");
            push_chars(&mut out, dec_chars(h as u64).as_slice());
            return Err(H264Error::OpenH264(string_of(out.as_slice())));
        }
        Ok((w, h))
    }

    /// Result of a frame from what the encoder handed back (`None`: no
    /// sample within the wait). No sample or a failed one keeps a keyframe
    /// pending; a dropped or empty sample is `Empty`; until an IDR comes,
    /// other frames are `Empty`; the `avcC` goes with the first frame after
    /// a change of parameter sets, and at the latest with an IDR; an IDR
    /// before any `avcC` is refused and waits for the next.
    pub fn finish(&mut self, sample: Option<VtSample>, pts_us: i64) -> (r: Result<H264Encoded, H264Error>)
        ensures
            sample is None ==> final(self)@ == (VtView { need_idr: true, ..old(self)@ }) && (r matches Err(
                H264Error::Empty,
            )),
            sample matches Some(s) ==> vt_outcome(old(self)@, final(self)@, s, pts_us, r),
    {
        let s = match sample {
            None => {
                self.need_idr = true;
                return Err(H264Error::Empty);
            },
            Some(s) => s,
        };
        if s.status != 0 {
            self.need_idr = true;
            let mut out = chars_of("VT callback status ");
            if s.status < 0 {
                out.push('-');
                let m: u64 = if s.status == i32::MIN {
                    2147483648
                } else {
                    (-s.status) as u64
                };
                push_chars(&mut out, dec_chars(m).as_slice());
                proof {
                    reveal_strlit("-");
                    assert(m as int == -(s.status as int));
                }
            } else {
                push_chars(&mut out, dec_chars(s.status as u64).as_slice());
            }
            let msg = string_of(out.as_slice());
            assert(msg@ =~= "VT callback status "@ + crate::windowctl::dec_i(s.status as int));
            return Err(H264Error::OpenH264(msg));
        }
        if (s.info_flags & VT_FRAME_DROPPED) != 0 || s.data.len() == 0 {
            return Err(H264Error::Empty);
        }
        let vcl = strip_to_vcl_avcc(s.data.as_slice());
        if vcl.len() == 0 {
            return Err(H264Error::Empty);
        }
        let has_idr = avcc_has_nal_type(vcl.as_slice(), 5);
        if self.need_idr && !has_idr {
            return Err(H264Error::Empty);
        }
        let ghost s0 = self@;
        if has_idr {
            self.need_idr = false;
        }
        let mut avcc_config: Option<Vec<u8>> = None;
        match &s.avcc {
            Some(b) => {
                let differs = match &self.last_avcc {
                    Some(l) => !same_bytes(l.as_slice(), b.as_slice()),
                    None => true,
                };
                if differs || !self.config_sent {
                    self.last_avcc = Some(copy_bytes(b.as_slice()));
                    self.codec = string_of(chars_of(s.codec.as_str()).as_slice());
                    self.config_sent = true;
                    avcc_config = Some(copy_bytes(b.as_slice()));
                }
            },
            None => {},
        }
        if has_idr && avcc_config.is_none() && !self.config_sent {
            match &self.last_avcc {
                Some(l) => {
                    avcc_config = Some(copy_bytes(l.as_slice()));
                    self.config_sent = true;
                },
                None => {},
            }
        }
        if has_idr && avcc_config.is_none() && self.last_avcc.is_none() {
            self.need_idr = true;
            return Err(H264Error::Empty);
        }
        self.frame_idx = self.frame_idx.wrapping_add(1);
        Ok(
            H264Encoded {
                avcc_au: vcl,
                keyframe: has_idr,
                pts_us,
                avcc_config,
                codec: string_of(chars_of(self.codec.as_str()).as_slice()),
                width: self.width,
                height: self.height,
            },
        )
    }
}

/// While a keyframe is due (a new session, a lost sample, or after
/// `force_keyframe`), every frame that goes out is an IDR.
pub proof fn lemma_vt_key_first(v0: VtView, v1: VtView, s: VtSample, pts_us: i64, r: Result<H264Encoded, H264Error>)
    requires
        vt_outcome(v0, v1, s, pts_us, r),
        v0.need_idr,
        r is Ok,
    ensures
        r->Ok_0.keyframe,
{
}

/// An IDR that goes out while the `avcC` has not been sent (a new session,
/// or after `force_keyframe`) carries it, so the browser can configure its
/// decoder.
pub proof fn lemma_vt_idr_carries_config(v0: VtView, v1: VtView, s: VtSample, pts_us: i64, r: Result<H264Encoded, H264Error>)
    requires
        vt_outcome(v0, v1, s, pts_us, r),
        !v0.config_sent,
        r matches Ok(e) && e.keyframe,
    ensures
        r->Ok_0.avcc_config is Some,
{
}

} // verus!
