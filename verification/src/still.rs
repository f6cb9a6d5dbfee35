//! Still-image encodings of captured frames (JPEG and PNG streams): the
//! pixels handed to the `image` crate's encoders.

use vstd::prelude::*;

use image::codecs::jpeg::JpegEncoder;
use image::{ExtendedColorType, ImageEncoder};

use crate::icons::{png_encoded, png_rgba};

verus! {

/// The JPEG file that the `image` crate's `JpegEncoder` writes for a
/// `w`×`h` RGB image at `quality` (named, not spelled out).
pub uninterp spec fn jpeg_encoded(rgb: Seq<u8>, w: u32, h: u32, quality: u8) -> Seq<u8>;

/// `image::codecs::jpeg::JpegEncoder::new_with_quality(.., quality)` and
/// `write_image` of a `w`×`h` RGB image: `None` on an encoder error, else
/// the JPEG file (named). The encoder panics unless the buffer holds exactly
/// `w`×`h` pixels; writing into a `Vec` cannot fail, so the only error left
/// is a side outside 1 to 65535 (`InvalidSize`).
#[verifier::external_body]
fn jpeg_rgb(rgb: &[u8], w: u32, h: u32, quality: u8) -> (r: Option<Vec<u8>>)
    requires
        rgb@.len() == (w as int) * (h as int) * 3,
    ensures
        r is Some <==> (1 <= w <= 65535 && 1 <= h <= 65535),
        r matches Some(v) ==> v@ == jpeg_encoded(rgb@, w, h, quality),
{
    let mut out: Vec<u8> = Vec::new();
    JpegEncoder::new_with_quality(&mut out, quality).write_image(rgb, w, h, ExtendedColorType::Rgb8).ok()?;
    Some(out)
}

/// RGB bytes of RGBA pixels (alpha dropped; a trailing partial pixel too).
pub open spec fn rgb_of(rgba: Seq<u8>) -> Seq<u8> {
    Seq::new(((rgba.len() / 4) * 3) as nat, |j: int| rgba[(j / 3) * 4 + j % 3])
}

/// The pixels without their alpha channel.
pub fn rgba_to_rgb(rgba: &[u8]) -> (r: Vec<u8>)
    ensures
        r@ == rgb_of(rgba@),
{
    let n = rgba.len() / 4;
    let mut out: Vec<u8> = Vec::new();
    let mut i: usize = 0;
    while i < n
        invariant
            i <= n,
            n == rgba@.len() / 4,
            out@.len() == 3 * i,
            forall|j: int| 0 <= j < out@.len() ==> out@[j] == rgb_of(rgba@)[j],
        decreases n - i,
    {
        assert(4 * i + 3 < rgba@.len()) by (nonlinear_arith)
            requires
                i < n,
                n == rgba@.len() / 4,
        ;
        assert(rgba@.len() == rgba.len());
        let b: usize = 4 * i;
        let ghost before = out@;
        out.push(rgba[b]);
        out.push(rgba[b + 1]);
        out.push(rgba[b + 2]);
        proof {
            assert forall|j: int| 0 <= j < out@.len() implies out@[j] == rgb_of(rgba@)[j] by {
                if j >= 3 * i {
                    assert(j / 3 == i) by (nonlinear_arith)
                        requires
                            3 * i <= j < 3 * i + 3,
                    ;
                    assert(j % 3 == j - 3 * i) by (nonlinear_arith)
                        requires
                            3 * i <= j < 3 * i + 3,
                    ;
                    assert((j / 3) * 4 + j % 3 == 4 * i + (j - 3 * i)) by (nonlinear_arith)
                        requires
                            j / 3 == i,
                            j % 3 == j - 3 * i,
                    ;
                } else {
                    assert(out@[j] == before[j]);
                }
            }
        }
        i += 1;
    }
    assert(out@ =~= rgb_of(rgba@));
    out
}

/// JPEG of a `w`×`h` RGBA frame at `quality` (its RGB pixels); `None`
/// exactly when a side is 0 or above 65535, which JPEG cannot hold.
pub fn encode_jpeg(rgba: &[u8], w: u32, h: u32, quality: u8) -> (r: Option<Vec<u8>>)
    requires
        rgba@.len() == (w as int) * (h as int) * 4,
    ensures
        r is Some <==> (1 <= w <= 65535 && 1 <= h <= 65535),
        r matches Some(v) ==> v@ == jpeg_encoded(rgb_of(rgba@), w, h, quality),
{
    let rgb = rgba_to_rgb(rgba);
    assert(rgb@.len() == (w as int) * (h as int) * 3) by (nonlinear_arith)
        requires
            rgb@.len() == (rgba@.len() / 4) * 3,
            rgba@.len() == (w as int) * (h as int) * 4,
    ;
    jpeg_rgb(rgb.as_slice(), w, h, quality)
}

/// PNG of a `w`×`h` RGBA frame; `None` exactly when a side is 0.
pub fn encode_png(rgba: &[u8], w: u32, h: u32) -> (r: Option<Vec<u8>>)
    requires
        rgba@.len() == (w as int) * (h as int) * 4,
    ensures
        r is Some <==> (w > 0 && h > 0),
        r matches Some(v) ==> v@ == png_encoded(rgba@, w, h),
{
    png_rgba(rgba, w, h)
}

/// The first `n` rows of `row` bytes each of pixels stored `stride` bytes
/// per row.
pub open spec fn crop_rows(px: Seq<u8>, stride: int, row: int, n: nat) -> Seq<u8>
    decreases n,
{
    if n == 0 {
        Seq::empty()
    } else {
        crop_rows(px, stride, row, (n - 1) as nat) + px.subrange((n - 1) * stride, (n - 1) * stride + row)
    }
}

proof fn lemma_crop_rows_len(px: Seq<u8>, stride: int, row: int, n: nat)
    requires
        0 <= row <= stride,
        n * stride <= px.len(),
    ensures
        crop_rows(px, stride, row, n).len() == n * row,
    decreases n,
{
    if n > 0 {
        let m = (n - 1) as nat;
        assert(m * stride + stride == n * stride) by (nonlinear_arith)
            requires
                m == n - 1,
        ;
        assert(0 <= m * stride) by (nonlinear_arith)
            requires
                stride >= 0,
        ;
        lemma_crop_rows_len(px, stride, row, m);
        let part = px.subrange(m * stride, m * stride + row);
        assert(part.len() == row);
        assert(m * row + row == n * row) by (nonlinear_arith)
            requires
                m == n - 1,
        ;
    } else {
        assert(n * row == 0) by (nonlinear_arith)
            requires
                n == 0,
        ;
    }
}

/// The top-left `nw`×`nh` part of a `w`×`h` RGBA image (H.264 wants even
/// sides).
pub fn crop_rgba(rgba: &[u8], w: u32, h: u32, nw: u32, nh: u32) -> (r: Vec<u8>)
    requires
        rgba@.len() == (w as int) * (h as int) * 4,
        nw <= w,
        nh <= h,
    ensures
        r@ == crop_rows(rgba@, 4 * (w as int), 4 * (nw as int), nh as nat),
        r@.len() == (nw as int) * (nh as int) * 4,
{
    if nh == 0 {
        assert(crop_rows(rgba@, 4 * (w as int), 4 * (nw as int), 0) =~= Seq::<u8>::empty());
        assert((nw as int) * (nh as int) * 4 == 0) by (nonlinear_arith)
            requires
                nh == 0,
        ;
        return Vec::new();
    }
    assert(4 * (w as int) <= rgba@.len()) by (nonlinear_arith)
        requires
            h >= 1,
            rgba@.len() == (w as int) * (h as int) * 4,
    ;
    assert(rgba@.len() == rgba.len());
    let stride: usize = 4 * (w as usize);
    let row: usize = 4 * (nw as usize);
    let mut out: Vec<u8> = Vec::new();
    let mut y: usize = 0;
    assert(rgba@.len() == rgba.len());
    while y < nh as usize
        invariant
            y <= nh,
            nh <= h,
            nw <= w,
            stride == 4 * (w as int),
            row == 4 * (nw as int),
            rgba@.len() == (w as int) * (h as int) * 4,
            rgba@.len() == rgba.len(),
            out@ == crop_rows(rgba@, stride as int, row as int, y as nat),
        decreases nh - y,
    {
        assert(y * stride + stride <= rgba@.len()) by (nonlinear_arith)
            requires
                y < h,
                stride == 4 * (w as int),
                rgba@.len() == (w as int) * (h as int) * 4,
        ;
        assert(0 <= y * stride) by (nonlinear_arith)
            requires
                stride >= 0,
        ;
        let start: usize = y * stride;
        let mut k: usize = 0;
        let ghost out0 = out@;
        while k < row
            invariant
                k <= row,
                row <= stride,
                start + stride <= rgba@.len(),
                rgba@.len() == rgba.len(),
                out@ == out0 + rgba@.subrange(start as int, start + k),
            decreases row - k,
        {
            out.push(rgba[start + k]);
            assert(rgba@.subrange(start as int, start + k + 1) =~= rgba@.subrange(start as int, start + k).push(
                rgba@[start + k],
            ));
            k += 1;
        }
        y += 1;
        assert(out@ == crop_rows(rgba@, stride as int, row as int, y as nat));
    }
    proof {
        assert((nh as int) * (stride as int) <= rgba@.len()) by (nonlinear_arith)
            requires
                nh <= h,
                stride == 4 * (w as int),
                rgba@.len() == (w as int) * (h as int) * 4,
        ;
        lemma_crop_rows_len(rgba@, stride as int, row as int, nh as nat);
        assert((nh as int) * (row as int) == (nw as int) * (nh as int) * 4) by (nonlinear_arith)
            requires
                row == 4 * (nw as int),
        ;
    }
    out
}

} // verus!
