//! Application icons for the browser sidebar: the icon name of a bundle's
//! property list, an `.icns` icon turned into a small PNG, the built-in
//! display glyph, and `data:` URLs.

use vstd::prelude::*;

use std::io::Cursor;

use icns::{IconFamily, IconType, OSType};
use image::codecs::png::PngEncoder;
use image::{ExtendedColorType, ImageEncoder};

use crate::b64::{base64_standard, encode_standard};
use crate::text::{chars_of, find, find_chars, find_str, push_chars, push_str_chars, slice_chars, string_of, trim, trim_chars};

verus! {

#[verifier::external_type_specification]
#[verifier::external_body]
pub struct ExIconFamily(IconFamily);

/// Text of the `<string>` that follows `<key>KEY</key>` in a property list
/// (trimmed), when there is a non-empty one.
pub open spec fn spec_plist_string_value(plist: Seq<char>, key: Seq<char>) -> Option<Seq<char>> {
    let needle = "<key>"@ + key + "</key>"@;
    let idx = find(plist, needle);
    if idx >= plist.len() {
        None
    } else {
        let rest = plist.skip(idx + needle.len());
        let s0 = find(rest, "<string>"@);
        if s0 >= rest.len() {
            None
        } else {
            let start = s0 + 8;
            let tail = rest.skip(start);
            let e0 = find(tail, "</string>"@);
            if e0 >= tail.len() {
                None
            } else {
                let v = trim(tail.take(e0));
                if v.len() == 0 {
                    None
                } else {
                    Some(v)
                }
            }
        }
    }
}

/// The string value of `key` in a property list's XML text.
pub fn plist_string_value(plist: &str, key: &str) -> (r: Option<String>)
    ensures
        match r {
            Some(s) => spec_plist_string_value(plist@, key@) == Some(s@),
            None => spec_plist_string_value(plist@, key@) is None,
        },
{
    let mut needle = chars_of("<key>");
    push_str_chars(&mut needle, key);
    push_str_chars(&mut needle, "</key>");
    let p = chars_of(plist);
    let ghost nv = needle@;
    let idx = find_chars(p.as_slice(), needle.as_slice());
    if idx >= p.len() {
        return None;
    }
    let rest = slice_chars(p.as_slice(), idx + needle.len(), p.len());
    assert(rest@ =~= plist@.skip(idx + nv.len()));
    let s0 = find_str(rest.as_slice(), "<string>");
    if s0 >= rest.len() {
        return None;
    }
    proof {
        reveal_strlit("<string>");
    }
    let start = s0 + 8;
    let tail = slice_chars(rest.as_slice(), start, rest.len());
    assert(tail@ =~= rest@.skip(start as int));
    let e0 = find_str(tail.as_slice(), "</string>");
    if e0 >= tail.len() {
        return None;
    }
    let head = slice_chars(tail.as_slice(), 0, e0);
    assert(head@ =~= tail@.take(e0 as int));
    let v = trim_chars(head.as_slice());
    if v.len() == 0 {
        None
    } else {
        Some(string_of(v.as_slice()))
    }
}

/// Pixel layout of an `.icns` image.
#[derive(Debug, Clone, Copy, PartialEq, Eq, Structural)]
pub enum IconFormat {
    Rgba,
    Rgb,
    GrayAlpha,
    Gray,
    Alpha,
}

/// Bytes per pixel read for a layout (an alpha-only image is read as RGBA).
pub open spec fn icon_bpp(f: IconFormat) -> nat {
    match f {
        IconFormat::Rgba => 4,
        IconFormat::Rgb => 3,
        IconFormat::GrayAlpha => 2,
        IconFormat::Gray => 1,
        IconFormat::Alpha => 4,
    }
}

/// Byte `j` of the RGBA form of pixel data `raw` in layout `f`.
pub open spec fn rgba_byte(raw: Seq<u8>, f: IconFormat, j: int) -> u8 {
    let i = j / 4;
    let c = j % 4;
    match f {
        IconFormat::Rgb => if c < 3 { raw[3 * i + c] } else { 255u8 },
        IconFormat::Gray => if c < 3 { raw[i] } else { 255u8 },
        IconFormat::GrayAlpha => if c < 3 { raw[2 * i] } else { raw[2 * i + 1] },
        _ => raw[j],
    }
}

/// The RGBA bytes of a `w`×`h` image, when the data is long enough for its
/// layout.
pub open spec fn spec_expand_to_rgba(raw: Seq<u8>, w: u32, h: u32, f: IconFormat) -> Option<Seq<u8>> {
    let n = w * h;
    if raw.len() >= icon_bpp(f) * n {
        Some(Seq::new((4 * n) as nat, |j: int| rgba_byte(raw, f, j)))
    } else {
        None
    }
}

/// RGBA bytes of icon pixel data (alpha 255 where the layout has none).
pub fn expand_to_rgba(raw: &[u8], w: u32, h: u32, f: IconFormat) -> (r: Option<Vec<u8>>)
    requires
        (w as int) * (h as int) * 4 <= usize::MAX,
    ensures
        match r {
            Some(v) => spec_expand_to_rgba(raw@, w, h, f) == Some(v@),
            None => spec_expand_to_rgba(raw@, w, h, f) is None,
        },
{
    let n: usize = (w as usize) * (h as usize);
    let bpp: usize = match f {
        IconFormat::Rgba => 4,
        IconFormat::Rgb => 3,
        IconFormat::GrayAlpha => 2,
        IconFormat::Gray => 1,
        IconFormat::Alpha => 4,
    };
    if raw.len() / bpp < n {
        proof {
            assert(raw@.len() < bpp * n) by (nonlinear_arith)
                requires
                    (raw@.len() as int) / (bpp as int) < n as int,
                    bpp > 0,
            ;
        }
        return None;
    }
    proof {
        assert(raw@.len() >= bpp * n) by (nonlinear_arith)
            requires
                (raw@.len() as int) / (bpp as int) >= n as int,
                bpp > 0,
        ;
    }
    let ghost want = Seq::new((4 * n) as nat, |j: int| rgba_byte(raw@, f, j));
    let mut out: Vec<u8> = Vec::new();
    let mut i: usize = 0;
    while i < n
        invariant
            i <= n,
            n == w * h,
            n * 4 <= usize::MAX,
            raw@.len() >= icon_bpp(f) * n,
            bpp == icon_bpp(f),
            out@.len() == 4 * i,
            forall|j: int| 0 <= j < out@.len() ==> out@[j] == rgba_byte(raw@, f, j),
        decreases n - i,
    {
        proof {
            assert(bpp * i + bpp <= bpp * n) by (nonlinear_arith)
                requires
                    i < n,
                    bpp >= 1,
            ;
        }
        let (a, b, c, d): (u8, u8, u8, u8) = match f {
            IconFormat::Rgb => (raw[3 * i], raw[3 * i + 1], raw[3 * i + 2], 255),
            IconFormat::Gray => (raw[i], raw[i], raw[i], 255),
            IconFormat::GrayAlpha => (raw[2 * i], raw[2 * i], raw[2 * i], raw[2 * i + 1]),
            _ => (raw[4 * i], raw[4 * i + 1], raw[4 * i + 2], raw[4 * i + 3]),
        };
        let ghost before = out@;
        out.push(a);
        out.push(b);
        out.push(c);
        out.push(d);
        proof {
            assert forall|j: int| 0 <= j < out@.len() implies out@[j] == rgba_byte(raw@, f, j) by {
                if j >= 4 * i {
                    assert(j / 4 == i as int);
                    assert(j % 4 == j - 4 * i);
                } else {
                    assert(out@[j] == before[j]);
                }
            }
        }
        i += 1;
    }
    assert(out@ =~= want);
    Some(out)
}

/// Icon image decoded from an `.icns` file.
pub struct IconPixels {
    pub width: u32,
    pub height: u32,
    pub format: IconFormat,
    pub data: Vec<u8>,
}

/// An icon image by its size, layout and pixel data.
pub open spec fn icon_view(o: Option<IconPixels>) -> Option<(u32, u32, IconFormat, Seq<u8>)> {
    match o {
        Some(p) => Some((p.width, p.height, p.format, p.data@)),
        None => None,
    }
}

/// Elements of an icon family by OSType code and payload.
pub open spec fn elements_view(v: Seq<([u8; 4], Vec<u8>)>) -> Seq<([u8; 4], Seq<u8>)> {
    v.map_values(|e: ([u8; 4], Vec<u8>)| (e.0, e.1@))
}

/// The elements (OSType code, payload) of an icon family, in file order.
pub uninterp spec fn family_elements(f: IconFamily) -> Seq<([u8; 4], Seq<u8>)>;

/// The elements that `icns::IconFamily::read` finds in the bytes of an
/// `.icns` file, or `None` when they do not parse.
pub uninterp spec fn icns_parsed(data: Seq<u8>) -> Option<Seq<([u8; 4], Seq<u8>)>>;

/// The image that `icns::IconFamily::get_icon_with_type` decodes from a
/// family with these elements for the icon type with OSType `code` (`None`
/// for an unknown type, a missing element or a decoding error).
pub uninterp spec fn icns_decoded(elements: Seq<([u8; 4], Seq<u8>)>, code: [u8; 4]) -> Option<(u32, u32, IconFormat, Seq<u8>)>;

/// The OSType codes that `icns::IconFamily::available_icons` lists for a
/// family with these elements.
pub uninterp spec fn icns_available_of(elements: Seq<([u8; 4], Seq<u8>)>) -> Seq<[u8; 4]>;

/// The pixels that `image::imageops::resize` with a triangle filter makes of
/// a `w`×`h` RGBA image at `size`×`size`.
pub uninterp spec fn rgba_resized(rgba: Seq<u8>, w: u32, h: u32, size: u32) -> Seq<u8>;

/// `icns::IconFamily::read` on the bytes of an `.icns` file: `None` when
/// they do not parse, else the family, whose elements are the ones named
/// for those bytes.
#[verifier::external_body]
fn icns_read(data: &[u8]) -> (r: Option<IconFamily>)
    ensures
        r is None <==> icns_parsed(data@) is None,
        r matches Some(f) ==> icns_parsed(data@) == Some(family_elements(f)),
{
    IconFamily::read(Cursor::new(data)).ok()
}

/// The `elements` of an icon family, each copied out as its OSType code and
/// payload.
#[verifier::external_body]
fn icns_elements(family: &IconFamily) -> (r: Vec<([u8; 4], Vec<u8>)>)
    ensures
        elements_view(r@) == family_elements(*family),
{
    family.elements.iter().map(|e| (e.ostype.0, e.data.clone())).collect()
}

/// `icns::IconFamily::get_icon_with_type` for the icon type with OSType
/// `code`, with the image's size, layout and pixels copied out: the image
/// named for the family's elements and the code. For a PNG-encoded type the
/// decoder sizes its buffer as `bits per pixel · width · height` in `u32`
/// before checking the size against the type, so a PNG header that declares
/// a larger picture than that makes it panic: `requires` leaves out an
/// element (the first one with that code) whose PNG header does.
#[verifier::external_body]
fn icns_icon(family: &IconFamily, code: [u8; 4]) -> (r: Option<IconPixels>)
    requires
        !png_oversized(first_payload(family_elements(*family), code)),
    ensures
        icon_view(r) == icns_decoded(family_elements(*family), code),
{
    let img = family.get_icon_with_type(IconType::from_ostype(OSType(code))?).ok()?;
    let format = match img.pixel_format() {
        icns::PixelFormat::RGBA => IconFormat::Rgba,
        icns::PixelFormat::RGB => IconFormat::Rgb,
        icns::PixelFormat::GrayAlpha => IconFormat::GrayAlpha,
        icns::PixelFormat::Gray => IconFormat::Gray,
        icns::PixelFormat::Alpha => IconFormat::Alpha,
    };
    Some(IconPixels { width: img.width(), height: img.height(), format, data: img.data().to_vec() })
}

/// `icns::IconFamily::available_icons`, each as its OSType code: the codes
/// named for the family's elements.
#[verifier::external_body]
fn icns_available(family: &IconFamily) -> (r: Vec<[u8; 4]>)
    ensures
        r@ == icns_available_of(family_elements(*family)),
{
    family.available_icons().into_iter().map(|t| t.ostype().0).collect()
}

/// `image::imageops::resize` of a `w`×`h` RGBA image to `size`×`size` with a
/// triangle filter. `ImageBuffer::from_raw` gives `None` unless the buffer
/// holds at least `4·w·h` bytes (counted without overflow); otherwise the
/// result is the named resized pixels, `size`×`size` of them (a buffer that
/// large must fit in memory).
#[verifier::external_body]
fn resize_rgba(rgba: Vec<u8>, w: u32, h: u32, size: u32) -> (r: Option<Vec<u8>>)
    requires
        (size as int) * (size as int) * 4 <= usize::MAX,
    ensures
        r is Some <==> ((w as int) * (h as int) * 4 <= usize::MAX && rgba@.len() >= (w as int) * (h as int) * 4),
        r matches Some(v) ==> v@ == rgba_resized(rgba@, w, h, size) && v@.len() == (size as int) * (size as int) * 4,
{
    let buf: image::RgbaImage = image::ImageBuffer::from_raw(w, h, rgba)?;
    Some(image::imageops::resize(&buf, size, size, image::imageops::FilterType::Triangle).into_raw())
}

/// The PNG file that the `image` crate's `PngEncoder` writes for a `w`×`h`
/// RGBA image (named, not spelled out).
pub uninterp spec fn png_encoded(rgba: Seq<u8>, w: u32, h: u32) -> Seq<u8>;

/// `image::codecs::png::PngEncoder::write_image` of a `w`×`h` RGBA image:
/// `None` on an encoder error, else the PNG file (named). The encoder
/// panics unless the buffer holds exactly `w`×`h` pixels; writing into a
/// `Vec` cannot fail, so the only error left is a side of 0 (the `png`
/// crate refuses a zero width or height).
#[verifier::external_body]
pub(crate) fn png_rgba(rgba: &[u8], w: u32, h: u32) -> (r: Option<Vec<u8>>)
    requires
        rgba@.len() == (w as int) * (h as int) * 4,
    ensures
        r is Some <==> (w > 0 && h > 0),
        r matches Some(v) ==> v@ == png_encoded(rgba@, w, h),
{
    let mut out: Vec<u8> = Vec::new();
    PngEncoder::new(&mut out).write_image(rgba, w, h, ExtendedColorType::Rgba8).ok()?;
    Some(out)
}

/// OSType codes of the preferred icon types, nearest to 32 px first:
/// 32, 32@2x, 64, 128, 16, 256 (RGBA), then 32 and 16 (RGB).
pub open spec fn preferred_icon_codes() -> Seq<[u8; 4]> {
    seq![
        [0x69u8, 0x63, 0x70, 0x35],
        [0x69u8, 0x63, 0x31, 0x32],
        [0x69u8, 0x63, 0x70, 0x36],
        [0x69u8, 0x63, 0x30, 0x37],
        [0x69u8, 0x63, 0x70, 0x34],
        [0x69u8, 0x63, 0x30, 0x38],
        [0x69u8, 0x6cu8, 0x33, 0x32],
        [0x69u8, 0x73, 0x33, 0x32],
    ]
}

fn preferred_icon_code(i: usize) -> (c: [u8; 4])
    requires
        i < 8,
    ensures
        c == preferred_icon_codes()[i as int],
{
    match i {
        0 => [0x69u8, 0x63, 0x70, 0x35],
        1 => [0x69u8, 0x63, 0x31, 0x32],
        2 => [0x69u8, 0x63, 0x70, 0x36],
        3 => [0x69u8, 0x63, 0x30, 0x37],
        4 => [0x69u8, 0x63, 0x70, 0x34],
        5 => [0x69u8, 0x63, 0x30, 0x38],
        6 => [0x69u8, 0x6cu8, 0x33, 0x32],
        _ => [0x69u8, 0x73, 0x33, 0x32],
    }
}

/// Payload of the first element with OSType `code` (empty when there is
/// none): the one that decoding that icon type reads.
pub open spec fn first_payload(elements: Seq<([u8; 4], Seq<u8>)>, code: [u8; 4]) -> Seq<u8>
    decreases elements.len(),
{
    if elements.len() == 0 {
        Seq::empty()
    } else if elements[0].0 == code {
        elements[0].1
    } else {
        first_payload(elements.drop_first(), code)
    }
}

/// Big-endian number in the four bytes of `d` from `i` on.
pub open spec fn be_word(d: Seq<u8>, i: int) -> int {
    d[i] as int * 0x100_0000 + d[i + 1] as int * 0x1_0000 + d[i + 2] as int * 0x100 + d[i + 3] as int
}

/// The payload starts as a PNG file (signature, then an `IHDR` chunk) whose
/// header declares a picture of `32·width·height` bits or more than `u32`
/// holds.
pub open spec fn png_oversized(d: Seq<u8>) -> bool {
    &&& d.len() >= 24
    &&& d.take(8) == seq![137u8, 80, 78, 71, 13, 10, 26, 10]
    &&& d.subrange(12, 16) == seq![73u8, 72, 68, 82]
    &&& 32 * be_word(d, 16) * be_word(d, 20) >= 0x1_0000_0000
}

/// An icon type can be decoded from a family with these elements: its
/// element's PNG header (if any) is not oversized, and decoding succeeds.
pub open spec fn icon_usable(elements: Seq<([u8; 4], Seq<u8>)>, code: [u8; 4]) -> bool {
    !png_oversized(first_payload(elements, code)) && icns_decoded(elements, code) is Some
}

/// The image of the first of `codes` that can be decoded.
pub open spec fn first_icon(elements: Seq<([u8; 4], Seq<u8>)>, codes: Seq<[u8; 4]>) -> Option<(u32, u32, IconFormat, Seq<u8>)>
    decreases codes.len(),
{
    if codes.len() == 0 {
        None
    } else if icon_usable(elements, codes[0]) {
        icns_decoded(elements, codes[0])
    } else {
        first_icon(elements, codes.drop_first())
    }
}

/// The icon taken from a family: the first preferred type that decodes,
/// else the first available one that does.
pub open spec fn chosen_icon(elements: Seq<([u8; 4], Seq<u8>)>) -> Option<(u32, u32, IconFormat, Seq<u8>)> {
    match first_icon(elements, preferred_icon_codes()) {
        Some(i) => Some(i),
        None => first_icon(elements, icns_available_of(elements)),
    }
}

/// PNG of an `.icns` file's icon at `size`×`size`: the chosen icon in RGBA,
/// resized when its size differs, encoded as PNG.
pub open spec fn spec_icns_to_png(data: Seq<u8>, size: u32) -> Option<Seq<u8>> {
    match icns_parsed(data) {
        None => None,
        Some(els) => match chosen_icon(els) {
            None => None,
            Some((w, h, f, raw)) => if (w as int) * (h as int) * 4 > usize::MAX {
                None
            } else {
                match spec_expand_to_rgba(raw, w, h, f) {
                    None => None,
                    Some(rgba) => {
                        let px = if w != size || h != size {
                            rgba_resized(rgba, w, h, size)
                        } else {
                            rgba
                        };
                        if size > 0 {
                            Some(png_encoded(px, size, size))
                        } else {
                            None
                        }
                    },
                }
            },
        },
    }
}

/// Position of the first element with OSType `code` (or the length).
fn find_element(els: &Vec<([u8; 4], Vec<u8>)>, code: [u8; 4]) -> (r: usize)
    ensures
        r <= els@.len(),
        r < els@.len() ==> first_payload(elements_view(els@), code) == els@[r as int].1@,
        r == els@.len() ==> first_payload(elements_view(els@), code) == Seq::<u8>::empty(),
{
    let ghost ev = elements_view(els@);
    let mut i: usize = 0;
    assert(ev.skip(0) =~= ev);
    while i < els.len()
        invariant
            i <= els@.len(),
            ev == elements_view(els@),
            first_payload(ev, code) == first_payload(ev.skip(i as int), code),
        decreases els@.len() - i,
    {
        assert(ev.skip(i as int)[0] == ev[i as int]);
        let c = els[i].0;
        if c[0] == code[0] && c[1] == code[1] && c[2] == code[2] && c[3] == code[3] {
            assert(c =~= code);
            return i;
        }
        assert(c != code) by {
            if c == code {
                assert(c[0] == code[0] && c[1] == code[1] && c[2] == code[2] && c[3] == code[3]);
            }
        }
        assert(ev.skip(i as int).drop_first() =~= ev.skip(i + 1));
        i += 1;
    }
    i
}

/// Whether a payload declares an oversized PNG picture.
fn png_oversized_exec(d: &[u8]) -> (r: bool)
    ensures
        r == png_oversized(d@),
{
    if d.len() < 24 {
        return false;
    }
    let sig: [u8; 8] = [137, 80, 78, 71, 13, 10, 26, 10];
    assert(sig@ =~= seq![137u8, 80, 78, 71, 13, 10, 26, 10]);
    let mut k: usize = 0;
    while k < 8
        invariant
            k <= 8,
            d@.len() >= 24,
            sig@ == seq![137u8, 80, 78, 71, 13, 10, 26, 10],
            forall|j: int| 0 <= j < k ==> d@[j] == sig@[j],
        decreases 8 - k,
    {
        if d[k] != sig[k] {
            assert(d@.take(8)[k as int] != seq![137u8, 80, 78, 71, 13, 10, 26, 10][k as int]);
            return false;
        }
        k += 1;
    }
    assert(d@.take(8) =~= seq![137u8, 80, 78, 71, 13, 10, 26, 10]);
    if !(d[12] == 73 && d[13] == 72 && d[14] == 68 && d[15] == 82) {
        assert(d@.subrange(12, 16) != seq![73u8, 72, 68, 82]) by {
            let a = d@.subrange(12, 16);
            assert(a[0] == d@[12] && a[1] == d@[13] && a[2] == d@[14] && a[3] == d@[15]);
        }
        return false;
    }
    assert(d@.subrange(12, 16) =~= seq![73u8, 72, 68, 82]);
    let w: u128 = d[16] as u128 * 0x100_0000 + d[17] as u128 * 0x1_0000 + d[18] as u128 * 0x100 + d[19] as u128;
    let h: u128 = d[20] as u128 * 0x100_0000 + d[21] as u128 * 0x1_0000 + d[22] as u128 * 0x100 + d[23] as u128;
    assert(w == be_word(d@, 16) && h == be_word(d@, 20));
    assert(w <= 0xffff_ffff && h <= 0xffff_ffff);
    assert(32 * w * h <= 32 * 0xffff_ffffu128 * 0xffff_ffffu128) by (nonlinear_arith)
        requires
            w <= 0xffff_ffff,
            h <= 0xffff_ffff,
    ;
    32 * w * h >= 0x1_0000_0000
}

/// The first of `codes` that decodes from `family` (whose elements are
/// `els`), with its image.
fn first_icon_exec(family: &IconFamily, els: &Vec<([u8; 4], Vec<u8>)>, codes: &Vec<[u8; 4]>) -> (r: Option<IconPixels>)
    requires
        elements_view(els@) == family_elements(*family),
    ensures
        icon_view(r) == first_icon(family_elements(*family), codes@),
{
    let ghost ev = family_elements(*family);
    let mut i: usize = 0;
    assert(codes@.skip(0) =~= codes@);
    while i < codes.len()
        invariant
            i <= codes@.len(),
            ev == family_elements(*family),
            elements_view(els@) == ev,
            first_icon(ev, codes@) == first_icon(ev, codes@.skip(i as int)),
        decreases codes@.len() - i,
    {
        let code = codes[i];
        assert(codes@.skip(i as int)[0] == code);
        assert(codes@.skip(i as int).drop_first() =~= codes@.skip(i + 1));
        let at = find_element(els, code);
        let oversized = if at < els.len() {
            png_oversized_exec(els[at].1.as_slice())
        } else {
            false
        };
        if !oversized {
            let got = icns_icon(family, code);
            if got.is_some() {
                return got;
            }
        }
        i += 1;
    }
    None
}

/// PNG of an `.icns` file's icon at `size`×`size`: the first preferred type
/// that decodes (else the first available icon that does), in RGBA, resized
/// when its size differs. `None` when the file does not parse, has no
/// usable icon, or its pixel data is short, and for a size of 0. An icon
/// whose PNG header declares a picture too large for the decoder's buffer
/// arithmetic counts as unusable.
pub fn icns_to_png(data: &[u8], size: u32) -> (r: Option<Vec<u8>>)
    requires
        (size as int) * (size as int) * 4 <= usize::MAX,
    ensures
        match r {
            Some(v) => spec_icns_to_png(data@, size) == Some(v@),
            None => spec_icns_to_png(data@, size) is None,
        },
{
    let family = match icns_read(data) {
        Some(f) => f,
        None => return None,
    };
    let els = icns_elements(&family);
    let mut preferred: Vec<[u8; 4]> = Vec::new();
    let mut i: usize = 0;
    while i < 8
        invariant
            i <= 8,
            preferred@ == preferred_icon_codes().take(i as int),
        decreases 8 - i,
    {
        preferred.push(preferred_icon_code(i));
        assert(preferred@ =~= preferred_icon_codes().take(i + 1));
        i += 1;
    }
    assert(preferred@ =~= preferred_icon_codes());
    let image = match first_icon_exec(&family, &els, &preferred) {
        Some(img) => Some(img),
        None => {
            let avail = icns_available(&family);
            first_icon_exec(&family, &els, &avail)
        },
    };
    let img = match image {
        Some(img) => img,
        None => return None,
    };
    let a: u128 = img.width as u128;
    let b: u128 = img.height as u128;
    assert(a * b <= 0xffff_ffffu128 * 0xffff_ffffu128) by (nonlinear_arith)
        requires
            a <= 0xffff_ffff,
            b <= 0xffff_ffff,
    ;
    if a * b * 4 > usize::MAX as u128 {
        return None;
    }
    let rgba = match expand_to_rgba(img.data.as_slice(), img.width, img.height, img.format) {
        Some(v) => v,
        None => return None,
    };
    let pixels = if img.width != size || img.height != size {
        match resize_rgba(rgba, img.width, img.height, size) {
            Some(v) => v,
            None => return None,
        }
    } else {
        assert(rgba@.len() == (size as int) * (size as int) * 4) by (nonlinear_arith)
            requires
                rgba@.len() == 4 * ((img.width as int) * (img.height as int)),
                img.width == size,
                img.height == size,
        ;
        rgba
    };
    png_rgba(pixels.as_slice(), size, size)
}

/// `data:` URL of a PNG.
pub open spec fn png_data_url(png: Seq<u8>) -> Seq<char> {
    "data:image/png;base64,"@ + base64_standard(png)
}

/// `data:` URL of PNG bytes.
pub fn data_url(png: &[u8]) -> (r: String)
    requires
        png@.len() <= usize::MAX / 2,
    ensures
        r@ == png_data_url(png@),
{
    let b = encode_standard(png);
    let mut out = chars_of("data:image/png;base64,");
    push_str_chars(&mut out, b.as_str());
    string_of(out.as_slice())
}

/// Colour of pixel (x, y) of the 32×32 display glyph: a blue frame with a
/// stand and a base, a dark screen, transparent elsewhere.
pub open spec fn display_glyph_pixel(x: u32, y: u32) -> [u8; 4] {
    let border = x < 2 || y < 2 || x >= 30 || y >= 30;
    let stand = y > 24 && x > 10 && x < 22;
    let base = y > 28 && x > 6 && x < 26;
    if border || stand || base {
        [90u8, 140, 220, 255]
    } else if y > 4 && y < 22 && x > 4 && x < 28 {
        [40u8, 50, 70, 255]
    } else {
        [0u8, 0, 0, 0]
    }
}

fn glyph_pixel(x: u32, y: u32) -> (p: [u8; 4])
    ensures
        p == display_glyph_pixel(x, y),
{
    let border = x < 2 || y < 2 || x >= 30 || y >= 30;
    let stand = y > 24 && x > 10 && x < 22;
    let base = y > 28 && x > 6 && x < 26;
    if border || stand || base {
        [90u8, 140, 220, 255]
    } else if y > 4 && y < 22 && x > 4 && x < 28 {
        [40u8, 50, 70, 255]
    } else {
        [0u8, 0, 0, 0]
    }
}

/// RGBA bytes of the 32×32 display glyph, row by row.
pub open spec fn display_glyph() -> Seq<u8> {
    Seq::new(32 * 32 * 4, |j: int| display_glyph_pixel(((j / 4) % 32) as u32, ((j / 4) / 32) as u32)[j % 4])
}

/// RGBA bytes of the 32×32 display glyph, row by row.
pub fn display_glyph_rgba() -> (r: Vec<u8>)
    ensures
        r@ == display_glyph(),
{
    let mut out: Vec<u8> = Vec::new();
    let mut y: u32 = 0;
    while y < 32
        invariant
            y <= 32,
            out@.len() == 128 * y,
            forall|j: int|
                0 <= j < out@.len() ==> out@[j] == display_glyph_pixel(((j / 4) % 32) as u32, ((j / 4) / 32) as u32)[j % 4],
        decreases 32 - y,
    {
        let mut x: u32 = 0;
        while x < 32
            invariant
                y < 32,
                x <= 32,
                out@.len() == 128 * y + 4 * x,
                forall|j: int|
                    0 <= j < out@.len() ==> out@[j] == display_glyph_pixel(((j / 4) % 32) as u32, ((j / 4) / 32) as u32)[j % 4],
            decreases 32 - x,
        {
            let p = glyph_pixel(x, y);
            let ghost before = out@;
            out.push(p[0]);
            out.push(p[1]);
            out.push(p[2]);
            out.push(p[3]);
            proof {
                assert forall|j: int| 0 <= j < out@.len() implies out@[j] == display_glyph_pixel(((j / 4) % 32) as u32, ((j / 4) / 32) as u32)[j % 4] by {
                    if j >= 128 * y + 4 * x {
                        assert(j / 4 == 32 * y + x);
                        assert((j / 4) % 32 == x as int);
                        assert((j / 4) / 32 == y as int);
                        assert(j % 4 == j - (128 * y + 4 * x));
                    } else {
                        assert(out@[j] == before[j]);
                    }
                }
            }
            x += 1;
        }
        y += 1;
    }
    assert(out@ =~= display_glyph());
    out
}

/// `data:` URL of the display glyph as PNG (`None` only when the PNG is too
/// large for its Base64 text to fit in memory).
pub fn display_icon_data_url() -> (r: Option<String>)
    ensures
        r is Some <==> png_encoded(display_glyph(), 32, 32).len() <= usize::MAX / 2,
        r matches Some(s) ==> s@ == png_data_url(png_encoded(display_glyph(), 32, 32)),
{
    let px = display_glyph_rgba();
    match png_rgba(px.as_slice(), 32, 32) {
        Some(png) => if png.len() <= usize::MAX / 2 {
            Some(data_url(png.as_slice()))
        } else {
            None
        },
        None => None,
    }
}

} // verus!
