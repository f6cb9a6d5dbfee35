//! H.264 bitstream helpers: start codes, AVCC length-prefixed units, the
//! `avcC` decoder configuration record and the WebCodecs codec string.

use vstd::prelude::*;

use crate::frame::{be_u32, u32_of_be};
use crate::text::{dec, hex2, hex_upper_exec, push_str_chars, string_of};

verus! {

/// NAL unit type (low five bits of the first byte).
pub open spec fn nal_type(nal: Seq<u8>) -> u8 {
    nal[0] & 0x1fu8
}

/// Big-endian bytes of a `u16`.
pub open spec fn be_u16(x: u16) -> Seq<u8> {
    seq![(x >> 8u16) as u8, x as u8]
}

/// A NAL unit without its Annex-B start code (`00 00 00 01` or `00 00 01`).
pub open spec fn without_start_code(nal: Seq<u8>) -> Seq<u8> {
    if nal.len() >= 4 && nal[0] == 0 && nal[1] == 0 && nal[2] == 0 && nal[3] == 1 {
        nal.skip(4)
    } else if nal.len() >= 3 && nal[0] == 0 && nal[1] == 0 && nal[2] == 1 {
        nal.skip(3)
    } else {
        nal
    }
}

/// The units of an AVCC buffer (4-byte big-endian lengths), read until the data
/// ends, a length is zero, or a length runs past the end.
pub open spec fn avcc_units(data: Seq<u8>) -> Seq<Seq<u8>>
    decreases data.len(),
{
    if data.len() < 4 {
        Seq::empty()
    } else {
        let len = u32_of_be(data.take(4)) as int;
        if len == 0 || 4 + len > data.len() {
            Seq::empty()
        } else {
            seq![data.subrange(4, 4 + len)] + avcc_units(data.skip(4 + len))
        }
    }
}

/// One unit in AVCC form.
pub open spec fn avcc_unit(nal: Seq<u8>) -> Seq<u8> {
    be_u32(nal.len() as u32) + nal
}

/// VCL units (types 1 and 5) of a list, each in AVCC form, concatenated.
pub open spec fn vcl_avcc(units: Seq<Seq<u8>>) -> Seq<u8>
    decreases units.len(),
{
    if units.len() == 0 {
        Seq::empty()
    } else {
        let u = units.last();
        let rest = vcl_avcc(units.drop_last());
        if nal_type(u) == 1 || nal_type(u) == 5 {
            rest + avcc_unit(u)
        } else {
            rest
        }
    }
}

/// The `avcC` record (without box header) for one SPS and one PPS.
pub open spec fn avcc_record(sps: Seq<u8>, pps: Seq<u8>) -> Seq<u8> {
    seq![
        1u8,
        if sps.len() > 1 { sps[1] } else { 0x42u8 },
        if sps.len() > 2 { sps[2] } else { 0u8 },
        if sps.len() > 3 { sps[3] } else { 0x1Eu8 },
        0xFFu8,
        0xE1u8,
    ] + be_u16(sps.len() as u16) + sps + seq![1u8] + be_u16(pps.len() as u16) + pps
}

/// WebCodecs codec string of an SPS (`avc1.PPCCLL`), when it is long enough.
pub open spec fn codec_of_sps(sps: Seq<u8>) -> Option<Seq<char>> {
    if sps.len() < 4 {
        None
    } else {
        Some("avc1."@ + hex2(sps[1]) + hex2(sps[2]) + hex2(sps[3]))
    }
}

/// Appends `src` to `out`.
pub fn extend_bytes(out: &mut Vec<u8>, src: &[u8])
    ensures
        final(out)@ == old(out)@ + src@,
{
    let mut i: usize = 0;
    while i < src.len()
        invariant
            0 <= i <= src@.len(),
            out@ == old(out)@ + src@.take(i as int),
        decreases src@.len() - i,
    {
        out.push(src[i]);
        i = i + 1;
        assert(out@ =~= old(out)@ + src@.take(i as int));
    }
    assert(src@.take(src@.len() as int) =~= src@);
}

/// Appends the big-endian bytes of `x`.
pub fn push_be_u32(out: &mut Vec<u8>, x: u32)
    ensures
        final(out)@ == old(out)@ + be_u32(x),
{
    out.push((x >> 24u32) as u8);
    out.push((x >> 16u32) as u8);
    out.push((x >> 8u32) as u8);
    out.push(x as u8);
    assert(out@ =~= old(out)@ + be_u32(x));
}

/// The unit with any Annex-B start code removed.
pub fn strip_start_code(nal: &[u8]) -> (r: &[u8])
    ensures
        r@ == without_start_code(nal@),
{
    if nal.len() >= 4 && nal[0] == 0 && nal[1] == 0 && nal[2] == 0 && nal[3] == 1 {
        vstd::slice::slice_subrange(nal, 4, nal.len())
    } else if nal.len() >= 3 && nal[0] == 0 && nal[1] == 0 && nal[2] == 1 {
        vstd::slice::slice_subrange(nal, 3, nal.len())
    } else {
        nal
    }
}

proof fn lemma_units_step(data: Seq<u8>, i: int, len: int)
    requires
        0 <= i,
        i + 4 <= data.len(),
        len == u32_of_be(data.subrange(i, i + 4)) as int,
        len != 0,
        i + 4 + len <= data.len(),
    ensures
        avcc_units(data.skip(i)) == seq![data.subrange(i + 4, i + 4 + len)] + avcc_units(
            data.skip(i + 4 + len),
        ),
{
    let s = data.skip(i);
    assert(s.take(4) =~= data.subrange(i, i + 4));
    assert(s.subrange(4, 4 + len) =~= data.subrange(i + 4, i + 4 + len));
    assert(s.skip(4 + len) =~= data.skip(i + 4 + len));
}

proof fn lemma_units_stop(data: Seq<u8>, i: int)
    requires
        0 <= i <= data.len(),
        i + 4 > data.len() || u32_of_be(data.subrange(i, i + 4)) == 0 || i + 4 + u32_of_be(
            data.subrange(i, i + 4),
        ) > data.len(),
    ensures
        avcc_units(data.skip(i)) == Seq::<Seq<u8>>::empty(),
{
    let s = data.skip(i);
    if i + 4 <= data.len() {
        assert(s.take(4) =~= data.subrange(i, i + 4));
    }
}

/// Whether some unit of an AVCC buffer has NAL type `want`.
pub fn avcc_has_nal_type(data: &[u8], want: u8) -> (r: bool)
    ensures
        r == exists|k: int|
            0 <= k < avcc_units(data@).len() && #[trigger] nal_type(avcc_units(data@)[k]) == want,
{
    let mut i: usize = 0;
    let ghost seen: Seq<Seq<u8>> = Seq::empty();
    assert(data@.skip(0) =~= data@);
    while i <= data.len() && data.len() - i >= 4
        invariant
            0 <= i <= data@.len(),
            avcc_units(data@) == seen + avcc_units(data@.skip(i as int)),
            forall|k: int| 0 <= k < seen.len() ==> nal_type(#[trigger] seen[k]) != want,
        decreases data@.len() - i,
    {
        let len = ((data[i] as u32) << 24u32) | ((data[i + 1] as u32) << 16u32) | ((data[i + 2]
            as u32) << 8u32) | (data[i + 3] as u32);
        proof {
            let h = data@.subrange(i as int, i + 4);
            assert(h[0] == data@[i as int] && h[1] == data@[i + 1] && h[2] == data@[i + 2] && h[3]
                == data@[i + 3]);
        }
        let start = i + 4;
        if len == 0 || (len as usize) > data.len() - start {
            proof {
                lemma_units_stop(data@, i as int);
                assert(seen + Seq::<Seq<u8>>::empty() =~= seen);
            }
            return false;
        }
        let end = start + len as usize;
        proof {
            lemma_units_step(data@, i as int, len as int);
        }
        if (data[start] & 0x1fu8) == want {
            proof {
                let u = data@.subrange(start as int, end as int);
                assert(avcc_units(data@)[seen.len() as int] == u);
                assert(nal_type(u) == want);
            }
            return true;
        }
        proof {
            let u = data@.subrange(start as int, end as int);
            assert(seen.push(u) + avcc_units(data@.skip(end as int)) =~= seen + (seq![u]
                + avcc_units(data@.skip(end as int))));
            seen = seen.push(u);
        }
        i = end;
    }
    proof {
        lemma_units_stop(data@, i as int);
        assert(seen + Seq::<Seq<u8>>::empty() =~= seen);
    }
    false
}

/// Keeps only the VCL units (types 1 and 5) of an AVCC buffer.
pub fn strip_to_vcl_avcc(data: &[u8]) -> (out: Vec<u8>)
    ensures
        out@ == vcl_avcc(avcc_units(data@)),
{
    let mut out: Vec<u8> = Vec::new();
    let mut i: usize = 0;
    let ghost seen: Seq<Seq<u8>> = Seq::empty();
    assert(data@.skip(0) =~= data@);
    while i <= data.len() && data.len() - i >= 4
        invariant
            0 <= i <= data@.len(),
            avcc_units(data@) == seen + avcc_units(data@.skip(i as int)),
            out@ == vcl_avcc(seen),
        decreases data@.len() - i,
    {
        let len = ((data[i] as u32) << 24u32) | ((data[i + 1] as u32) << 16u32) | ((data[i + 2]
            as u32) << 8u32) | (data[i + 3] as u32);
        proof {
            let h = data@.subrange(i as int, i + 4);
            assert(h[0] == data@[i as int] && h[1] == data@[i + 1] && h[2] == data@[i + 2] && h[3]
                == data@[i + 3]);
        }
        let start = i + 4;
        if len == 0 || (len as usize) > data.len() - start {
            proof {
                lemma_units_stop(data@, i as int);
                assert(seen + Seq::<Seq<u8>>::empty() =~= seen);
            }
            return out;
        }
        let end = start + len as usize;
        proof {
            lemma_units_step(data@, i as int, len as int);
        }
        let ntype = data[start] & 0x1fu8;
        let ghost u = data@.subrange(start as int, end as int);
        if ntype == 1 || ntype == 5 {
            push_be_u32(&mut out, len);
            let unit = vstd::slice::slice_subrange(data, start, end);
            extend_bytes(&mut out, unit);
            assert(u.len() as u32 == len);
        }
        proof {
            assert(seen.push(u) + avcc_units(data@.skip(end as int)) =~= seen + (seq![u]
                + avcc_units(data@.skip(end as int))));
            assert(seen.push(u).drop_last() =~= seen);
            seen = seen.push(u);
        }
        i = end;
    }
    proof {
        lemma_units_stop(data@, i as int);
        assert(seen + Seq::<Seq<u8>>::empty() =~= seen);
    }
    out
}

/// ISO-BMFF `avcC` record (without box header) for WebCodecs `description`.
pub fn build_avcc(sps: &[u8], pps: &[u8]) -> (out: Vec<u8>)
    ensures
        out@ == avcc_record(sps@, pps@),
{
    let mut out: Vec<u8> = Vec::new();
    out.push(1u8);
    out.push(if sps.len() > 1 { sps[1] } else { 0x42u8 });
    out.push(if sps.len() > 2 { sps[2] } else { 0u8 });
    out.push(if sps.len() > 3 { sps[3] } else { 0x1Eu8 });
    out.push(0xFFu8);
    out.push(0xE1u8);
    let sl = sps.len() as u16;
    out.push((sl >> 8u16) as u8);
    out.push(sl as u8);
    extend_bytes(&mut out, sps);
    out.push(1u8);
    let pl = pps.len() as u16;
    out.push((pl >> 8u16) as u8);
    out.push(pl as u8);
    extend_bytes(&mut out, pps);
    assert(out@ =~= avcc_record(sps@, pps@));
    out
}

/// Appends `{:02X}` of a byte.
fn push_hex2(out: &mut Vec<char>, b: u8)
    ensures
        final(out)@ == old(out)@ + hex2(b),
{
    out.push(hex_upper_exec(b / 16));
    out.push(hex_upper_exec(b % 16));
    assert(out@ =~= old(out)@ + hex2(b));
}

/// WebCodecs codec string of an SPS.
pub fn codec_string_from_sps(sps: &[u8]) -> (r: Option<String>)
    ensures
        match r {
            Some(s) => codec_of_sps(sps@) == Some(s@),
            None => codec_of_sps(sps@) is None,
        },
{
    if sps.len() < 4 {
        return None;
    }
    let mut c: Vec<char> = Vec::new();
    push_str_chars(&mut c, "avc1.");
    push_hex2(&mut c, sps[1]);
    push_hex2(&mut c, sps[2]);
    push_hex2(&mut c, sps[3]);
    Some(string_of(c.as_slice()))
}

} // verus!
