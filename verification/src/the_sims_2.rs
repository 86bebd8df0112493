use vstd::prelude::*;
use crate::arc::{parse_arc, records_match, RecSpec};
use crate::deswizzle::{is_morton_deswizzle, swz_dim, swz_ok, swz_section_count, SwzFormat};
use crate::pixel::RgbaImage;
use crate::xbox::{bc_compressed_size, is_bc_decode};
use crate::{find_null, u16_at, Endianness, TextureError};

verus! {

/// The decode paths this title's header flags select.
#[derive(Clone, Copy, PartialEq, Eq, Structural, Debug)]
pub enum Sims2Plan {
    Bc1,
    Bc2,
    Rgb5,
    C8,
    Rgba8,
}

/// Header fields of a record, read at fixed offsets from the name string's
/// null terminator at `n`: width, height and three flag bytes. `None` when
/// the terminator is missing or the fields run past the record.
pub open spec fn sims2_fields(t: Seq<u8>) -> Option<(int, int, int, u8, u8, u8)> {
    match find_null(t, 0, t.len() as int) {
        Option::None => None,
        Option::Some(n) => {
            if n + 32 > t.len() {
                None
            } else {
                Some(
                    (
                        n,
                        u16_at(Endianness::Little, t, n + 21),
                        u16_at(Endianness::Little, t, n + 23),
                        t[n + 13],
                        t[n + 29],
                        t[n + 31],
                    ),
                )
            }
        },
    }
}

/// Which decoder the three flag bytes select; the last arm is the default.
pub open spec fn sims2_plan(flags: u8, flags2: u8, flags3: u8) -> Sims2Plan {
    if flags & 0x80 == 0 && flags2 & 0x01 == 0 {
        Sims2Plan::Bc1
    } else if flags & 0x80 == 0 && flags & 0x40 == 0 && flags2 & 0x01 > 0 {
        Sims2Plan::Bc2
    } else if flags & 0x80 > 0 && flags3 & 0x10 != 0 {
        Sims2Plan::Rgb5
    } else if flags & 0x80 > 0 && flags2 & 0x01 != 0 {
        Sims2Plan::C8
    } else {
        Sims2Plan::Rgba8
    }
}

/// Offset of the pixel data relative to the null terminator, per plan.
pub open spec fn sims2_data_off(p: Sims2Plan) -> int {
    if p == Sims2Plan::Rgb5 {
        33
    } else {
        37
    }
}

/// A record decodes when it has the 16-byte prefix, a terminated name, the
/// header fields, and pixel data (and for the palette path, a trailing
/// 1024-byte palette) large and shaped as its selected decoder needs.
pub open spec fn sims2_ok(b: Seq<u8>) -> bool {
    &&& b.len() >= 16
    &&& match sims2_fields(b.subrange(16, b.len() as int)) {
        Option::None => false,
        Option::Some((n, w, h, flags, flags2, flags3)) => {
            let t = b.subrange(16, b.len() as int);
            let plan = sims2_plan(flags, flags2, flags3);
            let doff = n + sims2_data_off(plan);
            &&& doff <= t.len()
            &&& w * h * 4 <= usize::MAX
            &&& match plan {
                Sims2Plan::Bc1 => w >= 1 && h >= 1 && t.len() - doff >= bc_compressed_size(
                    1,
                    w,
                    h,
                ),
                Sims2Plan::Bc2 => w >= 1 && h >= 1 && t.len() - doff >= bc_compressed_size(
                    2,
                    w,
                    h,
                ),
                Sims2Plan::Rgb5 => swz_ok(w, h) && t.len() - doff >= swz_section_count(w, h) * (
                swz_dim(w, h) * swz_dim(w, h)) * 2,
                Sims2Plan::C8 => swz_ok(w, h) && t.len() >= 1024 && t.len() - doff
                    >= swz_section_count(w, h) * (swz_dim(w, h) * swz_dim(w, h)),
                Sims2Plan::Rgba8 => swz_ok(w, h) && t.len() - doff >= swz_section_count(w, h) * (
                swz_dim(w, h) * swz_dim(w, h)) * 4,
            }
        },
    }
}

/// What the decoded image of a record holds, per the selected plan.
pub open spec fn sims2_result(b: Seq<u8>, img: RgbaImage) -> bool
    recommends
        sims2_ok(b),
{
    let t = b.subrange(16, b.len() as int);
    match sims2_fields(t) {
        Option::None => false,
        Option::Some((n, w, h, flags, flags2, flags3)) => {
            let plan = sims2_plan(flags, flags2, flags3);
            let data = t.subrange(n + sims2_data_off(plan), t.len() as int);
            match plan {
                Sims2Plan::Bc1 => is_bc_decode(1, data, w, h, img),
                Sims2Plan::Bc2 => is_bc_decode(2, data, w, h, img),
                Sims2Plan::Rgb5 => is_morton_deswizzle(
                    SwzFormat::Rgb5,
                    data,
                    Seq::<u8>::empty(),
                    w,
                    h,
                    img,
                ),
                Sims2Plan::C8 => is_morton_deswizzle(
                    SwzFormat::Palette,
                    data,
                    t.subrange(t.len() - 1024, t.len() as int),
                    w,
                    h,
                    img,
                ),
                Sims2Plan::Rgba8 => is_morton_deswizzle(
                    SwzFormat::Rgba8,
                    data,
                    Seq::<u8>::empty(),
                    w,
                    h,
                    img,
                ),
            }
        },
    }
}

/// Decodes one of this title's texture records: skips the 16-byte prefix,
/// finds the embedded name's terminator, reads the header fields at their
/// fixed offsets, and routes the pixel data to the decoder the flag bits
/// select.
#[verifier::rlimit(100)]
pub fn convert(bytes: &[u8]) -> (r: Result<RgbaImage, TextureError>)
    ensures
        r is Ok <==> sims2_ok(bytes@),
        r matches Ok(img) ==> img.wf() && sims2_result(bytes@, img),
        r matches Err(e) ==> e == TextureError::MalformedArchive,
{
    let blen: usize = bytes.len();
    if blen < 16 {
        return Err(TextureError::MalformedArchive);
    }
    let t = vstd::slice::slice_subrange(bytes, 16, blen);
    let tlen: usize = t.len();
    let n: usize = match crate::scan_null(t, 0, tlen) {
        Some(n) => n,
        None => {
            return Err(TextureError::MalformedArchive);
        },
    };
    if tlen - n < 32 {
        return Err(TextureError::MalformedArchive);
    }
    let width16: u16 = crate::read_u16(Endianness::Little, t, n + 21);
    let height16: u16 = crate::read_u16(Endianness::Little, t, n + 23);
    let width: usize = width16 as usize;
    let height: usize = height16 as usize;
    let flags: u8 = t[n + 13];
    let flags2: u8 = t[n + 29];
    let flags3: u8 = t[n + 31];
    proof {
        assert(width <= 0xffff);
        assert(height <= 0xffff);
        assert((width as u64) * (height as u64) <= 0xffff * 0xffff) by (nonlinear_arith)
            requires
                width <= 0xffff,
                height <= 0xffff,
        ;
    }
    if (width as u64) * (height as u64) * 4 > (usize::MAX as u64) {
        return Err(TextureError::MalformedArchive);
    }
    if flags & 0x80 == 0 && flags2 & 0x01 == 0 {
        if tlen - n < 37 {
            return Err(TextureError::MalformedArchive);
        }
        let data = vstd::slice::slice_subrange(t, n + 37, tlen);
        proof {
            assert((((width as u64) + 3) / 4) * (((height as u64) + 3) / 4) * 8 <= 0x4000_0000_0000)
                by (nonlinear_arith)
                requires
                    width <= 0xffff,
                    height <= 0xffff,
            ;
        }
        let need: u64 = (((width as u64) + 3) / 4) * (((height as u64) + 3) / 4) * 8;
        if width < 1 || height < 1 || (data.len() as u64) < need {
            return Err(TextureError::MalformedArchive);
        }
        Ok(crate::xbox::decode_bc1(data, width, height))
    } else if flags & 0x80 == 0 && flags & 0x40 == 0 && flags2 & 0x01 > 0 {
        if tlen - n < 37 {
            return Err(TextureError::MalformedArchive);
        }
        let data = vstd::slice::slice_subrange(t, n + 37, tlen);
        proof {
            assert((((width as u64) + 3) / 4) * (((height as u64) + 3) / 4) * 16
                <= 0x4000_0000_0000) by (nonlinear_arith)
                requires
                    width <= 0xffff,
                    height <= 0xffff,
            ;
        }
        let need: u64 = (((width as u64) + 3) / 4) * (((height as u64) + 3) / 4) * 16;
        if width < 1 || height < 1 || (data.len() as u64) < need {
            return Err(TextureError::MalformedArchive);
        }
        Ok(crate::xbox::decode_bc2(data, width, height))
    } else if flags & 0x80 > 0 && flags3 & 0x10 != 0 {
        if tlen - n < 33 {
            return Err(TextureError::MalformedArchive);
        }
        let data = vstd::slice::slice_subrange(t, n + 33, tlen);
        if width < 1 || height < 1 {
            return Err(TextureError::MalformedArchive);
        }
        let dim: usize = if width <= height {
            width
        } else {
            height
        };
        let count: usize = if width >= height {
            width / height
        } else {
            height / width
        };
        if !crate::deswizzle::is_power_of_two(dim) || dim > 0x8000 {
            return Err(TextureError::MalformedArchive);
        }
        proof {
            lemma_div_chain(data@.len() as int, 2, dim as int, count as int);
        }
        if data.len() / 2 / dim / dim < count {
            return Err(TextureError::MalformedArchive);
        }
        Ok(crate::xbox::decode_rgb5(data, width, height))
    } else if flags & 0x80 > 0 && flags2 & 0x01 != 0 {
        if tlen - n < 37 || tlen < 1024 {
            return Err(TextureError::MalformedArchive);
        }
        let data = vstd::slice::slice_subrange(t, n + 37, tlen);
        let palette = vstd::slice::slice_subrange(t, tlen - 1024, tlen);
        if width < 1 || height < 1 {
            return Err(TextureError::MalformedArchive);
        }
        let dim: usize = if width <= height {
            width
        } else {
            height
        };
        let count: usize = if width >= height {
            width / height
        } else {
            height / width
        };
        if !crate::deswizzle::is_power_of_two(dim) || dim > 0x8000 {
            return Err(TextureError::MalformedArchive);
        }
        proof {
            lemma_div_chain(data@.len() as int, 1, dim as int, count as int);
        }
        if data.len() / 1 / dim / dim < count {
            return Err(TextureError::MalformedArchive);
        }
        Ok(crate::xbox::decode_palette(data, width, height, palette))
    } else {
        if tlen - n < 37 {
            return Err(TextureError::MalformedArchive);
        }
        let data = vstd::slice::slice_subrange(t, n + 37, tlen);
        if width < 1 || height < 1 {
            return Err(TextureError::MalformedArchive);
        }
        let dim: usize = if width <= height {
            width
        } else {
            height
        };
        let count: usize = if width >= height {
            width / height
        } else {
            height / width
        };
        if !crate::deswizzle::is_power_of_two(dim) || dim > 0x8000 {
            return Err(TextureError::MalformedArchive);
        }
        proof {
            lemma_div_chain(data@.len() as int, 4, dim as int, count as int);
        }
        if data.len() / 4 / dim / dim < count {
            return Err(TextureError::MalformedArchive);
        }
        Ok(crate::xbox::decode_rgba(data, width, height))
    }
}

/// Dividing out the element size and both section dimensions bounds the
/// byte length from below by the sections' total footprint.
proof fn lemma_div_chain(len: int, esz: int, dim: int, count: int)
    by (nonlinear_arith)
    requires
        len >= 0,
        esz >= 1,
        dim >= 1,
        count >= 0,
    ensures
        (len / esz / dim / dim >= count) <==> (len >= count * (dim * dim) * esz),
{
}

/// The bytes of one archive record.
pub open spec fn record_bytes(b: Seq<u8>, s: RecSpec) -> Seq<u8> {
    b.subrange(s.2, s.2 + s.3)
}

/// The archive table parses and every one of its records decodes.
pub open spec fn sims2_all_ok(b: Seq<u8>) -> bool {
    match parse_arc(b, Endianness::Little) {
        Option::None => false,
        Option::Some(s) => forall|i: int|
            0 <= i < s.len() ==> sims2_ok(#[trigger] record_bytes(b, s[i])),
    }
}

/// Lists the archive and decodes every record in table order. Fails exactly
/// when the table cannot be parsed or some record cannot be decoded.
pub fn extract_textures(textures: &[u8]) -> (r: Result<Vec<(String, RgbaImage)>, TextureError>)
    ensures
        r is Ok <==> sims2_all_ok(textures@),
        r matches Ok(v) ==> ({
            let s = parse_arc(textures@, Endianness::Little)->Some_0;
            &&& v@.len() == s.len()
            &&& forall|i: int|
                0 <= i < s.len() ==> {
                    &&& (#[trigger] v@[i]).0@ == s[i].0
                    &&& v@[i].1.wf()
                    &&& sims2_result(record_bytes(textures@, s[i]), v@[i].1)
                }
        }),
        r matches Err(e) ==> e == TextureError::MalformedArchive,
{
    let files = match crate::arc::list_files(textures, Endianness::Little) {
        Ok(files) => files,
        Err(_) => {
            return Err(TextureError::MalformedArchive);
        },
    };
    let ghost s = parse_arc(textures@, Endianness::Little)->Some_0;
    let tl: usize = textures.len();
    let mut out: Vec<(String, RgbaImage)> = Vec::new();
    let mut i: usize = 0;
    while i < files.len()
        invariant
            i <= files@.len(),
            tl == textures@.len(),
            records_match(files@, s, textures@.len() as int),
            parse_arc(textures@, Endianness::Little) == Some(s),
            out@.len() == i,
            forall|j: int| 0 <= j < i ==> sims2_ok(#[trigger] record_bytes(textures@, s[j])),
            forall|j: int|
                0 <= j < i ==> {
                    &&& (#[trigger] out@[j]).0@ == s[j].0
                    &&& out@[j].1.wf()
                    &&& sims2_result(record_bytes(textures@, s[j]), out@[j].1)
                },
        decreases files@.len() - i,
    {
        let rec = &files[i];
        proof {
            assert(files@[i as int].offset == s[i as int].2);
            assert(files@[i as int].size == s[i as int].3);
            assert(s[i as int].2 + s[i as int].3 <= textures@.len());
        }
        let data = vstd::slice::slice_subrange(textures, rec.offset, rec.offset + rec.size);
        let img = match convert(data) {
            Ok(img) => img,
            Err(_) => {
                proof {
                    assert(!sims2_ok(record_bytes(textures@, s[i as int])));
                    assert(!sims2_all_ok(textures@));
                }
                return Err(TextureError::MalformedArchive);
            },
        };
        let name = rec.name.clone();
        proof {
            assert(name@ == s[i as int].0);
        }
        out.push((name, img));
        i = i + 1;
    }
    Ok(out)
}

} // verus!
