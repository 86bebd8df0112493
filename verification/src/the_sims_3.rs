use vstd::prelude::*;
use crate::arc::{parse_arc, records_match, RecSpec};
use crate::gamecube::{
    gc_image_size, is_gc_c4_decode, is_gc_c8_decode, is_gc_direct_decode,
};
use crate::pixel::RgbaImage;
use crate::playstation_2::is_ps2_rgb8_decode;
use crate::the_sims_2::record_bytes;
use crate::{find_null, u16_at, u32_at, Endianness, TextureError};

verus! {

/// The run-length decode of `b` from position `i` on, under the
/// counted-element scheme: each count byte is followed by one element of
/// `esz` bytes, emitted `count` times. The final byte of the stream is
/// never consumed as a new count. `None` when a nonzero count's element
/// runs past the stream.
pub open spec fn rle_elems_from(b: Seq<u8>, i: int, esz: int) -> Option<Seq<u8>>
    decreases b.len() + esz + 1 - i,
    when esz >= 1 && i >= 0
{
    if i >= b.len() - 1 {
        Some(Seq::empty())
    } else {
        let count = b[i] as int;
        if count > 0 && i + 1 + esz > b.len() {
            None
        } else {
            let rep = if count > 0 {
                Seq::new((count * esz) as nat, |k: int| b[i + 1 + (k % esz)])
            } else {
                Seq::empty()
            };
            match rle_elems_from(b, i + 1 + esz, esz) {
                Option::Some(rest) => Some(rep + rest),
                Option::None => None,
            }
        }
    }
}

/// The full decode of a run-length block: a leading little-endian length
/// word, then the counted-element stream. `None` when the bit width is not
/// 8, 16 or 32, the length word is missing or overruns the input, or the
/// stream itself is broken.
pub open spec fn sims3_rle(b: Seq<u8>, bit_count: u8) -> Option<Seq<u8>> {
    if bit_count != 8 && bit_count != 16 && bit_count != 32 {
        None
    } else if b.len() < 4 {
        None
    } else {
        let n = u32_at(Endianness::Little, b, 0);
        if 4 + n > b.len() {
            None
        } else {
            rle_elems_from(b.subrange(4, 4 + n), 0, bit_count as int / 8)
        }
    }
}

/// Decompresses a counted-element run-length block.
pub fn decode_rle(bytes: &[u8], bit_count: u8) -> (r: Option<Vec<u8>>)
    ensures
        r matches Some(v) ==> sims3_rle(bytes@, bit_count) == Some(v@),
        r is None <==> sims3_rle(bytes@, bit_count) is None,
{
    if bit_count != 8 && bit_count != 16 && bit_count != 32 {
        return None;
    }
    let esz: usize = (bit_count / 8) as usize;
    if bytes.len() < 4 {
        return None;
    }
    let rle_len32: u32 = crate::read_u32(Endianness::Little, bytes, 0);
    let rle_len: usize = rle_len32 as usize;
    if rle_len > bytes.len() - 4 {
        return None;
    }
    let rle = vstd::slice::slice_subrange(bytes, 4, 4 + rle_len);
    let n: usize = rle.len();
    let mut out: Vec<u8> = Vec::new();
    let mut i: usize = 0;
    while n - i > 1
        invariant
            i <= n,
            n == rle@.len(),
            1 <= esz <= 4,
            esz == bit_count as int / 8,
            bit_count == 8 || bit_count == 16 || bit_count == 32,
            bytes@.len() >= 4,
            rle_len <= bytes@.len() - 4,
            rle_len as int == u32_at(Endianness::Little, bytes@, 0),
            rle@ == bytes@.subrange(4, 4 + rle_len as int),
            rle_elems_from(rle@, 0, esz as int) == match rle_elems_from(
                rle@,
                i as int,
                esz as int,
            ) {
                Option::Some(rest) => Option::Some(out@ + rest),
                Option::None => Option::None::<Seq<u8>>,
            },
        decreases n - i,
    {
        let ghost i0 = i as int;
        let ghost out0 = out@;
        let count: usize = rle[i] as usize;
        if count > 0 && esz > n - i - 1 {
            proof {
                assert(rle_elems_from(rle@, i0, esz as int) is None);
            }
            return None;
        }
        proof {
            assert(count * esz <= 1020 && (count == 0 ==> count * esz == 0) && (count >= 1 ==> esz
                <= count * esz)) by (nonlinear_arith)
                requires
                    count <= 255,
                    1 <= esz <= 4,
            ;
        }
        let total: usize = count * esz;
        let mut j: usize = 0;
        while j < total
            invariant
                j <= total,
                total == count * esz,
                count >= 1 || total == 0,
                1 <= esz <= 4,
                n == rle@.len(),
                i0 + 1 + esz <= n || total == 0,
                i as int == i0,
                i < n,
                out@ == out0 + Seq::new(j as nat, |k: int| rle@[i0 + 1 + (k % (esz as int))]),
            decreases total - j,
        {
            let t: usize = j % esz;
            out.push(rle[i + 1 + t]);
            proof {
                assert(out@ =~= out0 + Seq::new((j + 1) as nat, |k: int| rle@[i0 + 1 + (k % (esz as int))]));
            }
            j = j + 1;
        }
        let ghost inext = i0 + 1 + esz;
        if n - i > 1 + esz {
            i = i + 1 + esz;
        } else {
            proof {
                assert(rle_elems_from(rle@, inext, esz as int) == Some(Seq::<u8>::empty()));
                assert(rle_elems_from(rle@, n as int, esz as int) == Some(Seq::<u8>::empty()));
            }
            i = n;
        }
        proof {
            let rep = if count > 0 {
                Seq::new((count * esz) as nat, |k: int| rle@[i0 + 1 + (k % (esz as int))])
            } else {
                Seq::<u8>::empty()
            };
            assert(out@ =~= out0 + rep);
            assert(rle_elems_from(rle@, i as int, esz as int) == rle_elems_from(
                rle@,
                inext,
                esz as int,
            ));
            match rle_elems_from(rle@, inext, esz as int) {
                Option::Some(rest) => {
                    assert(rle_elems_from(rle@, i0, esz as int) == Some(rep + rest));
                    assert(out0 + (rep + rest) =~= (out0 + rep) + rest);
                },
                Option::None => {},
            }
        }
    }
    proof {
        assert(rle_elems_from(rle@, i as int, esz as int) == Some(Seq::<u8>::empty()));
        assert(out@ + Seq::<u8>::empty() =~= out@);
        assert(sims3_rle(bytes@, bit_count) == rle_elems_from(rle@, 0, esz as int));
    }
    Some(out)
}

/// Header fields of a record, read at fixed big-endian offsets from the
/// name string's null terminator at `n`: width, height, the format code,
/// the decoded pixel bit width, and the palette entry count and bit depth.
pub open spec fn sims3_fields(t: Seq<u8>) -> Option<(int, int, int, u8, u8, int, int)> {
    match find_null(t, 0, t.len() as int) {
        Option::None => None,
        Option::Some(n) => {
            if n + 33 > t.len() {
                None
            } else {
                Some(
                    (
                        n,
                        u16_at(Endianness::Big, t, n + 21),
                        u16_at(Endianness::Big, t, n + 23),
                        t[n + 29],
                        t[n + 31],
                        u16_at(Endianness::Big, t, n + 25),
                        t[n + 32] as int,
                    ),
                )
            }
        },
    }
}

/// Whether the tiled decoder's size limits and an input of `dlen` bytes
/// admit a decode under format `code`.
pub open spec fn gc_fits(code: int, dlen: int, w: int, h: int) -> bool {
    &&& (w + 7) * (h + 7) * 4 <= u32::MAX
    &&& w * h * 4 <= usize::MAX
    &&& dlen >= gc_image_size(code, w, h)
}

/// The first failure a record runs into, or `None` when it decodes: a
/// malformed header or truncated data, a palette whose declared shape is
/// not the required one, or a format code with no decoder.
pub open spec fn sims3_error(b: Seq<u8>) -> Option<TextureError> {
    if b.len() < 16 {
        Some(TextureError::MalformedArchive)
    } else {
        let t = b.subrange(16, b.len() as int);
        match sims3_fields(t) {
            Option::None => Some(TextureError::MalformedArchive),
            Option::Some((n, w, h, ttype, tbc, pcount, pbit)) => {
                if n + 37 > t.len() {
                    Some(TextureError::MalformedArchive)
                } else {
                    let data = t.subrange(n + 37, t.len() as int);
                    if ttype == 0x1 {
                        if w * h * 4 <= usize::MAX && data.len() >= w * h * 3 {
                            None
                        } else {
                            Some(TextureError::MalformedArchive)
                        }
                    } else if ttype == 0x81 {
                        if gc_fits(0xe, data.len() as int, w, h) {
                            None
                        } else {
                            Some(TextureError::MalformedArchive)
                        }
                    } else if ttype == 0x82 || ttype == 0x85 {
                        match sims3_rle(data, tbc) {
                            Option::None => Some(TextureError::MalformedArchive),
                            Option::Some(d) => {
                                let code = if ttype == 0x82 {
                                    0x5int
                                } else {
                                    0x6int
                                };
                                if gc_fits(code, d.len() as int, w, h) {
                                    None
                                } else {
                                    Some(TextureError::MalformedArchive)
                                }
                            },
                        }
                    } else if ttype == 0x89 {
                        if !(pbit == 32 && pcount == 16) {
                            Some(TextureError::PaletteSizeMismatch)
                        } else if t.len() < 64 {
                            Some(TextureError::MalformedArchive)
                        } else if gc_fits(0x0, data.len() as int, w, h) {
                            None
                        } else {
                            Some(TextureError::MalformedArchive)
                        }
                    } else if ttype == 0x8a {
                        if !(pbit == 32 && pcount == 256) {
                            Some(TextureError::PaletteSizeMismatch)
                        } else {
                            match sims3_rle(data, tbc) {
                                Option::None => Some(TextureError::MalformedArchive),
                                Option::Some(d) => {
                                    if t.len() < 1024 {
                                        Some(TextureError::MalformedArchive)
                                    } else if gc_fits(0x1, d.len() as int, w, h) {
                                        None
                                    } else {
                                        Some(TextureError::MalformedArchive)
                                    }
                                },
                            }
                        }
                    } else {
                        Some(TextureError::UnrecognizedFormatCode)
                    }
                }
            },
        }
    }
}

/// What the decoded image of a record holds, per its format code.
pub open spec fn sims3_result(b: Seq<u8>, img: RgbaImage) -> bool
    recommends
        sims3_error(b) is None,
{
    let t = b.subrange(16, b.len() as int);
    match sims3_fields(t) {
        Option::None => false,
        Option::Some((n, w, h, ttype, tbc, pcount, pbit)) => {
            let data = t.subrange(n + 37, t.len() as int);
            if ttype == 0x1 {
                is_ps2_rgb8_decode(data, w, h, img)
            } else if ttype == 0x81 {
                is_gc_direct_decode(0xe, data, w, h, img)
            } else if ttype == 0x82 {
                is_gc_direct_decode(0x5, sims3_rle(data, tbc)->Some_0, w, h, img)
            } else if ttype == 0x85 {
                is_gc_direct_decode(0x6, sims3_rle(data, tbc)->Some_0, w, h, img)
            } else if ttype == 0x89 {
                is_gc_c4_decode(data, t.subrange(t.len() - 64, t.len() as int), w, h, img)
            } else if ttype == 0x8a {
                is_gc_c8_decode(
                    sims3_rle(data, tbc)->Some_0,
                    t.subrange(t.len() - 1024, t.len() as int),
                    w,
                    h,
                    img,
                )
            } else {
                false
            }
        },
    }
}

/// Whether the tiled decoder's limits hold, checked at run time.
pub(crate) fn gc_fits_check(code: u8, data_len: usize, w: usize, h: usize) -> (r: bool)
    requires
        w <= 0xffff,
        h <= 0xffff,
        code == 0x0 || code == 0x1 || code == 0x4 || code == 0x5 || code == 0x6 || code == 0xe,
    ensures
        r == gc_fits(code as int, data_len as int, w as int, h as int),
{
    proof {
        assert(((w as u64) + 7) * ((h as u64) + 7) * 4 <= 0x5_0000_0000) by (nonlinear_arith)
            requires
                w <= 0xffff,
                h <= 0xffff,
        ;
        assert((w as u64) * (h as u64) * 4 <= 0x4_0000_0000) by (nonlinear_arith)
            requires
                w <= 0xffff,
                h <= 0xffff,
        ;
    }
    if ((w as u64) + 7) * ((h as u64) + 7) * 4 > (u32::MAX as u64) {
        return false;
    }
    if (w as u64) * (h as u64) * 4 > (usize::MAX as u64) {
        return false;
    }
    let bw: u64 = if code == 0x4 || code == 0x5 || code == 0x6 {
        4
    } else {
        8
    };
    let bh: u64 = if code == 0x0 || code == 0xe {
        8
    } else {
        4
    };
    let bb: u64 = if code == 0x6 {
        64
    } else {
        32
    };
    proof {
        assert((((w as int) + (bw as int) - 1) / (bw as int)) * (((h as int) + (bh as int) - 1)
            / (bh as int)) * (bb as int) <= 0x1000_0000_0000) by (nonlinear_arith)
            requires
                w <= 0xffff,
                h <= 0xffff,
                4 <= bw <= 8,
                4 <= bh <= 8,
                32 <= bb <= 64,
        ;
    }
    let need: u64 = (((w as u64) + bw - 1) / bw) * (((h as u64) + bh - 1) / bh) * bb;
    (data_len as u64) >= need
}

/// Decodes one of this title's texture records: the big-endian header
/// fields select a decoder by format code, and three of the paths
/// run-length decompress the pixel stream first.
#[verifier::rlimit(100)]
pub fn convert(bytes: &[u8]) -> (r: Result<RgbaImage, TextureError>)
    ensures
        r is Ok <==> sims3_error(bytes@) is None,
        r matches Ok(img) ==> img.wf() && sims3_result(bytes@, img),
        r matches Err(e) ==> sims3_error(bytes@) == Some(e),
{
    let blen: usize = bytes.len();
    if blen < 16 {
        return Err(TextureError::MalformedArchive);
    }
    let t = vstd::slice::slice_subrange(bytes, 16, blen);
    let tlen: usize = t.len();
    let n: usize = match crate::scan_null(t, 0, tlen) {
        Some(n) => n,
        None => {
            return Err(TextureError::MalformedArchive);
        },
    };
    if tlen - n < 33 {
        return Err(TextureError::MalformedArchive);
    }
    let width: usize = crate::read_u16(Endianness::Big, t, n + 21) as usize;
    let height: usize = crate::read_u16(Endianness::Big, t, n + 23) as usize;
    let ttype: u8 = t[n + 29];
    let tbc: u8 = t[n + 31];
    let pcount: usize = crate::read_u16(Endianness::Big, t, n + 25) as usize;
    let pbit: usize = t[n + 32] as usize;
    if tlen - n < 37 {
        return Err(TextureError::MalformedArchive);
    }
    let data = vstd::slice::slice_subrange(t, n + 37, tlen);
    proof {
        assert(width <= 0xffff && height <= 0xffff);
        assert((width as u64) * (height as u64) * 3 <= 0x3_0000_0000 && (width as u64) * (
        height as u64) * 4 <= 0x4_0000_0000) by (nonlinear_arith)
            requires
                width <= 0xffff,
                height <= 0xffff,
        ;
    }
    if ttype == 0x1 {
        let area3: u64 = (width as u64) * (height as u64) * 3;
        if (width as u64) * (height as u64) * 4 > (usize::MAX as u64) || (data.len() as u64)
            < area3 {
            return Err(TextureError::MalformedArchive);
        }
        Ok(crate::playstation_2::decode_rgb8(data, width, height))
    } else if ttype == 0x81 {
        if !gc_fits_check(0xe, data.len(), width, height) {
            return Err(TextureError::MalformedArchive);
        }
        Ok(crate::gamecube::decode_cmpr(data, width, height))
    } else if ttype == 0x82 {
        let d = match decode_rle(data, tbc) {
            Some(d) => d,
            None => {
                return Err(TextureError::MalformedArchive);
            },
        };
        if !gc_fits_check(0x5, d.len(), width, height) {
            return Err(TextureError::MalformedArchive);
        }
        Ok(crate::gamecube::decode_rgb5a3(d.as_slice(), width, height))
    } else if ttype == 0x85 {
        let d = match decode_rle(data, tbc) {
            Some(d) => d,
            None => {
                return Err(TextureError::MalformedArchive);
            },
        };
        if !gc_fits_check(0x6, d.len(), width, height) {
            return Err(TextureError::MalformedArchive);
        }
        Ok(crate::gamecube::decode_rgba8(d.as_slice(), width, height))
    } else if ttype == 0x89 {
        if !(pbit == 32 && pcount == 16) {
            return Err(TextureError::PaletteSizeMismatch);
        }
        if tlen < 64 {
            return Err(TextureError::MalformedArchive);
        }
        let palette = vstd::slice::slice_subrange(t, tlen - 64, tlen);
        if !gc_fits_check(0x0, data.len(), width, height) {
            return Err(TextureError::MalformedArchive);
        }
        Ok(crate::gamecube::decode_c4(data, width, height, palette))
    } else if ttype == 0x8a {
        if !(pbit == 32 && pcount == 256) {
            return Err(TextureError::PaletteSizeMismatch);
        }
        let d = match decode_rle(data, tbc) {
            Some(d) => d,
            None => {
                return Err(TextureError::MalformedArchive);
            },
        };
        if tlen < 1024 {
            return Err(TextureError::MalformedArchive);
        }
        let palette = vstd::slice::slice_subrange(t, tlen - 1024, tlen);
        if !gc_fits_check(0x1, d.len(), width, height) {
            return Err(TextureError::MalformedArchive);
        }
        Ok(crate::gamecube::decode_c8(d.as_slice(), width, height, palette))
    } else {
        Err(TextureError::UnrecognizedFormatCode)
    }
}

/// The archive table parses and every one of its records decodes.
pub open spec fn sims3_all_ok(b: Seq<u8>) -> bool {
    match parse_arc(b, Endianness::Big) {
        Option::None => false,
        Option::Some(s) => forall|i: int|
            0 <= i < s.len() ==> sims3_error(#[trigger] record_bytes(b, s[i])) is None,
    }
}

/// Lists the archive (big-endian table) and decodes every record in table
/// order. Fails exactly when the table cannot be parsed or some record
/// cannot be decoded, with that record's own error.
pub fn extract_textures(textures: &[u8]) -> (r: Result<Vec<(String, RgbaImage)>, TextureError>)
    ensures
        r is Ok <==> sims3_all_ok(textures@),
        r matches Ok(v) ==> ({
            let s = parse_arc(textures@, Endianness::Big)->Some_0;
            &&& v@.len() == s.len()
            &&& forall|i: int|
                0 <= i < s.len() ==> {
                    &&& (#[trigger] v@[i]).0@ == s[i].0
                    &&& v@[i].1.wf()
                    &&& sims3_result(record_bytes(textures@, s[i]), v@[i].1)
                }
        }),
{
    let files = match crate::arc::list_files(textures, Endianness::Big) {
        Ok(files) => files,
        Err(e) => {
            return Err(e);
        },
    };
    let ghost s = parse_arc(textures@, Endianness::Big)->Some_0;
    let tl: usize = textures.len();
    let mut out: Vec<(String, RgbaImage)> = Vec::new();
    let mut i: usize = 0;
    while i < files.len()
        invariant
            i <= files@.len(),
            tl == textures@.len(),
            records_match(files@, s, textures@.len() as int),
            parse_arc(textures@, Endianness::Big) == Some(s),
            out@.len() == i,
            forall|j: int|
                0 <= j < i ==> sims3_error(#[trigger] record_bytes(textures@, s[j])) is None,
            forall|j: int|
                0 <= j < i ==> {
                    &&& (#[trigger] out@[j]).0@ == s[j].0
                    &&& out@[j].1.wf()
                    &&& sims3_result(record_bytes(textures@, s[j]), out@[j].1)
                },
        decreases files@.len() - i,
    {
        let rec = &files[i];
        proof {
            assert(files@[i as int].offset == s[i as int].2);
            assert(files@[i as int].size == s[i as int].3);
            assert(s[i as int].2 + s[i as int].3 <= textures@.len());
        }
        let data = vstd::slice::slice_subrange(textures, rec.offset, rec.offset + rec.size);
        let img = match convert(data) {
            Ok(img) => img,
            Err(e) => {
                proof {
                    assert(sims3_error(record_bytes(textures@, s[i as int])) is Some);
                    assert(!sims3_all_ok(textures@));
                }
                return Err(e);
            },
        };
        let name = rec.name.clone();
        proof {
            assert(name@ == s[i as int].0);
        }
        out.push((name, img));
        i = i + 1;
    }
    Ok(out)
}

} // verus!
