use vstd::prelude::*;
use crate::arc::{parse_arc, records_match, RecSpec};
use crate::gamecube::{is_gc_c4_decode, is_gc_c8_decode, is_gc_direct_decode};
use crate::pixel::RgbaImage;
use crate::playstation_2::is_ps2_rgb8_decode;
use crate::the_sims_2::record_bytes;
use crate::the_sims_3::{gc_fits, gc_fits_check};
use crate::{find_null, u16_at, Endianness, TextureError};

verus! {

/// Header fields of a record, read at fixed big-endian offsets from the
/// name string's null terminator at `n`: width, height, the format code,
/// and the palette entry count and bit depth.
pub open spec fn pets_fields(t: Seq<u8>) -> Option<(int, int, int, u8, int, int)> {
    match find_null(t, 0, t.len() as int) {
        Option::None => None,
        Option::Some(n) => {
            if n + 33 > t.len() {
                None
            } else {
                Some(
                    (
                        n,
                        u16_at(Endianness::Big, t, n + 21),
                        u16_at(Endianness::Big, t, n + 23),
                        t[n + 29],
                        u16_at(Endianness::Big, t, n + 25),
                        t[n + 32] as int,
                    ),
                )
            }
        },
    }
}

/// The first failure a record runs into, or `None` when it decodes.
pub open spec fn pets_error(b: Seq<u8>) -> Option<TextureError> {
    if b.len() < 16 {
        Some(TextureError::MalformedArchive)
    } else {
        let t = b.subrange(16, b.len() as int);
        match pets_fields(t) {
            Option::None => Some(TextureError::MalformedArchive),
            Option::Some((n, w, h, ttype, pcount, pbit)) => {
                if n + 37 > t.len() {
                    Some(TextureError::MalformedArchive)
                } else {
                    let data = t.subrange(n + 37, t.len() as int);
                    if ttype == 0x1 {
                        if w * h * 4 <= usize::MAX && data.len() >= w * h * 3 {
                            None
                        } else {
                            Some(TextureError::MalformedArchive)
                        }
                    } else if ttype == 0x81 {
                        if gc_fits(0xe, data.len() as int, w, h) {
                            None
                        } else {
                            Some(TextureError::MalformedArchive)
                        }
                    } else if ttype == 0x82 {
                        if gc_fits(0x4, data.len() as int, w, h) {
                            None
                        } else {
                            Some(TextureError::MalformedArchive)
                        }
                    } else if ttype == 0x85 {
                        if gc_fits(0x6, data.len() as int, w, h) {
                            None
                        } else {
                            Some(TextureError::MalformedArchive)
                        }
                    } else if ttype == 0x89 {
                        if !(pbit == 32 && pcount == 16) {
                            Some(TextureError::PaletteSizeMismatch)
                        } else if t.len() < 64 {
                            Some(TextureError::MalformedArchive)
                        } else if gc_fits(0x0, data.len() as int, w, h) {
                            None
                        } else {
                            Some(TextureError::MalformedArchive)
                        }
                    } else if ttype == 0x8a {
                        if !(pbit == 32 && pcount == 256) {
                            Some(TextureError::PaletteSizeMismatch)
                        } else if t.len() < 1024 {
                            Some(TextureError::MalformedArchive)
                        } else if gc_fits(0x1, data.len() as int, w, h) {
                            None
                        } else {
                            Some(TextureError::MalformedArchive)
                        }
                    } else {
                        Some(TextureError::UnrecognizedFormatCode)
                    }
                }
            },
        }
    }
}

/// What the decoded image of a record holds, per its format code.
pub open spec fn pets_result(b: Seq<u8>, img: RgbaImage) -> bool
    recommends
        pets_error(b) is None,
{
    let t = b.subrange(16, b.len() as int);
    match pets_fields(t) {
        Option::None => false,
        Option::Some((n, w, h, ttype, pcount, pbit)) => {
            let data = t.subrange(n + 37, t.len() as int);
            if ttype == 0x1 {
                is_ps2_rgb8_decode(data, w, h, img)
            } else if ttype == 0x81 {
                is_gc_direct_decode(0xe, data, w, h, img)
            } else if ttype == 0x82 {
                is_gc_direct_decode(0x4, data, w, h, img)
            } else if ttype == 0x85 {
                is_gc_direct_decode(0x6, data, w, h, img)
            } else if ttype == 0x89 {
                is_gc_c4_decode(data, t.subrange(t.len() - 64, t.len() as int), w, h, img)
            } else if ttype == 0x8a {
                is_gc_c8_decode(data, t.subrange(t.len() - 1024, t.len() as int), w, h, img)
            } else {
                false
            }
        },
    }
}

/// Decodes one of this title's texture records: the big-endian header
/// fields select a tiled-format decoder by format code.
#[verifier::rlimit(100)]
pub fn convert(bytes: &[u8]) -> (r: Result<RgbaImage, TextureError>)
    ensures
        r is Ok <==> pets_error(bytes@) is None,
        r matches Ok(img) ==> img.wf() && pets_result(bytes@, img),
        r matches Err(e) ==> pets_error(bytes@) == Some(e),
{
    let blen: usize = bytes.len();
    if blen < 16 {
        return Err(TextureError::MalformedArchive);
    }
    let t = vstd::slice::slice_subrange(bytes, 16, blen);
    let tlen: usize = t.len();
    let n: usize = match crate::scan_null(t, 0, tlen) {
        Some(n) => n,
        None => {
            return Err(TextureError::MalformedArchive);
        },
    };
    if tlen - n < 33 {
        return Err(TextureError::MalformedArchive);
    }
    let width: usize = crate::read_u16(Endianness::Big, t, n + 21) as usize;
    let height: usize = crate::read_u16(Endianness::Big, t, n + 23) as usize;
    let ttype: u8 = t[n + 29];
    let pcount: usize = crate::read_u16(Endianness::Big, t, n + 25) as usize;
    let pbit: usize = t[n + 32] as usize;
    if tlen - n < 37 {
        return Err(TextureError::MalformedArchive);
    }
    let data = vstd::slice::slice_subrange(t, n + 37, tlen);
    proof {
        assert(width <= 0xffff && height <= 0xffff);
        assert((width as u64) * (height as u64) * 3 <= 0x3_0000_0000 && (width as u64) * (
        height as u64) * 4 <= 0x4_0000_0000) by (nonlinear_arith)
            requires
                width <= 0xffff,
                height <= 0xffff,
        ;
    }
    if ttype == 0x1 {
        let area3: u64 = (width as u64) * (height as u64) * 3;
        if (width as u64) * (height as u64) * 4 > (usize::MAX as u64) || (data.len() as u64)
            < area3 {
            return Err(TextureError::MalformedArchive);
        }
        Ok(crate::playstation_2::decode_rgb8(data, width, height))
    } else if ttype == 0x81 {
        if !gc_fits_check(0xe, data.len(), width, height) {
            return Err(TextureError::MalformedArchive);
        }
        Ok(crate::gamecube::decode_cmpr(data, width, height))
    } else if ttype == 0x82 {
        if !gc_fits_check(0x4, data.len(), width, height) {
            return Err(TextureError::MalformedArchive);
        }
        Ok(crate::gamecube::decode_rgb565(data, width, height))
    } else if ttype == 0x85 {
        if !gc_fits_check(0x6, data.len(), width, height) {
            return Err(TextureError::MalformedArchive);
        }
        Ok(crate::gamecube::decode_rgba8(data, width, height))
    } else if ttype == 0x89 {
        if !(pbit == 32 && pcount == 16) {
            return Err(TextureError::PaletteSizeMismatch);
        }
        if tlen < 64 {
            return Err(TextureError::MalformedArchive);
        }
        let palette = vstd::slice::slice_subrange(t, tlen - 64, tlen);
        if !gc_fits_check(0x0, data.len(), width, height) {
            return Err(TextureError::MalformedArchive);
        }
        Ok(crate::gamecube::decode_c4(data, width, height, palette))
    } else if ttype == 0x8a {
        if !(pbit == 32 && pcount == 256) {
            return Err(TextureError::PaletteSizeMismatch);
        }
        if tlen < 1024 {
            return Err(TextureError::MalformedArchive);
        }
        let palette = vstd::slice::slice_subrange(t, tlen - 1024, tlen);
        if !gc_fits_check(0x1, data.len(), width, height) {
            return Err(TextureError::MalformedArchive);
        }
        Ok(crate::gamecube::decode_c8(data, width, height, palette))
    } else {
        Err(TextureError::UnrecognizedFormatCode)
    }
}

/// The archive table parses and every one of its records decodes.
pub open spec fn pets_all_ok(b: Seq<u8>) -> bool {
    match parse_arc(b, Endianness::Big) {
        Option::None => false,
        Option::Some(s) => forall|i: int|
            0 <= i < s.len() ==> pets_error(#[trigger] record_bytes(b, s[i])) is None,
    }
}

/// Lists the archive (big-endian table) and decodes every record in table
/// order. Fails exactly when the table cannot be parsed or some record
/// cannot be decoded, with that record's own error.
pub fn extract_textures(textures: &[u8]) -> (r: Result<Vec<(String, RgbaImage)>, TextureError>)
    ensures
        r is Ok <==> pets_all_ok(textures@),
        r matches Ok(v) ==> ({
            let s = parse_arc(textures@, Endianness::Big)->Some_0;
            &&& v@.len() == s.len()
            &&& forall|i: int|
                0 <= i < s.len() ==> {
                    &&& (#[trigger] v@[i]).0@ == s[i].0
                    &&& v@[i].1.wf()
                    &&& pets_result(record_bytes(textures@, s[i]), v@[i].1)
                }
        }),
{
    let files = match crate::arc::list_files(textures, Endianness::Big) {
        Ok(files) => files,
        Err(e) => {
            return Err(e);
        },
    };
    let ghost s = parse_arc(textures@, Endianness::Big)->Some_0;
    let tl: usize = textures.len();
    let mut out: Vec<(String, RgbaImage)> = Vec::new();
    let mut i: usize = 0;
    while i < files.len()
        invariant
            i <= files@.len(),
            tl == textures@.len(),
            records_match(files@, s, textures@.len() as int),
            parse_arc(textures@, Endianness::Big) == Some(s),
            out@.len() == i,
            forall|j: int|
                0 <= j < i ==> pets_error(#[trigger] record_bytes(textures@, s[j])) is None,
            forall|j: int|
                0 <= j < i ==> {
                    &&& (#[trigger] out@[j]).0@ == s[j].0
                    &&& out@[j].1.wf()
                    &&& pets_result(record_bytes(textures@, s[j]), out@[j].1)
                },
        decreases files@.len() - i,
    {
        let rec = &files[i];
        proof {
            assert(files@[i as int].offset == s[i as int].2);
            assert(files@[i as int].size == s[i as int].3);
            assert(s[i as int].2 + s[i as int].3 <= textures@.len());
        }
        let data = vstd::slice::slice_subrange(textures, rec.offset, rec.offset + rec.size);
        let img = match convert(data) {
            Ok(img) => img,
            Err(e) => {
                proof {
                    assert(pets_error(record_bytes(textures@, s[i as int])) is Some);
                    assert(!pets_all_ok(textures@));
                }
                return Err(e);
            },
        };
        let name = rec.name.clone();
        proof {
            assert(name@ == s[i as int].0);
        }
        out.push((name, img));
        i = i + 1;
    }
    Ok(out)
}

} // verus!
