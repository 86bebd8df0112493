use vstd::prelude::*;
use crate::arc::{parse_arc, records_match, RecSpec};
use crate::pixel::RgbaImage;
use crate::rle_textures::{rle_convert_ok, rle_pixel};
use crate::the_sims_2::record_bytes;
use crate::{Endianness, TextureError};

verus! {

/// The archive table parses and every one of its run-length records
/// expands to a full 256 x 256 index grid.
pub open spec fn rle_all_ok(b: Seq<u8>, endianness: Endianness) -> bool {
    match parse_arc(b, endianness) {
        Option::None => false,
        Option::Some(s) => forall|i: int|
            0 <= i < s.len() ==> rle_convert_ok(#[trigger] record_bytes(b, s[i])),
    }
}

/// Lists the archive (whose table is read in the console's byte order) and
/// decodes every run-length texture record in table order, with this
/// title's alpha rescaling applied. Fails exactly when the table cannot be
/// parsed or some record cannot be decoded.
pub fn extract_rle_textures(rletextures: &[u8], endianness: Endianness) -> (r: Result<
    Vec<(String, RgbaImage)>,
    TextureError,
>)
    ensures
        r is Ok <==> rle_all_ok(rletextures@, endianness),
        r matches Ok(v) ==> ({
            let s = parse_arc(rletextures@, endianness)->Some_0;
            &&& v@.len() == s.len()
            &&& forall|i: int|
                0 <= i < s.len() ==> {
                    &&& (#[trigger] v@[i]).0@ == s[i].0
                    &&& v@[i].1.wf()
                    &&& v@[i].1.spec_width() == 256
                    &&& v@[i].1.spec_height() == 256
                    &&& forall|x: int, y: int|
                        0 <= x < 256 && 0 <= y < 256 ==> #[trigger] v@[i].1.pixel(x, y)
                            == rle_pixel(record_bytes(rletextures@, s[i]), true, x, y)
                }
        }),
        r matches Err(e) ==> e == TextureError::MalformedArchive,
{
    let files = match crate::arc::list_files(rletextures, endianness) {
        Ok(files) => files,
        Err(e) => {
            return Err(e);
        },
    };
    let ghost s = parse_arc(rletextures@, endianness)->Some_0;
    let tl: usize = rletextures.len();
    let mut out: Vec<(String, RgbaImage)> = Vec::new();
    let mut i: usize = 0;
    while i < files.len()
        invariant
            i <= files@.len(),
            tl == rletextures@.len(),
            records_match(files@, s, rletextures@.len() as int),
            parse_arc(rletextures@, endianness) == Some(s),
            out@.len() == i,
            forall|j: int|
                0 <= j < i ==> rle_convert_ok(#[trigger] record_bytes(rletextures@, s[j])),
            forall|j: int|
                0 <= j < i ==> {
                    &&& (#[trigger] out@[j]).0@ == s[j].0
                    &&& out@[j].1.wf()
                    &&& out@[j].1.spec_width() == 256
                    &&& out@[j].1.spec_height() == 256
                    &&& forall|x: int, y: int|
                        0 <= x < 256 && 0 <= y < 256 ==> #[trigger] out@[j].1.pixel(x, y)
                            == rle_pixel(record_bytes(rletextures@, s[j]), true, x, y)
                },
        decreases files@.len() - i,
    {
        let rec = &files[i];
        proof {
            assert(files@[i as int].offset == s[i as int].2);
            assert(files@[i as int].size == s[i as int].3);
            assert(s[i as int].2 + s[i as int].3 <= rletextures@.len());
        }
        let data = vstd::slice::slice_subrange(rletextures, rec.offset, rec.offset + rec.size);
        let img = match crate::rle_textures::convert(data, true) {
            Ok(img) => img,
            Err(e) => {
                proof {
                    assert(!rle_convert_ok(record_bytes(rletextures@, s[i as int])));
                    assert(!rle_all_ok(rletextures@, endianness));
                }
                return Err(e);
            },
        };
        let name = rec.name.clone();
        proof {
            assert(name@ == s[i as int].0);
        }
        out.push((name, img));
        i = i + 1;
    }
    Ok(out)
}

} // verus!
