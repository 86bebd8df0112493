use vstd::prelude::*;
use vstd::utf8::{decode_utf8, valid_utf8};
use crate::arc::{records_match, RecSpec};
use crate::{find_null, scan_null, u32_at, utf8_decode, Endianness, FileRecord, TextureError};

verus! {

/// The four-byte record marker, as a little-endian word (the bytes
/// `T`, `X`, `F`, `L` in that order).
pub open spec fn spec_marker() -> int {
    0x4c465854
}

/// The record announced by a marker match at `p`: its id and size sit at
/// fixed offsets before the marker, its bytes are `[p, p + size)`, and its
/// name is the null-terminated string after the marker word. `None` when
/// the match sits too close to the start, the record leaves the blob or is
/// shorter than the marker word, the terminator is missing, or the name is
/// not UTF-8.
pub open spec fn parse_record_at(b: Seq<u8>, e: Endianness, p: int) -> Option<RecSpec> {
    if p < 12 {
        None
    } else {
        let id = u32_at(e, b, p - 12) as u32;
        let size = u32_at(e, b, p - 8);
        if p + size > b.len() || size < 4 {
            None
        } else {
            match find_null(b, p + 4, p + size) {
                Option::None => None,
                Option::Some(z) => {
                    let name_bytes = b.subrange(p + 4, z);
                    if !valid_utf8(name_bytes) {
                        None
                    } else {
                        Some((decode_utf8(name_bytes), id, p, size))
                    }
                },
            }
        }
    }
}

/// Scans `b` from position `p` on for marker matches, every overlapping
/// four-byte window tested, and collects the announced records in scan
/// order.
pub open spec fn parse_scan(b: Seq<u8>, e: Endianness, p: int) -> Option<Seq<RecSpec>>
    decreases b.len() - p,
{
    if p < 0 || p + 4 > b.len() {
        Some(Seq::empty())
    } else if u32_at(e, b, p) == spec_marker() {
        match parse_record_at(b, e, p) {
            Option::None => None,
            Option::Some(t) => match parse_scan(b, e, p + 1) {
                Option::None => None,
                Option::Some(rest) => Some(seq![t] + rest),
            },
        }
    } else {
        parse_scan(b, e, p + 1)
    }
}

/// Reads the record announced by a marker match at `p`.
fn read_record_at(bytes: &[u8], e: Endianness, p: usize) -> (r: Result<FileRecord, TextureError>)
    requires
        p + 4 <= bytes@.len(),
    ensures
        r is Ok <==> parse_record_at(bytes@, e, p as int) is Some,
        r matches Ok(rec) ==> {
            let t = parse_record_at(bytes@, e, p as int)->Some_0;
            &&& rec.name@ == t.0
            &&& rec.id == t.1
            &&& rec.offset == t.2
            &&& rec.size == t.3
            &&& t.2 + t.3 <= bytes@.len()
        },
        r matches Err(err) ==> err == TextureError::MalformedArchive,
{
    let len: usize = bytes.len();
    if p < 12 {
        return Err(TextureError::MalformedArchive);
    }
    let id: u32 = crate::read_u32(e, bytes, p - 12);
    let size32: u32 = crate::read_u32(e, bytes, p - 8);
    let size: usize = size32 as usize;
    if size > len - p || size < 4 {
        return Err(TextureError::MalformedArchive);
    }
    let z: usize = match scan_null(bytes, p + 4, p + size) {
        Some(z) => z,
        None => {
            return Err(TextureError::MalformedArchive);
        },
    };
    let name_slice = vstd::slice::slice_subrange(bytes, p + 4, z);
    let name: String = match utf8_decode(name_slice) {
        Some(s) => s.to_owned(),
        None => {
            return Err(TextureError::MalformedArchive);
        },
    };
    Ok(FileRecord { name, id, offset: p, size })
}

/// Lists the texture records of a signature-scan archive. Fails with
/// `MalformedArchive` exactly when a marker match cannot be read as a
/// record. A spurious four-byte match inside unrelated data is not
/// guarded against; that is a property of the format itself.
pub fn list_textures(datasets_bytes: &[u8], endianness: Endianness) -> (r: Result<
    Vec<FileRecord>,
    TextureError,
>)
    ensures
        r is Ok <==> parse_scan(datasets_bytes@, endianness, 0) is Some,
        r matches Ok(v) ==> records_match(
            v@,
            parse_scan(datasets_bytes@, endianness, 0)->Some_0,
            datasets_bytes@.len() as int,
        ),
        r matches Err(e) ==> e == TextureError::MalformedArchive,
{
    let len: usize = datasets_bytes.len();
    let ghost b = datasets_bytes@;
    let mut files: Vec<FileRecord> = Vec::new();
    let mut done_g: Ghost<Seq<RecSpec>> = Ghost(Seq::empty());
    let mut p: usize = 0;
    while len - p >= 4
        invariant
            p <= len,
            len == b.len(),
            b == datasets_bytes@,
            records_match(files@, done_g@, len as int),
            parse_scan(b, endianness, 0) == match parse_scan(b, endianness, p as int) {
                Option::Some(rest) => Option::Some(done_g@ + rest),
                Option::None => Option::None::<Seq<RecSpec>>,
            },
        decreases len - p,
    {
        let ghost p0 = p as int;
        let word: u32 = crate::read_u32(endianness, datasets_bytes, p);
        if word == 0x4c465854 {
            let rec = match read_record_at(datasets_bytes, endianness, p) {
                Ok(rec) => rec,
                Err(_) => {
                    proof {
                        assert(parse_scan(b, endianness, p0) is None);
                    }
                    return Err(TextureError::MalformedArchive);
                },
            };
            files.push(rec);
            proof {
                let t: RecSpec = parse_record_at(b, endianness, p0)->Some_0;
                let done0 = done_g@;
                done_g@ = done0 + seq![t];
                match parse_scan(b, endianness, p0 + 1) {
                    Option::Some(rest) => {
                        assert(parse_scan(b, endianness, p0) == Some(seq![t] + rest));
                        assert((done0 + (seq![t] + rest)) =~= (done_g@ + rest));
                    },
                    Option::None => {},
                }
                assert(records_match(files@, done_g@, len as int));
            }
        } else {
            proof {
                assert(parse_scan(b, endianness, p0) == parse_scan(b, endianness, p0 + 1));
            }
        }
        p = p + 1;
    }
    proof {
        assert(parse_scan(b, endianness, p as int) == Some(Seq::<RecSpec>::empty()));
        assert(done_g@ + Seq::<RecSpec>::empty() =~= done_g@);
    }
    Ok(files)
}

} // verus!
