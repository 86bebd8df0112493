use vstd::prelude::*;
use vstd::utf8::{decode_utf8, valid_utf8};
use crate::{find_null, scan_null, u32_at, utf8_decode, Endianness, FileRecord, TextureError};

verus! {

/// What one parsed table entry contributes: the decoded name, the id, and
/// the record's offset and size inside the whole blob.
pub type RecSpec = (Seq<char>, u32, int, int);

/// Parses `n` fixed-format table records starting at absolute offset `q`:
/// `id, address, size` words, a null-terminated name, then nine bytes of
/// padding counted from the terminator. `None` when a read runs past the
/// blob, a terminator is missing, a name is not UTF-8, or a record's byte
/// range leaves the blob.
pub open spec fn parse_arc_records(b: Seq<u8>, e: Endianness, q: int, n: nat) -> Option<Seq<RecSpec>>
    decreases n,
{
    if n == 0 {
        Some(Seq::empty())
    } else if q < 0 || q + 12 > b.len() {
        None
    } else {
        let id = u32_at(e, b, q) as u32;
        let addr = u32_at(e, b, q + 4);
        let size = u32_at(e, b, q + 8);
        match find_null(b, q + 12, b.len() as int) {
            Option::None => None,
            Option::Some(z) => {
                let name_bytes = b.subrange(q + 12, z);
                if !valid_utf8(name_bytes) {
                    None
                } else if addr + size > b.len() {
                    None
                } else {
                    match parse_arc_records(b, e, z + 9, (n - 1) as nat) {
                        Option::None => None,
                        Option::Some(rest) => Some(
                            seq![(decode_utf8(name_bytes), id, addr, size)] + rest,
                        ),
                    }
                }
            },
        }
    }
}

/// Parses the whole offset-table archive: the first word points at the file
/// list, whose own first word is the record count.
pub open spec fn parse_arc(b: Seq<u8>, e: Endianness) -> Option<Seq<RecSpec>> {
    if b.len() < 4 {
        None
    } else {
        let list_addr = u32_at(Endianness::Little, b, 0);
        if list_addr + 4 > b.len() {
            None
        } else {
            parse_arc_records(b, e, list_addr + 4, u32_at(e, b, list_addr) as nat)
        }
    }
}

/// The parsed records and the returned ones agree entry by entry, and every
/// byte range fits inside the blob.
pub open spec fn records_match(v: Seq<FileRecord>, s: Seq<RecSpec>, blob_len: int) -> bool {
    &&& v.len() == s.len()
    &&& forall|i: int|
        0 <= i < s.len() ==> {
            &&& (#[trigger] v[i]).name@ == s[i].0
            &&& v[i].id == s[i].1
            &&& v[i].offset == s[i].2
            &&& v[i].size == s[i].3
            &&& s[i].2 + s[i].3 <= blob_len
        }
}

/// Lists the entries of an offset-table archive. Fails with
/// `MalformedArchive` exactly when the table cannot be parsed: a pointer,
/// count or record read out of range, a missing name terminator, a name
/// that is not UTF-8, or a byte range past the end of the blob.
pub fn list_files(arc_bytes: &[u8], endianness: Endianness) -> (r: Result<
    Vec<FileRecord>,
    TextureError,
>)
    ensures
        r is Ok <==> parse_arc(arc_bytes@, endianness) is Some,
        r matches Ok(v) ==> records_match(
            v@,
            parse_arc(arc_bytes@, endianness)->Some_0,
            arc_bytes@.len() as int,
        ),
        r matches Err(e) ==> e == TextureError::MalformedArchive,
{
    let len: usize = arc_bytes.len();
    if len < 4 {
        return Err(TextureError::MalformedArchive);
    }
    let list_addr32: u32 = crate::read_u32(Endianness::Little, arc_bytes, 0);
    let list_addr: usize = list_addr32 as usize;
    if list_addr > len - 4 {
        return Err(TextureError::MalformedArchive);
    }
    let count: u32 = crate::read_u32(endianness, arc_bytes, list_addr);
    let ghost b = arc_bytes@;
    let mut files: Vec<FileRecord> = Vec::new();
    let mut done_g: Ghost<Seq<RecSpec>> = Ghost(Seq::empty());
    let mut q: usize = list_addr + 4;
    let mut j: u32 = 0;
    proof {
        assert(parse_arc(b, endianness) == parse_arc_records(
            b,
            endianness,
            list_addr + 4,
            count as nat,
        ));
    }
    while j < count
        invariant
            j <= count,
            q <= len,
            len == b.len(),
            b == arc_bytes@,
            records_match(files@, done_g@, len as int),
            parse_arc(b, endianness) == match parse_arc_records(
                b,
                endianness,
                q as int,
                (count - j) as nat,
            ) {
                Option::Some(rest) => Option::Some(done_g@ + rest),
                Option::None => Option::None::<Seq<RecSpec>>,
            },
        decreases count - j,
    {
        let ghost q0 = q as int;
        let ghost m = (count - j) as nat;
        if len - q < 12 {
            proof {
                assert(parse_arc_records(b, endianness, q0, m) is None);
            }
            return Err(TextureError::MalformedArchive);
        }
        let id: u32 = crate::read_u32(endianness, arc_bytes, q);
        let addr32: u32 = crate::read_u32(endianness, arc_bytes, q + 4);
        let size32: u32 = crate::read_u32(endianness, arc_bytes, q + 8);
        let z: usize = match scan_null(arc_bytes, q + 12, len) {
            Some(z) => z,
            None => {
                proof {
                    assert(parse_arc_records(b, endianness, q0, m) is None);
                }
                return Err(TextureError::MalformedArchive);
            },
        };
        let name_slice = vstd::slice::slice_subrange(arc_bytes, q + 12, z);
        let name: String = match utf8_decode(name_slice) {
            Some(s) => s.to_owned(),
            None => {
                proof {
                    assert(parse_arc_records(b, endianness, q0, m) is None);
                }
                return Err(TextureError::MalformedArchive);
            },
        };
        if (addr32 as u64) + (size32 as u64) > (len as u64) {
            proof {
                assert(parse_arc_records(b, endianness, q0, m) is None);
            }
            return Err(TextureError::MalformedArchive);
        }
        let rec = FileRecord { name, id, offset: addr32 as usize, size: size32 as usize };
        files.push(rec);
        proof {
            let t: RecSpec = (
                decode_utf8(b.subrange(q0 + 12, z as int)),
                id,
                addr32 as int,
                size32 as int,
            );
            let done0 = done_g@;
            done_g@ = done0 + seq![t];
            match parse_arc_records(b, endianness, z + 9, (m - 1) as nat) {
                Option::Some(rest) => {
                    assert(parse_arc_records(b, endianness, q0, m) == Some(seq![t] + rest));
                    assert((done0 + (seq![t] + rest)) =~= (done_g@ + rest));
                },
                Option::None => {},
            }
            assert(records_match(files@, done_g@, len as int));
        }
        if len - z >= 9 {
            q = z + 9;
        } else {
            q = len;
            proof {
                if (m - 1) as nat == 0 {
                    assert(parse_arc_records(b, endianness, z + 9, 0) == Some(
                        Seq::<RecSpec>::empty(),
                    ));
                    assert(parse_arc_records(b, endianness, len as int, 0) == Some(
                        Seq::<RecSpec>::empty(),
                    ));
                } else {
                    assert(z + 9 + 12 > len);
                    assert(parse_arc_records(b, endianness, z + 9, (m - 1) as nat) is None);
                    assert(len + 12 > len);
                    assert(parse_arc_records(b, endianness, len as int, (m - 1) as nat) is None);
                }
            }
        }
        j = j + 1;
    }
    proof {
        assert(parse_arc_records(b, endianness, q as int, 0) == Some(Seq::<RecSpec>::empty()));
        assert(done_g@ + Seq::<RecSpec>::empty() =~= done_g@);
    }
    Ok(files)
}

} // verus!
