#![allow(unused_imports)]
use vstd::prelude::*;

pub mod arc;
pub mod datasets;
pub mod deswizzle;
pub mod gamecube;
pub mod pixel;
pub mod playstation_2;
pub mod rle_textures;
pub mod the_sims_2;
pub mod the_sims_2_pets;
pub mod the_sims_3;
pub mod the_sims_bustin_out;
pub mod xbox;

verus! {

/// Byte order of the multi-byte integer fields of an archive family.
#[derive(Clone, Copy, PartialEq, Eq, Structural, Debug)]
pub enum Endianness {
    Little,
    Big,
}

/// The fatal failure classes of the decode pipeline: a broken archive table
/// or truncated record, a header whose format code maps to no decoder, and a
/// palette whose declared entry count or bit depth is not the required one.
#[derive(Clone, Copy, PartialEq, Eq, Structural, Debug)]
pub enum TextureError {
    MalformedArchive,
    UnrecognizedFormatCode,
    PaletteSizeMismatch,
}

/// The 16-bit integer stored at offset `off` of `b` in byte order `e`.
pub open spec fn u16_at(e: Endianness, b: Seq<u8>, off: int) -> int {
    match e {
        Endianness::Little => b[off] + 0x100 * b[off + 1],
        Endianness::Big => 0x100 * b[off] + b[off + 1],
    }
}

/// The 32-bit integer stored at offset `off` of `b` in byte order `e`.
pub open spec fn u32_at(e: Endianness, b: Seq<u8>, off: int) -> int {
    match e {
        Endianness::Little => b[off] + 0x100 * b[off + 1] + 0x10000 * b[off + 2] + 0x1000000 * b[off + 3],
        Endianness::Big => 0x1000000 * b[off] + 0x10000 * b[off + 1] + 0x100 * b[off + 2] + b[off + 3],
    }
}

impl Endianness {
    /// Reads a `u32` out of four bytes in this byte order.
    pub fn u32_from_bytes(&self, bytes: [u8; 4]) -> (r: u32)
        ensures
            r == u32_at(*self, bytes@, 0),
    {
        match self {
            Endianness::Little => (bytes[0] as u32) + 0x100 * (bytes[1] as u32) + 0x10000 * (
            bytes[2] as u32) + 0x1000000 * (bytes[3] as u32),
            Endianness::Big => 0x1000000 * (bytes[0] as u32) + 0x10000 * (bytes[1] as u32) + 0x100
                * (bytes[2] as u32) + (bytes[3] as u32),
        }
    }
}

/// One archive entry: its embedded name, numeric id, and the byte range
/// `[offset, offset + size)` of its record inside the whole archive blob.
#[derive(Debug)]
pub struct FileRecord {
    pub name: String,
    pub id: u32,
    pub offset: usize,
    pub size: usize,
}

/// Position of the first zero byte of `b` in `[i, end)`, if any.
pub open spec fn find_null(b: Seq<u8>, i: int, end: int) -> Option<int>
    decreases end - i,
{
    if i < 0 || i >= end || i >= b.len() {
        None
    } else if b[i] == 0 {
        Some(i)
    } else {
        find_null(b, i + 1, end)
    }
}

/// Finds the first zero byte of `b` in `[start, end)`.
pub fn scan_null(b: &[u8], start: usize, end: usize) -> (r: Option<usize>)
    requires
        end <= b@.len(),
    ensures
        r matches Some(p) ==> start <= p < end && find_null(b@, start as int, end as int) == Some(
            p as int,
        ),
        r is None ==> find_null(b@, start as int, end as int) is None,
{
    let mut j: usize = start;
    if j >= end {
        return None;
    }
    while j < end
        invariant
            start <= j <= end,
            end <= b@.len(),
            find_null(b@, start as int, end as int) == find_null(b@, j as int, end as int),
        decreases end - j,
    {
        if b[j] == 0 {
            return Some(j);
        }
        j = j + 1;
    }
    None
}

/// Relies on std's `str::from_utf8`: it succeeds exactly on valid UTF-8 and
/// decodes it; stated through vstd's UTF-8 specification.
#[verifier::external_body]
pub(crate) fn utf8_decode(v: &[u8]) -> (r: Option<&str>)
    ensures
        r is Some <==> vstd::utf8::valid_utf8(v@),
        r matches Some(s) ==> s@ == vstd::utf8::decode_utf8(v@),
{
    std::str::from_utf8(v).ok()
}

/// Reads the 16-bit integer at `off` from a slice, in byte order `e`.
pub fn read_u16(e: Endianness, b: &[u8], off: usize) -> (r: u16)
    requires
        off + 2 <= b@.len(),
    ensures
        r == u16_at(e, b@, off as int),
{
    match e {
        Endianness::Little => (b[off] as u16) + 0x100 * (b[off + 1] as u16),
        Endianness::Big => 0x100 * (b[off] as u16) + (b[off + 1] as u16),
    }
}

/// Reads the 32-bit integer at `off` from a slice, in byte order `e`.
pub fn read_u32(e: Endianness, b: &[u8], off: usize) -> (r: u32)
    requires
        off + 4 <= b@.len(),
    ensures
        r == u32_at(e, b@, off as int),
{
    match e {
        Endianness::Little => (b[off] as u32) + 0x100 * (b[off + 1] as u32) + 0x10000 * (b[off
            + 2] as u32) + 0x1000000 * (b[off + 3] as u32),
        Endianness::Big => 0x1000000 * (b[off] as u32) + 0x10000 * (b[off + 1] as u32) + 0x100 * (
        b[off + 2] as u32) + (b[off + 3] as u32),
    }
}

} // verus!

