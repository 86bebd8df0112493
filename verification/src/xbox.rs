use vstd::prelude::*;
use crate::deswizzle::{
    deswizzle_xbox_palette, deswizzle_xbox_rgb5, deswizzle_xbox_rgba, is_morton_deswizzle, swz_dim,
    swz_ok, swz_section_count, SwzFormat,
};
use crate::pixel::{pix_off, quad_at, Rgba, RgbaImage};

verus! {

/// The two block-compressed formats this platform's textures use.
#[derive(Clone, Copy, PartialEq, Eq, Structural, Debug)]
pub enum BcFormat {
    Bc1,
    Bc2,
}

/// Numeric tag distinguishing the block-compressed formats in specs.
pub open spec fn bc_code(f: BcFormat) -> int {
    match f {
        BcFormat::Bc1 => 1,
        BcFormat::Bc2 => 2,
    }
}

/// Bytes per 4x4 block of a block-compressed format.
pub open spec fn bc_block_size(code: int) -> int {
    if code == 1 {
        8
    } else {
        16
    }
}

/// Compressed size of a `w x h` image: one block for every started 4x4 tile.
pub open spec fn bc_compressed_size(code: int, w: int, h: int) -> int {
    ((w + 3) / 4) * ((h + 3) / 4) * bc_block_size(code)
}

/// The RGBA8 buffer (row-major, `w * h * 4` bytes) that the block
/// decompressor produces from `data`; a fixed function of its arguments.
pub uninterp spec fn bc_decompressed(code: int, data: Seq<u8>, w: int, h: int) -> Seq<u8>;

/// Relies on texpresso's `Format::decompress`: it fills a `width * height * 4`
/// RGBA8 buffer from the compressed blocks, reading only `data`, the
/// dimensions and the format, so the result is a function of those alone.
#[verifier::external_body]
fn texpresso_decompress(format: BcFormat, data: &[u8], width: usize, height: usize) -> (r: Vec<u8>)
    requires
        width >= 1,
        height >= 1,
        width * height * 4 <= usize::MAX,
        data@.len() >= bc_compressed_size(bc_code(format), width as int, height as int),
    ensures
        r@.len() == width * height * 4,
        r@ == bc_decompressed(bc_code(format), data@, width as int, height as int),
{
    let mut out = vec![0u8; width * height * 4];
    let f = match format {
        BcFormat::Bc1 => texpresso::Format::Bc1,
        BcFormat::Bc2 => texpresso::Format::Bc2,
    };
    f.decompress(data, width, height, &mut out);
    out
}

/// `img` is the block-compressed decode of `data`, flipped vertically.
pub open spec fn is_bc_decode(code: int, data: Seq<u8>, w: int, h: int, img: RgbaImage) -> bool {
    &&& img.spec_width() == w
    &&& img.spec_height() == h
    &&& forall|x: int, y: int|
        0 <= x < w && 0 <= y < h ==> #[trigger] img.pixel(x, y) == quad_at(
            bc_decompressed(code, data, w, h),
            pix_off(w, x, h - 1 - y),
        )
}

/// Decodes a BC1 block-compressed texture and flips it vertically.
pub fn decode_bc1(bytes: &[u8], width: usize, height: usize) -> (img: RgbaImage)
    requires
        width >= 1,
        height >= 1,
        width * height * 4 <= usize::MAX,
        bytes@.len() >= bc_compressed_size(1, width as int, height as int),
    ensures
        img.wf(),
        is_bc_decode(1, bytes@, width as int, height as int, img),
{
    let raw = texpresso_decompress(BcFormat::Bc1, bytes, width, height);
    let mid = RgbaImage::from_raw(width, height, raw);
    mid.flip_vertical()
}

/// Decodes a BC2 block-compressed texture and flips it vertically.
pub fn decode_bc2(bytes: &[u8], width: usize, height: usize) -> (img: RgbaImage)
    requires
        width >= 1,
        height >= 1,
        width * height * 4 <= usize::MAX,
        bytes@.len() >= bc_compressed_size(2, width as int, height as int),
    ensures
        img.wf(),
        is_bc_decode(2, bytes@, width as int, height as int, img),
{
    let raw = texpresso_decompress(BcFormat::Bc2, bytes, width, height);
    let mid = RgbaImage::from_raw(width, height, raw);
    mid.flip_vertical()
}

/// Deswizzles an 8-bit palette-indexed Morton-ordered texture.
pub fn decode_palette(bytes: &[u8], width: usize, height: usize, palette: &[u8]) -> (img: RgbaImage)
    requires
        swz_ok(width as int, height as int),
        width * height * 4 <= usize::MAX,
        bytes@.len() >= swz_section_count(width as int, height as int) * (swz_dim(
            width as int,
            height as int,
        ) * swz_dim(width as int, height as int)),
        palette@.len() >= 1024,
    ensures
        img.wf(),
        is_morton_deswizzle(
            SwzFormat::Palette,
            bytes@,
            palette@,
            width as int,
            height as int,
            img,
        ),
{
    deswizzle_xbox_palette(bytes, width, height, palette)
}

/// Deswizzles an RGBA8 Morton-ordered texture.
pub fn decode_rgba(bytes: &[u8], width: usize, height: usize) -> (img: RgbaImage)
    requires
        swz_ok(width as int, height as int),
        width * height * 4 <= usize::MAX,
        bytes@.len() >= swz_section_count(width as int, height as int) * (swz_dim(
            width as int,
            height as int,
        ) * swz_dim(width as int, height as int)) * 4,
    ensures
        img.wf(),
        is_morton_deswizzle(
            SwzFormat::Rgba8,
            bytes@,
            Seq::<u8>::empty(),
            width as int,
            height as int,
            img,
        ),
{
    deswizzle_xbox_rgba(bytes, width, height)
}

/// Deswizzles a 16-bit 5:5:5 RGB Morton-ordered texture.
pub fn decode_rgb5(bytes: &[u8], width: usize, height: usize) -> (img: RgbaImage)
    requires
        swz_ok(width as int, height as int),
        width * height * 4 <= usize::MAX,
        bytes@.len() >= swz_section_count(width as int, height as int) * (swz_dim(
            width as int,
            height as int,
        ) * swz_dim(width as int, height as int)) * 2,
    ensures
        img.wf(),
        is_morton_deswizzle(
            SwzFormat::Rgb5,
            bytes@,
            Seq::<u8>::empty(),
            width as int,
            height as int,
            img,
        ),
{
    deswizzle_xbox_rgb5(bytes, width, height)
}

} // verus!
