use vstd::prelude::*;
use crate::pixel::{pix_off, quad_at, Rgba, RgbaImage};

verus! {

/// The tiled hardware-native texture formats this platform's records use.
#[derive(Clone, Copy, PartialEq, Eq, Structural, Debug)]
pub enum GcFormat {
    /// 4-bit intensity; used here to recover 4-bit palette indices.
    I4,
    /// 8-bit intensity; used here to recover 8-bit palette indices.
    I8,
    /// 16-bit RGB565, fully opaque.
    Rgb565,
    /// 16-bit RGB5A3.
    Rgb5a3,
    /// 32-bit RGBA8.
    Rgba8,
    /// 4x4-block compressed.
    Cmpr,
}

/// The format's numeric tag, as the hardware encodes it.
pub open spec fn gc_code(f: GcFormat) -> int {
    match f {
        GcFormat::I4 => 0x0,
        GcFormat::I8 => 0x1,
        GcFormat::Rgb565 => 0x4,
        GcFormat::Rgb5a3 => 0x5,
        GcFormat::Rgba8 => 0x6,
        GcFormat::Cmpr => 0xe,
    }
}

/// Tile width in texels of a format.
pub open spec fn gc_block_w(code: int) -> int {
    if code == 0x4 || code == 0x5 || code == 0x6 {
        4
    } else {
        8
    }
}

/// Tile height in texels of a format.
pub open spec fn gc_block_h(code: int) -> int {
    if code == 0x0 || code == 0xe {
        8
    } else {
        4
    }
}

/// Bytes per tile of a format.
pub open spec fn gc_block_bytes(code: int) -> int {
    if code == 0x6 {
        64
    } else {
        32
    }
}

/// Encoded size of a `w x h` texture: one tile for every started block.
pub open spec fn gc_image_size(code: int, w: int, h: int) -> int {
    ((w + gc_block_w(code) - 1) / gc_block_w(code)) * ((h + gc_block_h(code) - 1) / gc_block_h(
        code,
    )) * gc_block_bytes(code)
}

/// The raw sample buffer (row-major, `w * h * 4` bytes) that the tiled
/// decoder produces; a fixed function of its arguments.
pub uninterp spec fn gc_decoded(code: int, data: Seq<u8>, w: int, h: int, tlut_format: int) -> Seq<
    u8,
>;

/// The encoded size never exceeds four bytes for each texel of the
/// tile-padded image.
proof fn lemma_gc_image_size_bound(code: int, w: int, h: int)
    requires
        0 <= w,
        0 <= h,
        code == 0x0 || code == 0x1 || code == 0x4 || code == 0x5 || code == 0x6 || code == 0xe,
    ensures
        0 <= gc_image_size(code, w, h) <= (w + 7) * (h + 7) * 4,
{
    let bw = gc_block_w(code);
    let bh = gc_block_h(code);
    let bb = gc_block_bytes(code);
    let a = (w + bw - 1) / bw;
    let b = (h + bh - 1) / bh;
    vstd::arithmetic::div_mod::lemma_fundamental_div_mod(w + bw - 1, bw);
    vstd::arithmetic::div_mod::lemma_mod_bound(w + bw - 1, bw);
    vstd::arithmetic::div_mod::lemma_fundamental_div_mod(h + bh - 1, bh);
    vstd::arithmetic::div_mod::lemma_mod_bound(h + bh - 1, bh);
    vstd::arithmetic::div_mod::lemma_div_pos_is_pos(w + bw - 1, bw);
    vstd::arithmetic::div_mod::lemma_div_pos_is_pos(h + bh - 1, bh);
    assert(0 <= a * b * bb && a * b * bb <= (w + 7) * (h + 7) * 4) by (nonlinear_arith)
        requires
            bw * a <= w + bw - 1,
            bh * b <= h + bh - 1,
            0 <= a,
            0 <= b,
            4 <= bw <= 8,
            4 <= bh <= 8,
            32 <= bb,
            bb <= 4 * (bw * bh),
            0 <= w,
            0 <= h,
    ;
}

/// Computes the encoded byte size of a `w x h` texture in format `code`.
fn encoded_size(code: u8, w: usize, h: usize) -> (r: usize)
    requires
        w <= 0xffff,
        h <= 0xffff,
        (w + 7) * (h + 7) * 4 <= u32::MAX,
        code == 0x0 || code == 0x1 || code == 0x4 || code == 0x5 || code == 0x6 || code == 0xe,
    ensures
        r == gc_image_size(code as int, w as int, h as int),
        r <= u32::MAX,
{
    let bw: u64 = if code == 0x4 || code == 0x5 || code == 0x6 {
        4
    } else {
        8
    };
    let bh: u64 = if code == 0x0 || code == 0xe {
        8
    } else {
        4
    };
    let bb: u64 = if code == 0x6 {
        64
    } else {
        32
    };
    proof {
        assert((((w as int) + (bw as int) - 1) / (bw as int)) * (((h as int) + (bh as int) - 1)
            / (bh as int)) * (bb as int) <= 0x1000_0000_0000) by (nonlinear_arith)
            requires
                w <= 0xffff,
                h <= 0xffff,
                4 <= bw <= 8,
                4 <= bh <= 8,
                32 <= bb <= 64,
        ;
        lemma_gc_image_size_bound(code as int, w as int, h as int);
    }
    let need: u64 = (((w as u64) + bw - 1) / bw) * (((h as u64) + bh - 1) / bh) * bb;
    need as usize
}

/// Relies on gctex's `decode`: it returns a `width * height * 4` byte buffer
/// computed from the encoded data, the dimensions and the format alone (the
/// palette look-up table is always passed empty here, as the callers only use
/// intensity and direct-color formats). The input must be exactly the encoded
/// size and fit the decoder's 32-bit size arithmetic: the decoder views the
/// data through 16-bit words and checks its length internally, which an
/// exactly sized input (a multiple of the 32- or 64-byte tile) always
/// satisfies.
#[verifier::external_body]
fn gctex_decode(format: GcFormat, data: &[u8], width: usize, height: usize, tlut_format: u32) -> (r:
    Vec<u8>)
    requires
        (width + 7) * (height + 7) * 4 <= u32::MAX,
        data@.len() == gc_image_size(gc_code(format), width as int, height as int),
        data@.len() <= u32::MAX,
    ensures
        r@.len() == width * height * 4,
        r@ == gc_decoded(
            gc_code(format),
            data@,
            width as int,
            height as int,
            tlut_format as int,
        ),
{
    let f = match format {
        GcFormat::I4 => gctex::TextureFormat::I4,
        GcFormat::I8 => gctex::TextureFormat::I8,
        GcFormat::Rgb565 => gctex::TextureFormat::RGB565,
        GcFormat::Rgb5a3 => gctex::TextureFormat::RGB5A3,
        GcFormat::Rgba8 => gctex::TextureFormat::RGBA8,
        GcFormat::Cmpr => gctex::TextureFormat::CMPR,
    };
    gctex::decode(data, width as u32, height as u32, f, &[], tlut_format)
}

/// Palette entry `i` gathered from the two interleaved sub-tables of this
/// platform's palette storage: a (G, R) pair table at the front and an
/// (A, B) pair table `2 * entries` bytes in.
pub open spec fn gc_pal_entry(pal: Seq<u8>, entries: int, i: int) -> Rgba {
    Rgba {
        r: pal[2 * i + 1],
        g: pal[2 * i],
        b: pal[2 * entries + 2 * i + 1],
        a: pal[2 * entries + 2 * i],
    }
}

/// `img` is the direct decode of a tiled texture (no palette), flipped
/// vertically; only the encoded prefix of `data` takes part.
pub open spec fn is_gc_direct_decode(
    code: int,
    data: Seq<u8>,
    w: int,
    h: int,
    img: RgbaImage,
) -> bool {
    &&& img.spec_width() == w
    &&& img.spec_height() == h
    &&& forall|x: int, y: int|
        0 <= x < w && 0 <= y < h ==> #[trigger] img.pixel(x, y) == quad_at(
            gc_decoded(code, data.subrange(0, gc_image_size(code, w, h)), w, h, 0),
            pix_off(w, x, h - 1 - y),
        )
}

/// Decodes a block-compressed tiled texture and flips it vertically.
pub fn decode_cmpr(bytes: &[u8], width: usize, height: usize) -> (img: RgbaImage)
    requires
        width <= 0xffff,
        height <= 0xffff,
        (width + 7) * (height + 7) * 4 <= u32::MAX,
        width * height * 4 <= usize::MAX,
        bytes@.len() >= gc_image_size(0xe, width as int, height as int),
    ensures
        img.wf(),
        is_gc_direct_decode(0xe, bytes@, width as int, height as int, img),
{
    let need: usize = encoded_size(0xe, width, height);
    let data = vstd::slice::slice_subrange(bytes, 0, need);
    let raw = gctex_decode(GcFormat::Cmpr, data, width, height, 0);
    let mid = RgbaImage::from_raw(width, height, raw);
    mid.flip_vertical()
}

/// Decodes an RGB5A3 tiled texture and flips it vertically.
pub fn decode_rgb5a3(bytes: &[u8], width: usize, height: usize) -> (img: RgbaImage)
    requires
        width <= 0xffff,
        height <= 0xffff,
        (width + 7) * (height + 7) * 4 <= u32::MAX,
        width * height * 4 <= usize::MAX,
        bytes@.len() >= gc_image_size(0x5, width as int, height as int),
    ensures
        img.wf(),
        is_gc_direct_decode(0x5, bytes@, width as int, height as int, img),
{
    let need: usize = encoded_size(0x5, width, height);
    let data = vstd::slice::slice_subrange(bytes, 0, need);
    let raw = gctex_decode(GcFormat::Rgb5a3, data, width, height, 0);
    let mid = RgbaImage::from_raw(width, height, raw);
    mid.flip_vertical()
}

/// Decodes an RGB565 tiled texture and flips it vertically.
pub fn decode_rgb565(bytes: &[u8], width: usize, height: usize) -> (img: RgbaImage)
    requires
        width <= 0xffff,
        height <= 0xffff,
        (width + 7) * (height + 7) * 4 <= u32::MAX,
        width * height * 4 <= usize::MAX,
        bytes@.len() >= gc_image_size(0x4, width as int, height as int),
    ensures
        img.wf(),
        is_gc_direct_decode(0x4, bytes@, width as int, height as int, img),
{
    let need: usize = encoded_size(0x4, width, height);
    let data = vstd::slice::slice_subrange(bytes, 0, need);
    let raw = gctex_decode(GcFormat::Rgb565, data, width, height, 0);
    let mid = RgbaImage::from_raw(width, height, raw);
    mid.flip_vertical()
}

/// Decodes an RGBA8 tiled texture and flips it vertically.
pub fn decode_rgba8(bytes: &[u8], width: usize, height: usize) -> (img: RgbaImage)
    requires
        width <= 0xffff,
        height <= 0xffff,
        (width + 7) * (height + 7) * 4 <= u32::MAX,
        width * height * 4 <= usize::MAX,
        bytes@.len() >= gc_image_size(0x6, width as int, height as int),
    ensures
        img.wf(),
        is_gc_direct_decode(0x6, bytes@, width as int, height as int, img),
{
    let need: usize = encoded_size(0x6, width, height);
    let data = vstd::slice::slice_subrange(bytes, 0, need);
    let raw = gctex_decode(GcFormat::Rgba8, data, width, height, 0);
    let mid = RgbaImage::from_raw(width, height, raw);
    mid.flip_vertical()
}

/// Gathers a palette into plain RGBA quads, entry `i` taking red and green
/// from the (G, R) table and blue and alpha from the offset (A, B) table.
pub fn reorder_palette(palette: &[u8], entries: usize) -> (r: Vec<u8>)
    requires
        palette@.len() >= 4 * entries,
        entries * 4 <= usize::MAX,
    ensures
        r@.len() == 4 * entries,
        forall|i: int|
            0 <= i < entries ==> #[trigger] quad_at(r@, 4 * i) == gc_pal_entry(
                palette@,
                entries as int,
                i,
            ),
{
    let mut r: Vec<u8> = Vec::new();
    let mut i: usize = 0;
    while i < entries
        invariant
            i <= entries,
            r@.len() == 4 * i,
            palette@.len() >= 4 * entries,
            entries * 4 <= usize::MAX,
            forall|j: int|
                0 <= j < i ==> #[trigger] quad_at(r@, 4 * j) == gc_pal_entry(
                    palette@,
                    entries as int,
                    j,
                ),
        decreases entries - i,
    {
        let ghost r0 = r@;
        r.push(palette[(i * 2) + 1]);
        r.push(palette[i * 2]);
        r.push(palette[(i * 2) + (entries * 2) + 1]);
        r.push(palette[(i * 2) + (entries * 2)]);
        proof {
            assert forall|j: int|
                0 <= j < i + 1 implies #[trigger] quad_at(r@, 4 * j) == gc_pal_entry(
                palette@,
                entries as int,
                j,
            ) by {
                if j == i {
                    assert(r@[4 * j] == palette@[2 * j + 1]);
                    assert(r@[4 * j + 1] == palette@[2 * j]);
                    assert(r@[4 * j + 2] == palette@[2 * (entries as int) + 2 * j + 1]);
                    assert(r@[4 * j + 3] == palette@[2 * (entries as int) + 2 * j]);
                } else {
                    assert(r@[4 * j] == r0[4 * j]);
                    assert(r@[4 * j + 1] == r0[4 * j + 1]);
                    assert(r@[4 * j + 2] == r0[4 * j + 2]);
                    assert(r@[4 * j + 3] == r0[4 * j + 3]);
                    assert(quad_at(r0, 4 * j) == gc_pal_entry(palette@, entries as int, j));
                }
            }
        }
        i = i + 1;
    }
    r
}

/// Maps each decoded sample through the reordered palette: sample `i` (its
/// first channel byte, divided by `shift_div` to recover the index) selects
/// palette entry bytes.
fn apply_palette(raw: &Vec<u8>, n: usize, pal: &Vec<u8>, shift_div: usize) -> (r: Vec<u8>)
    requires
        raw@.len() >= n * 4,
        shift_div == 1 || shift_div == 16,
        shift_div == 16 ==> pal@.len() >= 64,
        shift_div == 1 ==> pal@.len() >= 1024,
        n * 4 <= usize::MAX,
    ensures
        r@.len() == n * 4,
        forall|i: int|
            0 <= i < n ==> #[trigger] quad_at(r@, 4 * i) == quad_at(
                pal@,
                4 * ((raw@[4 * i] as int) / (shift_div as int)),
            ),
{
    let mut r: Vec<u8> = Vec::new();
    let mut i: usize = 0;
    while i < n
        invariant
            i <= n,
            r@.len() == 4 * i,
            raw@.len() >= n * 4,
            shift_div == 1 || shift_div == 16,
            shift_div == 16 ==> pal@.len() >= 64,
            shift_div == 1 ==> pal@.len() >= 1024,
            n * 4 <= usize::MAX,
            forall|j: int|
                0 <= j < i ==> #[trigger] quad_at(r@, 4 * j) == quad_at(
                    pal@,
                    4 * ((raw@[4 * j] as int) / (shift_div as int)),
                ),
        decreases n - i,
    {
        proof {
            assert(4 * (i as int) + 4 <= 4 * (n as int)) by (nonlinear_arith)
                requires
                    0 <= i < n,
            ;
        }
        let idx: usize = (raw[i * 4] as usize) / shift_div;
        let p0: u8 = pal[idx * 4];
        let p1: u8 = pal[idx * 4 + 1];
        let p2: u8 = pal[idx * 4 + 2];
        let p3: u8 = pal[idx * 4 + 3];
        let ghost r0 = r@;
        r.push(p0);
        r.push(p1);
        r.push(p2);
        r.push(p3);
        proof {
            assert forall|j: int|
                0 <= j < i + 1 implies #[trigger] quad_at(r@, 4 * j) == quad_at(
                pal@,
                4 * ((raw@[4 * j] as int) / (shift_div as int)),
            ) by {
                if j == i {
                    assert(r@[4 * j] == p0);
                    assert(r@[4 * j + 1] == p1);
                    assert(r@[4 * j + 2] == p2);
                    assert(r@[4 * j + 3] == p3);
                    assert(4 * (idx as int) == 4 * ((raw@[4 * j] as int) / (shift_div as int)));
                } else {
                    assert(r@[4 * j] == r0[4 * j]);
                    assert(r@[4 * j + 1] == r0[4 * j + 1]);
                    assert(r@[4 * j + 2] == r0[4 * j + 2]);
                    assert(r@[4 * j + 3] == r0[4 * j + 3]);
                    assert(quad_at(r0, 4 * j) == quad_at(
                        pal@,
                        4 * ((raw@[4 * j] as int) / (shift_div as int)),
                    ));
                }
            }
        }
        i = i + 1;
    }
    r
}

/// `img` is the decode of a 4-bit palette-indexed tiled texture: the tiled
/// decoder linearizes the indices, the reordered palette colors them, and
/// the result is flipped vertically.
pub open spec fn is_gc_c4_decode(
    data: Seq<u8>,
    pal: Seq<u8>,
    w: int,
    h: int,
    img: RgbaImage,
) -> bool {
    &&& img.spec_width() == w
    &&& img.spec_height() == h
    &&& forall|x: int, y: int|
        0 <= x < w && 0 <= y < h ==> #[trigger] img.pixel(x, y) == gc_pal_entry(
            pal,
            16,
            (gc_decoded(0x0, data.subrange(0, gc_image_size(0x0, w, h)), w, h, 0)[4 * ((h - 1
                - y) * w + x)] as int) / 16,
        )
}

/// `img` is the decode of an 8-bit palette-indexed tiled texture.
pub open spec fn is_gc_c8_decode(
    data: Seq<u8>,
    pal: Seq<u8>,
    w: int,
    h: int,
    img: RgbaImage,
) -> bool {
    &&& img.spec_width() == w
    &&& img.spec_height() == h
    &&& forall|x: int, y: int|
        0 <= x < w && 0 <= y < h ==> #[trigger] img.pixel(x, y) == gc_pal_entry(
            pal,
            256,
            gc_decoded(0x1, data.subrange(0, gc_image_size(0x1, w, h)), w, h, 1)[4 * ((h - 1
                - y) * w + x)] as int,
        )
}

/// Decodes a 4-bit palette-indexed tiled texture through a 16-entry palette.
pub fn decode_c4(bytes: &[u8], width: usize, height: usize, palette: &[u8]) -> (img: RgbaImage)
    requires
        width <= 0xffff,
        height <= 0xffff,
        (width + 7) * (height + 7) * 4 <= u32::MAX,
        width * height * 4 <= usize::MAX,
        bytes@.len() >= gc_image_size(0x0, width as int, height as int),
        palette@.len() >= 64,
    ensures
        img.wf(),
        is_gc_c4_decode(bytes@, palette@, width as int, height as int, img),
{
    let need: usize = encoded_size(0x0, width, height);
    let data = vstd::slice::slice_subrange(bytes, 0, need);
    let ghost trimmed = bytes@.subrange(0, gc_image_size(0x0, width as int, height as int));
    let raw = gctex_decode(GcFormat::I4, data, width, height, 0);
    let pal = reorder_palette(palette, 16);
    let n: usize = width * height;
    proof {
        assert(n * 4 == width * height * 4) by (nonlinear_arith)
            requires
                n == width * height,
        ;
    }
    let pixels = apply_palette(&raw, n, &pal, 16);
    let mid = RgbaImage::from_raw(width, height, pixels);
    proof {
        assert forall|x: int, y: int|
            0 <= x < width && 0 <= y < height implies #[trigger] mid.pixel(x, y) == gc_pal_entry(
            palette@,
            16,
            (gc_decoded(0x0, trimmed, width as int, height as int, 0)[4 * (y * width + x)] as int)
                / 16,
        ) by {
            assert(0 <= y * width + x < n && pix_off(width as int, x, y) == 4 * (y * width + x))
                by (nonlinear_arith)
                requires
                    0 <= x < width,
                    0 <= y < height,
                    n == width * height,
            ;
            let idx = (gc_decoded(0x0, trimmed, width as int, height as int, 0)[4 * (y * width
                + x)] as int) / 16;
            assert(0 <= idx < 16) by (nonlinear_arith)
                requires
                    idx == (gc_decoded(0x0, trimmed, width as int, height as int, 0)[4 * (y * width
                        + x)] as int) / 16,
                    0 <= gc_decoded(0x0, trimmed, width as int, height as int, 0)[4 * (y * width
                        + x)] < 256,
            ;
        }
    }
    mid.flip_vertical()
}

/// Decodes an 8-bit palette-indexed tiled texture through a 256-entry
/// palette.
pub fn decode_c8(bytes: &[u8], width: usize, height: usize, palette: &[u8]) -> (img: RgbaImage)
    requires
        width <= 0xffff,
        height <= 0xffff,
        (width + 7) * (height + 7) * 4 <= u32::MAX,
        width * height * 4 <= usize::MAX,
        bytes@.len() >= gc_image_size(0x1, width as int, height as int),
        palette@.len() >= 1024,
    ensures
        img.wf(),
        is_gc_c8_decode(bytes@, palette@, width as int, height as int, img),
{
    let need: usize = encoded_size(0x1, width, height);
    let data = vstd::slice::slice_subrange(bytes, 0, need);
    let ghost trimmed = bytes@.subrange(0, gc_image_size(0x1, width as int, height as int));
    let raw = gctex_decode(GcFormat::I8, data, width, height, 1);
    let pal = reorder_palette(palette, 256);
    let n: usize = width * height;
    proof {
        assert(n * 4 == width * height * 4) by (nonlinear_arith)
            requires
                n == width * height,
        ;
    }
    let pixels = apply_palette(&raw, n, &pal, 1);
    let mid = RgbaImage::from_raw(width, height, pixels);
    proof {
        assert forall|x: int, y: int|
            0 <= x < width && 0 <= y < height implies #[trigger] mid.pixel(x, y) == gc_pal_entry(
            palette@,
            256,
            gc_decoded(0x1, trimmed, width as int, height as int, 1)[4 * (y * width + x)] as int,
        ) by {
            assert(0 <= y * width + x < n && pix_off(width as int, x, y) == 4 * (y * width + x))
                by (nonlinear_arith)
                requires
                    0 <= x < width,
                    0 <= y < height,
                    n == width * height,
            ;
        }
    }
    mid.flip_vertical()
}

} // verus!
