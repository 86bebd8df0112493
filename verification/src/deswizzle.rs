use vstd::prelude::*;
use crate::pixel::{quad_at, Rgba, RgbaImage};

verus! {

/// Keeps the even-position bits of `v` and packs them contiguously into the
/// low half: bit `2*j` of `v` becomes bit `j` of the result.
pub open spec fn compact_bits(v: u32) -> u32 {
    let v0 = v & 0x55555555;
    let v1 = (v0 ^ (v0 >> 1)) & 0x33333333;
    let v2 = (v1 ^ (v1 >> 2)) & 0x0f0f0f0f;
    let v3 = (v2 ^ (v2 >> 4)) & 0x00ff00ff;
    (v3 ^ (v3 >> 8)) & 0x0000ffff
}

/// Spreads the low 16 bits of `v` apart: bit `j` of `v` becomes bit `2*j` of
/// the result.
pub open spec fn spread_bits(v: u32) -> u32 {
    let v0 = v & 0x0000ffff;
    let v1 = (v0 ^ (v0 << 8)) & 0x00ff00ff;
    let v2 = (v1 ^ (v1 << 4)) & 0x0f0f0f0f;
    let v3 = (v2 ^ (v2 << 2)) & 0x33333333;
    (v3 ^ (v3 << 1)) & 0x55555555
}

/// The Morton (Z-order) interleave of two 16-bit coordinates: bits of `x` at
/// even positions, bits of `y` at odd positions.
pub open spec fn interleave_bits(x: u32, y: u32) -> u32 {
    spread_bits(x) | (spread_bits(y) << 1)
}

/// De-interleaving a linear index and re-interleaving the two halves restores
/// the index: the Morton mapping loses nothing.
pub proof fn lemma_morton_roundtrip(i: u32)
    by (bit_vector)
    ensures
        interleave_bits(compact_bits(i), compact_bits(i >> 1)) == i,
{
}

/// Interleaving two 16-bit coordinates and de-interleaving gives them back:
/// together with `lemma_morton_roundtrip` this makes the Morton mapping a
/// bijection between indices and coordinate pairs.
pub proof fn lemma_morton_inverse(x: u32, y: u32)
    by (bit_vector)
    requires
        x < 0x10000,
        y < 0x10000,
    ensures
        compact_bits(interleave_bits(x, y)) == x,
        compact_bits(interleave_bits(x, y) >> 1) == y,
{
}

/// An index below `4^k` de-interleaves to two coordinates below `2^k`.
pub proof fn lemma_compact_bound(i: u32, k: u32)
    by (bit_vector)
    requires
        k <= 15,
        i < (1u32 << (2 * k)),
    ensures
        compact_bits(i) < (1u32 << k),
        compact_bits(i >> 1) < (1u32 << k),
{
}

/// Two coordinates below `2^k` interleave to an index below `4^k`.
pub proof fn lemma_interleave_bound(x: u32, y: u32, k: u32)
    by (bit_vector)
    requires
        k <= 15,
        x < (1u32 << k),
        y < (1u32 << k),
    ensures
        interleave_bits(x, y) < (1u32 << (2 * k)),
{
}

/// `d` is a positive power of two.
pub open spec fn is_pow2(d: int) -> bool
    decreases d,
{
    if d <= 0 {
        false
    } else if d == 1 {
        true
    } else {
        d % 2 == 0 && is_pow2(d / 2)
    }
}

/// Every power of two up to `0x8000` is `1 << k` for some `k <= 15`.
pub proof fn lemma_pow2_exponent(d: int) -> (k: u32)
    requires
        is_pow2(d),
        d <= 0x8000,
    ensures
        k <= 15,
        d == (1u32 << k),
    decreases d,
{
    if d == 1 {
        assert(1u32 << 0 == 1) by (bit_vector);
        0u32
    } else {
        let k1 = lemma_pow2_exponent(d / 2);
        assert(k1 <= 15 && (1u32 << k1) <= 0x4000 ==> k1 <= 14) by (bit_vector);
        assert(k1 <= 14 ==> (1u32 << ((k1 + 1) as u32)) == 2 * (1u32 << k1)) by (bit_vector);
        (k1 + 1) as u32
    }
}

/// Decides whether `d` is a positive power of two.
pub fn is_power_of_two(d: usize) -> (r: bool)
    ensures
        r == is_pow2(d as int),
{
    let mut v: usize = d;
    if v == 0 {
        return false;
    }
    while v % 2 == 0
        invariant
            v >= 1,
            is_pow2(v as int) == is_pow2(d as int),
        decreases v,
    {
        v = v / 2;
    }
    v == 1
}

/// Packs the even-position bits of `x` contiguously; the address half-step of
/// the Morton de-interleave.
pub fn compact(x: usize) -> (r: usize)
    requires
        x <= u32::MAX,
    ensures
        r == compact_bits(x as u32),
        r <= 0xffff,
{
    let mut v: u32 = x as u32;
    v = v & 0x55555555;
    v = (v ^ (v >> 1)) & 0x33333333;
    v = (v ^ (v >> 2)) & 0x0f0f0f0f;
    v = (v ^ (v >> 4)) & 0x00ff00ff;
    v = (v ^ (v >> 8)) & 0x0000ffff;
    proof {
        assert(compact_bits(x as u32) <= 0xffff) by (bit_vector);
    }
    v as usize
}

/// How the source elements of a Morton-swizzled texture turn into pixels.
#[derive(Clone, Copy, PartialEq, Eq, Structural, Debug)]
pub enum SwzFormat {
    /// One byte per pixel, an index into a 256-entry RGBA palette.
    Palette,
    /// Four bytes per pixel, RGBA.
    Rgba8,
    /// Two bytes per pixel, little-endian 5:5:5 RGB, opaque alpha.
    Rgb5,
}

/// Bytes per source element of a swizzled format.
pub open spec fn swz_elem_size(f: SwzFormat) -> int {
    match f {
        SwzFormat::Palette => 1,
        SwzFormat::Rgba8 => 4,
        SwzFormat::Rgb5 => 2,
    }
}

/// A 16-bit 5:5:5 RGB value widened to RGBA8 by shifting each channel up
/// three bits; alpha is fully opaque.
pub open spec fn rgb5_quad(bits: u16) -> Rgba {
    Rgba {
        r: (((bits & 0x7c00) >> 10) << 3) as u8,
        g: (((bits & 0x03e0) >> 5) << 3) as u8,
        b: ((bits & 0x001f) << 3) as u8,
        a: 255u8,
    }
}

/// The pixel that source element `idx` of a swizzled texture decodes to.
pub open spec fn swz_color(f: SwzFormat, bytes: Seq<u8>, palette: Seq<u8>, idx: int) -> Rgba {
    match f {
        SwzFormat::Palette => quad_at(palette, 4 * (bytes[idx] as int)),
        SwzFormat::Rgba8 => quad_at(bytes, 4 * idx),
        SwzFormat::Rgb5 => rgb5_quad(crate::u16_at(crate::Endianness::Little, bytes, 2 * idx) as u16),
    }
}

/// Side length of the square sections a swizzled texture is cut into: the
/// smaller of the two dimensions.
pub open spec fn swz_dim(w: int, h: int) -> int {
    if w <= h {
        w
    } else {
        h
    }
}

/// Number of square sections: the larger dimension over the smaller.
pub open spec fn swz_section_count(w: int, h: int) -> int {
    if w >= h {
        w / h
    } else {
        h / w
    }
}

/// Whether destination pixel `(x, y)` lies in one of the decoded sections.
/// Pixels outside (possible only when one dimension does not divide the
/// other) stay transparent black.
pub open spec fn swz_covered(w: int, h: int, x: int, y: int) -> bool {
    if w >= h {
        x < swz_section_count(w, h) * h
    } else {
        y < swz_section_count(w, h) * w
    }
}

/// Source element index feeding destination pixel `(x, y)`: the section the
/// pixel falls in (sections stack in reverse order when the texture is
/// taller than wide), then the Morton interleave of the local coordinates,
/// with the row flipped inside the section.
pub open spec fn swz_src_index(w: int, h: int, x: int, y: int) -> int {
    let dim = swz_dim(w, h);
    let k = if w >= h {
        x / dim
    } else {
        swz_section_count(w, h) - 1 - (y / dim)
    };
    k * (dim * dim) + interleave_bits((x % dim) as u32, (dim - 1 - (y % dim)) as u32) as int
}

/// The dimensions a Morton-swizzled texture must have for the address
/// translation to stay inside the image: the section side is a power of two.
pub open spec fn swz_ok(w: int, h: int) -> bool {
    &&& 1 <= w
    &&& 1 <= h
    &&& is_pow2(swz_dim(w, h))
    &&& swz_dim(w, h) <= 0x8000
}

/// `img` is the Morton deswizzle of `bytes` under format `f`: every covered
/// destination pixel holds the color of its source element, every other
/// pixel is transparent black.
pub open spec fn is_morton_deswizzle(
    f: SwzFormat,
    bytes: Seq<u8>,
    palette: Seq<u8>,
    w: int,
    h: int,
    img: RgbaImage,
) -> bool {
    &&& img.spec_width() == w
    &&& img.spec_height() == h
    &&& forall|x: int, y: int|
        0 <= x < w && 0 <= y < h ==> #[trigger] img.pixel(x, y) == (if swz_covered(w, h, x, y) {
            swz_color(f, bytes, palette, swz_src_index(w, h, x, y))
        } else {
            Rgba { r: 0, g: 0, b: 0, a: 0 }
        })
}

proof fn lemma_interleave_in_square(dim: int, xl: int, yl: int)
    requires
        is_pow2(dim),
        dim <= 0x8000,
        0 <= xl < dim,
        0 <= yl < dim,
    ensures
        0 <= interleave_bits(xl as u32, yl as u32) < dim * dim,
{
    let k = lemma_pow2_exponent(dim);
    assert(k <= 15 ==> (1u32 << (2 * k)) == (1u32 << k) * (1u32 << k)) by (bit_vector);
    assert(dim * dim == (1u32 << k) * (1u32 << k)) by (nonlinear_arith)
        requires
            dim == (1u32 << k),
    ;
    lemma_interleave_bound(xl as u32, yl as u32, k);
}

/// The two-level section-plus-Morton addressing never reuses a source
/// element: two distinct covered destination pixels read from two distinct
/// source indices, so the decoded sections tile the image with no overlap.
pub proof fn lemma_swz_src_injective(w: int, h: int, x1: int, y1: int, x2: int, y2: int)
    requires
        swz_ok(w, h),
        0 <= x1 < w,
        0 <= y1 < h,
        0 <= x2 < w,
        0 <= y2 < h,
        swz_covered(w, h, x1, y1),
        swz_covered(w, h, x2, y2),
        (x1, y1) != (x2, y2),
    ensures
        swz_src_index(w, h, x1, y1) != swz_src_index(w, h, x2, y2),
{
    let dim = swz_dim(w, h);
    let count = swz_section_count(w, h);
    let k1 = if w >= h {
        x1 / dim
    } else {
        count - 1 - (y1 / dim)
    };
    let k2 = if w >= h {
        x2 / dim
    } else {
        count - 1 - (y2 / dim)
    };
    vstd::arithmetic::div_mod::lemma_fundamental_div_mod(x1, dim);
    vstd::arithmetic::div_mod::lemma_fundamental_div_mod(x2, dim);
    vstd::arithmetic::div_mod::lemma_fundamental_div_mod(y1, dim);
    vstd::arithmetic::div_mod::lemma_fundamental_div_mod(y2, dim);
    vstd::arithmetic::div_mod::lemma_mod_bound(x1, dim);
    vstd::arithmetic::div_mod::lemma_mod_bound(x2, dim);
    vstd::arithmetic::div_mod::lemma_mod_bound(y1, dim);
    vstd::arithmetic::div_mod::lemma_mod_bound(y2, dim);
    let j1 = interleave_bits((x1 % dim) as u32, (dim - 1 - (y1 % dim)) as u32);
    let j2 = interleave_bits((x2 % dim) as u32, (dim - 1 - (y2 % dim)) as u32);
    lemma_interleave_in_square(dim, x1 % dim, dim - 1 - (y1 % dim));
    lemma_interleave_in_square(dim, x2 % dim, dim - 1 - (y2 % dim));
    if k1 == k2 {
        if w >= h {
            assert(y1 % dim == y1 && y2 % dim == y2) by {
                lemma_div_mod_section(dim, 0, y1);
                lemma_div_mod_section(dim, 0, y2);
            }
            assert((x1 % dim, y1 % dim) != (x2 % dim, y2 % dim));
        } else {
            assert(x1 % dim == x1 && x2 % dim == x2) by {
                lemma_div_mod_section(dim, 0, x1);
                lemma_div_mod_section(dim, 0, x2);
            }
            assert(y1 / dim == y2 / dim);
            assert((x1 % dim, y1 % dim) != (x2 % dim, y2 % dim));
        }
        lemma_morton_inverse((x1 % dim) as u32, (dim - 1 - (y1 % dim)) as u32);
        lemma_morton_inverse((x2 % dim) as u32, (dim - 1 - (y2 % dim)) as u32);
        assert(j1 != j2);
        assert(k1 * (dim * dim) + j1 != k2 * (dim * dim) + j2);
    } else {
        assert(k1 * (dim * dim) + j1 != k2 * (dim * dim) + j2) by (nonlinear_arith)
            requires
                k1 != k2,
                0 <= j1 < dim * dim,
                0 <= j2 < dim * dim,
        ;
    }
}

proof fn lemma_div_mod_section(dim: int, k: int, x: int)
    by (nonlinear_arith)
    requires
        dim > 0,
        0 <= k,
        k * dim <= x < (k + 1) * dim,
    ensures
        x / dim == k,
        x % dim == x - k * dim,
{
}

/// Decodes the colors of the `n` source elements starting at element `start`.
fn section_colors(f: SwzFormat, bytes: &[u8], start: usize, n: usize, palette: &[u8]) -> (r: Vec<
    Rgba,
>)
    requires
        (start + n) * swz_elem_size(f) <= bytes@.len(),
        f == SwzFormat::Palette ==> palette@.len() >= 1024,
        (start + n) * swz_elem_size(f) <= usize::MAX,
    ensures
        r@.len() == n,
        forall|j: int| 0 <= j < n ==> r@[j] == swz_color(f, bytes@, palette@, start + j),
{
    let mut r: Vec<Rgba> = Vec::new();
    let mut j: usize = 0;
    while j < n
        invariant
            j <= n,
            r@.len() == j,
            (start + n) * swz_elem_size(f) <= bytes@.len(),
            (start + n) * swz_elem_size(f) <= usize::MAX,
            f == SwzFormat::Palette ==> palette@.len() >= 1024,
            forall|j2: int| 0 <= j2 < j ==> r@[j2] == swz_color(f, bytes@, palette@, start + j2),
        decreases n - j,
    {
        proof {
            assert((start + j + 1) * swz_elem_size(f) <= (start + n) * swz_elem_size(f))
                by (nonlinear_arith)
                requires
                    j < n,
                    swz_elem_size(f) >= 1,
            ;
        }
        let c: Rgba = match f {
            SwzFormat::Palette => {
                let idx: usize = bytes[start + j] as usize;
                Rgba {
                    r: palette[idx * 4],
                    g: palette[idx * 4 + 1],
                    b: palette[idx * 4 + 2],
                    a: palette[idx * 4 + 3],
                }
            },
            SwzFormat::Rgba8 => {
                let off: usize = (start + j) * 4;
                Rgba { r: bytes[off], g: bytes[off + 1], b: bytes[off + 2], a: bytes[off + 3] }
            },
            SwzFormat::Rgb5 => {
                let bits: u16 = crate::read_u16(crate::Endianness::Little, bytes, (start + j) * 2);
                Rgba {
                    r: ((bits & 0x7c00) >> 10 << 3) as u8,
                    g: ((bits & 0x03e0) >> 5 << 3) as u8,
                    b: ((bits & 0x001f) << 3) as u8,
                    a: 255,
                }
            },
        };
        r.push(c);
        j = j + 1;
    }
    r
}

/// Writes one `dim x dim` section of pre-decoded colors into the output in
/// Morton order, with the mandatory per-section vertical flip.
fn write_section(colors: &Vec<Rgba>, dim: usize, output: &mut RgbaImage, x_off: usize, y_off: usize)
    requires
        is_pow2(dim as int),
        dim <= 0x8000,
        colors@.len() == dim * dim,
        old(output).wf(),
        x_off + dim <= old(output).spec_width(),
        y_off + dim <= old(output).spec_height(),
    ensures
        final(output).wf(),
        final(output).spec_width() == old(output).spec_width(),
        final(output).spec_height() == old(output).spec_height(),
        forall|x: int, y: int|
            x_off <= x < x_off + dim && y_off <= y < y_off + dim ==> #[trigger] final(output).pixel(
                x,
                y,
            ) == colors@[interleave_bits((x - x_off) as u32, (dim - 1 - (y - y_off)) as u32) as int],
        forall|x: int, y: int|
            0 <= x < old(output).spec_width() && 0 <= y < old(output).spec_height() && !(x_off <= x
                < x_off + dim && y_off <= y < y_off + dim) ==> #[trigger] final(output).pixel(x, y)
                == old(output).pixel(x, y),
{
    let ghost out0 = *old(output);
    proof {
        let k = lemma_pow2_exponent(dim as int);
        assert(k <= 15 ==> (1u32 << (2 * k)) == (1u32 << k) * (1u32 << k)) by (bit_vector);
    }
    let n: usize = dim * dim;
    let mut i: usize = 0;
    while i < n
        invariant
            i <= n,
            n == dim * dim,
            is_pow2(dim as int),
            dim <= 0x8000,
            colors@.len() == n,
            output.wf(),
            output.spec_width() == out0.spec_width(),
            output.spec_height() == out0.spec_height(),
            out0.wf(),
            x_off + dim <= out0.spec_width(),
            y_off + dim <= out0.spec_height(),
            forall|x: int, y: int|
                x_off <= x < x_off + dim && y_off <= y < y_off + dim && interleave_bits(
                    (x - x_off) as u32,
                    (dim - 1 - (y - y_off)) as u32,
                ) < i ==> #[trigger] output.pixel(x, y) == colors@[interleave_bits(
                    (x - x_off) as u32,
                    (dim - 1 - (y - y_off)) as u32,
                ) as int],
            forall|x: int, y: int|
                x_off <= x < x_off + dim && y_off <= y < y_off + dim && interleave_bits(
                    (x - x_off) as u32,
                    (dim - 1 - (y - y_off)) as u32,
                ) >= i ==> #[trigger] output.pixel(x, y) == out0.pixel(x, y),
            forall|x: int, y: int|
                0 <= x < out0.spec_width() && 0 <= y < out0.spec_height() && !(x_off <= x < x_off
                    + dim && y_off <= y < y_off + dim) ==> #[trigger] output.pixel(x, y)
                    == out0.pixel(x, y),
        decreases n - i,
    {
        proof {
            let k = lemma_pow2_exponent(dim as int);
            assert(k <= 15 ==> (1u32 << (2 * k)) == (1u32 << k) * (1u32 << k) && (1u32 << (2 * k))
                <= 0x4000_0000) by (bit_vector);
            assert(dim * dim == (1u32 << k) * (1u32 << k)) by (nonlinear_arith)
                requires
                    dim == (1u32 << k),
            ;
            assert(i < 0x4000_0000);
            assert(i as u32 == i);
            assert((i as u32) < (1u32 << (2 * k)));
            lemma_compact_bound(i as u32, k);
            assert(compact_bits(i as u32) < dim);
            assert(((i as usize) >> 1) as u32 == (i as u32) >> 1) by (bit_vector)
                requires
                    i <= 0x4000_0000usize,
            ;
            assert(compact_bits((i as u32) >> 1) < dim);
        }
        let x: usize = compact(i);
        let y: usize = compact(i >> 1);
        proof {
            out0.lemma_dims_in_range();
        }
        let ghost prev = *output;
        output.put_pixel(x + x_off, (dim - 1 - y) + y_off, colors[i]);
        proof {
            lemma_morton_roundtrip(i as u32);
            let xw = (x + x_off) as int;
            let yw = ((dim - 1 - y) + y_off) as int;
            assert(interleave_bits((xw - x_off) as u32, (dim - 1 - (yw - y_off)) as u32)
                == i as u32);
            assert forall|x2: int, y2: int|
                x_off <= x2 < x_off + dim && y_off <= y2 < y_off + dim && interleave_bits(
                    (x2 - x_off) as u32,
                    (dim - 1 - (y2 - y_off)) as u32,
                ) < i + 1 implies #[trigger] output.pixel(x2, y2) == colors@[interleave_bits(
                (x2 - x_off) as u32,
                (dim - 1 - (y2 - y_off)) as u32,
            ) as int] by {
                let j = interleave_bits((x2 - x_off) as u32, (dim - 1 - (y2 - y_off)) as u32);
                if (x2, y2) == (xw, yw) {
                    assert(j == i as u32);
                } else {
                    lemma_morton_inverse((x2 - x_off) as u32, (dim - 1 - (y2 - y_off)) as u32);
                    assert(j != i as u32);
                    assert(output.pixel(x2, y2) == prev.pixel(x2, y2));
                }
            }
            assert forall|x2: int, y2: int|
                x_off <= x2 < x_off + dim && y_off <= y2 < y_off + dim && interleave_bits(
                    (x2 - x_off) as u32,
                    (dim - 1 - (y2 - y_off)) as u32,
                ) >= i + 1 implies #[trigger] output.pixel(x2, y2) == out0.pixel(x2, y2) by {
                lemma_morton_inverse((x2 - x_off) as u32, (dim - 1 - (y2 - y_off)) as u32);
            }
        }
        i = i + 1;
    }
    proof {
        let k = lemma_pow2_exponent(dim as int);
        assert(k <= 15 ==> (1u32 << (2 * k)) == (1u32 << k) * (1u32 << k)) by (bit_vector);
        assert(dim * dim == (1u32 << k) * (1u32 << k)) by (nonlinear_arith)
            requires
                dim == (1u32 << k),
        ;
        assert forall|x: int, y: int|
            x_off <= x < x_off + dim && y_off <= y < y_off + dim implies #[trigger] output.pixel(
            x,
            y,
        ) == colors@[interleave_bits((x - x_off) as u32, (dim - 1 - (y - y_off)) as u32) as int] by {
            lemma_interleave_bound((x - x_off) as u32, (dim - 1 - (y - y_off)) as u32, k);
        }
    }
}

/// Decodes a whole Morton-swizzled texture: the source is cut into square
/// sections of side `min(width, height)`, each section is deswizzled
/// independently, and sections are placed left-to-right when the texture is
/// wider than tall, or stacked bottom-up when taller than wide.
fn deswizzle_morton(f: SwzFormat, bytes: &[u8], width: usize, height: usize, palette: &[u8]) -> (img:
    RgbaImage)
    requires
        swz_ok(width as int, height as int),
        width * height * 4 <= usize::MAX,
        bytes@.len() >= swz_section_count(width as int, height as int) * (swz_dim(
            width as int,
            height as int,
        ) * swz_dim(width as int, height as int)) * swz_elem_size(f),
        f == SwzFormat::Palette ==> palette@.len() >= 1024,
    ensures
        img.wf(),
        is_morton_deswizzle(f, bytes@, palette@, width as int, height as int, img),
{
    let ghost w = width as int;
    let ghost h = height as int;
    let ghost dimg = swz_dim(w, h);
    let ghost countg = swz_section_count(w, h);
    let ghost esz = swz_elem_size(f);
    let blen: usize = bytes.len();
    let mut img = RgbaImage::new(width, height);
    if width >= height {
        let dim: usize = height;
        let count: usize = width / height;
        proof {
            assert(countg * (dimg * dimg) * esz >= 0) by (nonlinear_arith)
                requires
                    countg >= 0 && dimg >= 0 && esz >= 0,
            ;
        }
        let mut k: usize = 0;
        while k < count
            invariant
                k <= count,
                dim == dimg,
                count == countg,
                1 <= esz <= 4,
                esz == swz_elem_size(f),
                width >= height,
                w == width as int,
                h == height as int,
                dimg == swz_dim(w, h),
                countg == swz_section_count(w, h),
                swz_ok(w, h),
                bytes@.len() == blen,
                blen >= countg * (dimg * dimg) * esz,
                f == SwzFormat::Palette ==> palette@.len() >= 1024,
                img.wf(),
                img.spec_width() == w,
                img.spec_height() == h,
                forall|x: int, y: int|
                    0 <= x < w && 0 <= y < h && x < k * dimg ==> #[trigger] img.pixel(x, y)
                        == swz_color(f, bytes@, palette@, swz_src_index(w, h, x, y)),
                forall|x: int, y: int|
                    0 <= x < w && 0 <= y < h && x >= k * dimg ==> #[trigger] img.pixel(x, y) == (
                    Rgba { r: 0, g: 0, b: 0, a: 0 }),
            decreases count - k,
        {
            proof {
                vstd::arithmetic::div_mod::lemma_fundamental_div_mod(w, dimg);
                vstd::arithmetic::div_mod::lemma_mod_bound(w, dimg);
                assert(countg * dimg <= w && (k + 1) * dimg <= countg * dimg && k * dimg + dimg == (
                k + 1) * dimg && (k + 1) * (dimg * dimg) * esz <= countg * (dimg * dimg) * esz && k
                    * (dimg * dimg) + dimg * dimg == (k + 1) * (dimg * dimg) && k * (dimg * dimg)
                    >= 0 && ((k * (dimg * dimg)) + (dimg * dimg)) * esz == (k + 1) * (dimg * dimg)
                    * esz) by (nonlinear_arith)
                    requires
                        0 <= k < countg,
                        1 <= dimg,
                        1 <= esz,
                        w == dimg * countg + (w % dimg),
                        0 <= w % dimg,
                ;
            }
            let start: usize = k * (dim * dim);
            let colors = section_colors(f, bytes, start, dim * dim, palette);
            let ghost img_before = img;
            write_section(&colors, dim, &mut img, k * dim, 0);
            proof {
                assert forall|x: int, y: int|
                    0 <= x < w && 0 <= y < h && x < (k + 1) * dimg implies #[trigger] img.pixel(
                    x,
                    y,
                ) == swz_color(f, bytes@, palette@, swz_src_index(w, h, x, y)) by {
                    if x >= k * dimg {
                        lemma_div_mod_section(dimg, k as int, x);
                        lemma_div_mod_section(dimg, 0, y);
                        lemma_interleave_in_square(dimg, x - k * dimg, dimg - 1 - y);
                        assert(img.pixel(x, y) == colors@[interleave_bits(
                            (x - k * dimg) as u32,
                            (dimg - 1 - y) as u32,
                        ) as int]);
                    } else {
                        assert(img.pixel(x, y) == img_before.pixel(x, y));
                    }
                }
                assert forall|x: int, y: int|
                    0 <= x < w && 0 <= y < h && x >= (k + 1) * dimg implies #[trigger] img.pixel(
                    x,
                    y,
                ) == (Rgba { r: 0, g: 0, b: 0, a: 0 }) by {
                    assert(x >= k * dimg) by (nonlinear_arith)
                        requires
                            x >= (k + 1) * dimg,
                            dimg >= 1,
                            k >= 0,
                    ;
                    assert(img.pixel(x, y) == img_before.pixel(x, y));
                }
            }
            k = k + 1;
        }
        proof {
            assert forall|x: int, y: int| 0 <= x < w && 0 <= y < h implies #[trigger] img.pixel(
                x,
                y,
            ) == (if swz_covered(w, h, x, y) {
                swz_color(f, bytes@, palette@, swz_src_index(w, h, x, y))
            } else {
                Rgba { r: 0, g: 0, b: 0, a: 0 }
            }) by {}
        }
    } else {
        let dim: usize = width;
        let count: usize = height / width;
        proof {
            assert(countg * (dimg * dimg) * esz >= 0) by (nonlinear_arith)
                requires
                    countg >= 0 && dimg >= 0 && esz >= 0,
            ;
        }
        let mut k: usize = 0;
        while k < count
            invariant
                k <= count,
                dim == dimg,
                count == countg,
                1 <= esz <= 4,
                esz == swz_elem_size(f),
                width < height,
                w == width as int,
                h == height as int,
                dimg == swz_dim(w, h),
                countg == swz_section_count(w, h),
                swz_ok(w, h),
                bytes@.len() == blen,
                blen >= countg * (dimg * dimg) * esz,
                f == SwzFormat::Palette ==> palette@.len() >= 1024,
                img.wf(),
                img.spec_width() == w,
                img.spec_height() == h,
                forall|x: int, y: int|
                    0 <= x < w && 0 <= y < h && (countg - k) * dimg <= y < countg * dimg
                        ==> #[trigger] img.pixel(x, y) == swz_color(
                        f,
                        bytes@,
                        palette@,
                        swz_src_index(w, h, x, y),
                    ),
                forall|x: int, y: int|
                    0 <= x < w && 0 <= y < h && (y < (countg - k) * dimg || y >= countg * dimg)
                        ==> #[trigger] img.pixel(x, y) == (Rgba { r: 0, g: 0, b: 0, a: 0 }),
            decreases count - k,
        {
            proof {
                vstd::arithmetic::div_mod::lemma_fundamental_div_mod(h, dimg);
                vstd::arithmetic::div_mod::lemma_mod_bound(h, dimg);
                assert(countg * dimg <= h && (k + 1) * dimg <= countg * dimg && k * dimg + dimg == (
                k + 1) * dimg && (k + 1) * (dimg * dimg) * esz <= countg * (dimg * dimg) * esz && k
                    * (dimg * dimg) + dimg * dimg == (k + 1) * (dimg * dimg) && k * (dimg * dimg)
                    >= 0 && ((k * (dimg * dimg)) + (dimg * dimg)) * esz == (k + 1) * (dimg * dimg)
                    * esz && (countg - k - 1) * dimg + dimg == (countg - k) * dimg && (countg - k)
                    * dimg <= countg * dimg && countg * dimg - (k + 1) * dimg == (countg - k - 1)
                    * dimg) by (nonlinear_arith)
                    requires
                        0 <= k < countg,
                        1 <= dimg,
                        1 <= esz,
                        h == dimg * countg + (h % dimg),
                        0 <= h % dimg,
                ;
            }
            let start: usize = k * (dim * dim);
            let colors = section_colors(f, bytes, start, dim * dim, palette);
            let y_off: usize = (count * dim) - ((k + 1) * dim);
            let ghost img_before = img;
            write_section(&colors, dim, &mut img, 0, y_off);
            proof {
                assert(y_off == (countg - k - 1) * dimg) by (nonlinear_arith)
                    requires
                        y_off == countg * dimg - (k + 1) * dimg,
                        0 <= k < countg,
                        1 <= dimg,
                ;
                assert forall|x: int, y: int|
                    0 <= x < w && 0 <= y < h && (countg - (k + 1)) * dimg <= y < countg * dimg
                        implies #[trigger] img.pixel(x, y) == swz_color(
                    f,
                    bytes@,
                    palette@,
                    swz_src_index(w, h, x, y),
                ) by {
                    assert((countg - (k + 1)) * dimg == y_off && (countg - k) * dimg == y_off
                        + dimg) by (nonlinear_arith)
                        requires
                            y_off == (countg - k - 1) * dimg,
                            0 <= k < countg,
                            1 <= dimg,
                    ;
                    if y < y_off + dimg {
                        lemma_div_mod_section(dimg, (countg - k - 1) as int, y);
                        lemma_div_mod_section(dimg, 0, x);
                        lemma_interleave_in_square(dimg, x, dimg - 1 - (y - y_off));
                        assert(img.pixel(x, y) == colors@[interleave_bits(
                            (x - 0) as u32,
                            (dimg - 1 - (y - y_off)) as u32,
                        ) as int]);
                    } else {
                        assert(img.pixel(x, y) == img_before.pixel(x, y));
                    }
                }
                assert forall|x: int, y: int|
                    0 <= x < w && 0 <= y < h && (y < (countg - (k + 1)) * dimg || y >= countg
                        * dimg) implies #[trigger] img.pixel(x, y) == (Rgba {
                        r: 0,
                        g: 0,
                        b: 0,
                        a: 0,
                    }) by {
                    assert((countg - (k + 1)) * dimg == y_off) by (nonlinear_arith)
                        requires
                            y_off == (countg - k - 1) * dimg,
                    ;
                    assert(img.pixel(x, y) == img_before.pixel(x, y));
                }
            }
            k = k + 1;
        }
        proof {
            assert forall|x: int, y: int| 0 <= x < w && 0 <= y < h implies #[trigger] img.pixel(
                x,
                y,
            ) == (if swz_covered(w, h, x, y) {
                swz_color(f, bytes@, palette@, swz_src_index(w, h, x, y))
            } else {
                Rgba { r: 0, g: 0, b: 0, a: 0 }
            }) by {
                assert((countg - countg) * dimg == 0) by (nonlinear_arith);
            }
        }
    }
    img
}

/// Deswizzles a Morton-ordered 8-bit palette-indexed texture through a
/// 256-entry RGBA palette.
pub fn deswizzle_xbox_palette(bytes: &[u8], width: usize, height: usize, palette: &[u8]) -> (img:
    RgbaImage)
    requires
        swz_ok(width as int, height as int),
        width * height * 4 <= usize::MAX,
        bytes@.len() >= swz_section_count(width as int, height as int) * (swz_dim(
            width as int,
            height as int,
        ) * swz_dim(width as int, height as int)),
        palette@.len() >= 1024,
    ensures
        img.wf(),
        is_morton_deswizzle(
            SwzFormat::Palette,
            bytes@,
            palette@,
            width as int,
            height as int,
            img,
        ),
{
    proof {
        let c = swz_section_count(width as int, height as int);
        let d = swz_dim(width as int, height as int);
        assert(c * (d * d) * 1 == c * (d * d)) by (nonlinear_arith);
    }
    deswizzle_morton(SwzFormat::Palette, bytes, width, height, palette)
}

/// Deswizzles a Morton-ordered RGBA8 texture.
pub fn deswizzle_xbox_rgba(bytes: &[u8], width: usize, height: usize) -> (img: RgbaImage)
    requires
        swz_ok(width as int, height as int),
        width * height * 4 <= usize::MAX,
        bytes@.len() >= swz_section_count(width as int, height as int) * (swz_dim(
            width as int,
            height as int,
        ) * swz_dim(width as int, height as int)) * 4,
    ensures
        img.wf(),
        is_morton_deswizzle(SwzFormat::Rgba8, bytes@, Seq::<u8>::empty(), width as int, height as int, img),
{
    let empty: Vec<u8> = Vec::new();
    deswizzle_morton(SwzFormat::Rgba8, bytes, width, height, empty.as_slice())
}

/// Deswizzles a Morton-ordered 16-bit 5:5:5 RGB texture.
pub fn deswizzle_xbox_rgb5(bytes: &[u8], width: usize, height: usize) -> (img: RgbaImage)
    requires
        swz_ok(width as int, height as int),
        width * height * 4 <= usize::MAX,
        bytes@.len() >= swz_section_count(width as int, height as int) * (swz_dim(
            width as int,
            height as int,
        ) * swz_dim(width as int, height as int)) * 2,
    ensures
        img.wf(),
        is_morton_deswizzle(SwzFormat::Rgb5, bytes@, Seq::<u8>::empty(), width as int, height as int, img),
{
    let empty: Vec<u8> = Vec::new();
    deswizzle_morton(SwzFormat::Rgb5, bytes, width, height, empty.as_slice())
}

} // verus!

