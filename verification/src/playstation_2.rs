use vstd::prelude::*;
use crate::pixel::{quad_at, rescale_alpha, rescaled_alpha, Rgba, RgbaImage};
use crate::{u16_at, Endianness};

verus! {

/// A 16-bit 5:5:5 value widened to RGBA8 in this platform's channel order:
/// red in the low bits, blue in the high bits, opaque alpha.
pub open spec fn ps2_rgb5_quad(bits: u16) -> Rgba {
    Rgba {
        r: ((bits & 0x001f) << 3) as u8,
        g: (((bits & 0x03e0) >> 5) << 3) as u8,
        b: (((bits & 0x7c00) >> 10) << 3) as u8,
        a: 255u8,
    }
}

/// The RGBA palette entry at `idx`, with the alpha byte rescaled from the
/// platform's half-range convention.
pub open spec fn ps2_pal_quad(pal: Seq<u8>, idx: int) -> Rgba {
    Rgba {
        r: pal[4 * idx],
        g: pal[4 * idx + 1],
        b: pal[4 * idx + 2],
        a: rescaled_alpha(pal[4 * idx + 3]),
    }
}

/// `img` is the decode of a linear 16-bit 5:5:5 texture stored bottom-up.
pub open spec fn is_ps2_rgb5_decode(bytes: Seq<u8>, w: int, h: int, img: RgbaImage) -> bool {
    &&& img.spec_width() == w
    &&& img.spec_height() == h
    &&& forall|x: int, y: int|
        0 <= x < w && 0 <= y < h ==> #[trigger] img.pixel(x, y) == ps2_rgb5_quad(
            u16_at(Endianness::Little, bytes, 2 * ((h - 1 - y) * w + x)) as u16,
        )
}

/// `img` is the decode of a linear 24-bit RGB texture stored bottom-up;
/// alpha is fully opaque.
pub open spec fn is_ps2_rgb8_decode(bytes: Seq<u8>, w: int, h: int, img: RgbaImage) -> bool {
    &&& img.spec_width() == w
    &&& img.spec_height() == h
    &&& forall|x: int, y: int|
        0 <= x < w && 0 <= y < h ==> #[trigger] img.pixel(x, y) == (Rgba {
            r: bytes[3 * ((h - 1 - y) * w + x)],
            g: bytes[3 * ((h - 1 - y) * w + x) + 1],
            b: bytes[3 * ((h - 1 - y) * w + x) + 2],
            a: 255u8,
        })
}

/// `img` is the decode of a linear 32-bit RGBA texture stored bottom-up,
/// with the alpha byte rescaled.
pub open spec fn is_ps2_rgba8_decode(bytes: Seq<u8>, w: int, h: int, img: RgbaImage) -> bool {
    &&& img.spec_width() == w
    &&& img.spec_height() == h
    &&& forall|x: int, y: int|
        0 <= x < w && 0 <= y < h ==> #[trigger] img.pixel(x, y) == (Rgba {
            r: bytes[4 * ((h - 1 - y) * w + x)],
            g: bytes[4 * ((h - 1 - y) * w + x) + 1],
            b: bytes[4 * ((h - 1 - y) * w + x) + 2],
            a: rescaled_alpha(bytes[4 * ((h - 1 - y) * w + x) + 3]),
        })
}

/// Palette index of destination pixel `(x, y)` of a 4-bit indexed texture:
/// one source byte carries two pixels, low nibble first.
pub open spec fn ps2_c4_index(bytes: Seq<u8>, w: int, h: int, x: int, y: int) -> int {
    let b = bytes[(h - 1 - y) * (w / 2) + x / 2];
    if x % 2 == 0 {
        (b & 0x0f) as int
    } else {
        (b >> 4) as int
    }
}

/// `img` is the decode of a 4-bit palette-indexed texture stored bottom-up.
/// When the width is odd the last column is never written and stays
/// transparent black.
pub open spec fn is_ps2_c4_decode(bytes: Seq<u8>, pal: Seq<u8>, w: int, h: int, img: RgbaImage) -> bool {
    &&& img.spec_width() == w
    &&& img.spec_height() == h
    &&& forall|x: int, y: int|
        0 <= x < w && 0 <= y < h ==> #[trigger] img.pixel(x, y) == (if x < 2 * (w / 2) {
            ps2_pal_quad(pal, ps2_c4_index(bytes, w, h, x, y))
        } else {
            Rgba { r: 0, g: 0, b: 0, a: 0 }
        })
}

/// `img` is the decode of an 8-bit palette-indexed texture stored bottom-up.
pub open spec fn is_ps2_c8_decode(bytes: Seq<u8>, pal: Seq<u8>, w: int, h: int, img: RgbaImage) -> bool {
    &&& img.spec_width() == w
    &&& img.spec_height() == h
    &&& forall|x: int, y: int|
        0 <= x < w && 0 <= y < h ==> #[trigger] img.pixel(x, y) == ps2_pal_quad(
            pal,
            bytes[(h - 1 - y) * w + x] as int,
        )
}

/// Decodes a linear 16-bit 5:5:5 texture.
pub fn decode_rgb5(bytes: &[u8], width: usize, height: usize) -> (img: RgbaImage)
    requires
        width * height * 4 <= usize::MAX,
        bytes@.len() >= width * height * 2,
    ensures
        img.wf(),
        is_ps2_rgb5_decode(bytes@, width as int, height as int, img),
{
    let mut mid = RgbaImage::new(width, height);
    let mut y: usize = 0;
    while y < height
        invariant
            y <= height,
            width * height * 4 <= usize::MAX,
            bytes@.len() >= width * height * 2,
            mid.wf(),
            mid.spec_width() == width,
            mid.spec_height() == height,
            forall|x2: int, y2: int|
                0 <= x2 < width && 0 <= y2 < y ==> #[trigger] mid.pixel(x2, y2) == ps2_rgb5_quad(
                    u16_at(Endianness::Little, bytes@, 2 * (y2 * width + x2)) as u16,
                ),
        decreases height - y,
    {
        let mut x: usize = 0;
        while x < width
            invariant
                y < height,
                x <= width,
                width * height * 4 <= usize::MAX,
                bytes@.len() >= width * height * 2,
                mid.wf(),
                mid.spec_width() == width,
                mid.spec_height() == height,
                forall|x2: int, y2: int|
                    0 <= x2 < width && 0 <= y2 < y ==> #[trigger] mid.pixel(x2, y2)
                        == ps2_rgb5_quad(
                        u16_at(Endianness::Little, bytes@, 2 * (y2 * width + x2)) as u16,
                    ),
                forall|x2: int|
                    0 <= x2 < x ==> #[trigger] mid.pixel(x2, y as int) == ps2_rgb5_quad(
                        u16_at(Endianness::Little, bytes@, 2 * ((y as int) * width + x2)) as u16,
                    ),
            decreases width - x,
        {
            proof {
                assert(2 * ((y as int) * width + x) + 2 <= 2 * (width * height)
                    && 2 * (width * height) <= width * height * 4 && (y as int) * width + x >= 0)
                    by (nonlinear_arith)
                    requires
                        0 <= x < width,
                        0 <= y < height,
                ;
            }
            let bits: u16 = crate::read_u16(Endianness::Little, bytes, (y * width + x) * 2);
            let p = Rgba {
                r: ((bits & 0x001f) << 3) as u8,
                g: (((bits & 0x03e0) >> 5) << 3) as u8,
                b: (((bits & 0x7c00) >> 10) << 3) as u8,
                a: 255,
            };
            mid.put_pixel(x, y, p);
            x = x + 1;
        }
        y = y + 1;
    }
    mid.flip_vertical()
}

/// Decodes a linear 24-bit RGB texture; alpha is fully opaque.
pub fn decode_rgb8(bytes: &[u8], width: usize, height: usize) -> (img: RgbaImage)
    requires
        width * height * 4 <= usize::MAX,
        bytes@.len() >= width * height * 3,
    ensures
        img.wf(),
        is_ps2_rgb8_decode(bytes@, width as int, height as int, img),
{
    let mut mid = RgbaImage::new(width, height);
    let mut y: usize = 0;
    while y < height
        invariant
            y <= height,
            width * height * 4 <= usize::MAX,
            bytes@.len() >= width * height * 3,
            mid.wf(),
            mid.spec_width() == width,
            mid.spec_height() == height,
            forall|x2: int, y2: int|
                0 <= x2 < width && 0 <= y2 < y ==> #[trigger] mid.pixel(x2, y2) == (Rgba {
                    r: bytes@[3 * (y2 * width + x2)],
                    g: bytes@[3 * (y2 * width + x2) + 1],
                    b: bytes@[3 * (y2 * width + x2) + 2],
                    a: 255u8,
                }),
        decreases height - y,
    {
        let mut x: usize = 0;
        while x < width
            invariant
                y < height,
                x <= width,
                width * height * 4 <= usize::MAX,
                bytes@.len() >= width * height * 3,
                mid.wf(),
                mid.spec_width() == width,
                mid.spec_height() == height,
                forall|x2: int, y2: int|
                    0 <= x2 < width && 0 <= y2 < y ==> #[trigger] mid.pixel(x2, y2) == (Rgba {
                        r: bytes@[3 * (y2 * width + x2)],
                        g: bytes@[3 * (y2 * width + x2) + 1],
                        b: bytes@[3 * (y2 * width + x2) + 2],
                        a: 255u8,
                    }),
                forall|x2: int|
                    0 <= x2 < x ==> #[trigger] mid.pixel(x2, y as int) == (Rgba {
                        r: bytes@[3 * ((y as int) * width + x2)],
                        g: bytes@[3 * ((y as int) * width + x2) + 1],
                        b: bytes@[3 * ((y as int) * width + x2) + 2],
                        a: 255u8,
                    }),
            decreases width - x,
        {
            proof {
                assert(3 * ((y as int) * width + x) + 3 <= 3 * (width * height)
                    && 3 * (width * height) <= width * height * 4 && (y as int) * width + x >= 0)
                    by (nonlinear_arith)
                    requires
                        0 <= x < width,
                        0 <= y < height,
                ;
            }
            let off: usize = (y * width + x) * 3;
            let p = Rgba { r: bytes[off], g: bytes[off + 1], b: bytes[off + 2], a: 255 };
            mid.put_pixel(x, y, p);
            x = x + 1;
        }
        y = y + 1;
    }
    mid.flip_vertical()
}

/// Decodes a linear 32-bit RGBA texture, rescaling the alpha channel.
pub fn decode_rgba8(bytes: &[u8], width: usize, height: usize) -> (img: RgbaImage)
    requires
        width * height * 4 <= usize::MAX,
        bytes@.len() >= width * height * 4,
    ensures
        img.wf(),
        is_ps2_rgba8_decode(bytes@, width as int, height as int, img),
{
    let mut mid = RgbaImage::new(width, height);
    let mut y: usize = 0;
    while y < height
        invariant
            y <= height,
            width * height * 4 <= usize::MAX,
            bytes@.len() >= width * height * 4,
            mid.wf(),
            mid.spec_width() == width,
            mid.spec_height() == height,
            forall|x2: int, y2: int|
                0 <= x2 < width && 0 <= y2 < y ==> #[trigger] mid.pixel(x2, y2) == (Rgba {
                    r: bytes@[4 * (y2 * width + x2)],
                    g: bytes@[4 * (y2 * width + x2) + 1],
                    b: bytes@[4 * (y2 * width + x2) + 2],
                    a: rescaled_alpha(bytes@[4 * (y2 * width + x2) + 3]),
                }),
        decreases height - y,
    {
        let mut x: usize = 0;
        while x < width
            invariant
                y < height,
                x <= width,
                width * height * 4 <= usize::MAX,
                bytes@.len() >= width * height * 4,
                mid.wf(),
                mid.spec_width() == width,
                mid.spec_height() == height,
                forall|x2: int, y2: int|
                    0 <= x2 < width && 0 <= y2 < y ==> #[trigger] mid.pixel(x2, y2) == (Rgba {
                        r: bytes@[4 * (y2 * width + x2)],
                        g: bytes@[4 * (y2 * width + x2) + 1],
                        b: bytes@[4 * (y2 * width + x2) + 2],
                        a: rescaled_alpha(bytes@[4 * (y2 * width + x2) + 3]),
                    }),
                forall|x2: int|
                    0 <= x2 < x ==> #[trigger] mid.pixel(x2, y as int) == (Rgba {
                        r: bytes@[4 * ((y as int) * width + x2)],
                        g: bytes@[4 * ((y as int) * width + x2) + 1],
                        b: bytes@[4 * ((y as int) * width + x2) + 2],
                        a: rescaled_alpha(bytes@[4 * ((y as int) * width + x2) + 3]),
                    }),
            decreases width - x,
        {
            proof {
                assert(4 * ((y as int) * width + x) + 4 <= 4 * (width * height) && 4 * (width
                    * height) <= width * height * 4 && (y as int) * width + x >= 0)
                    by (nonlinear_arith)
                    requires
                        0 <= x < width,
                        0 <= y < height,
                ;
            }
            let off: usize = (y * width + x) * 4;
            let p = Rgba {
                r: bytes[off],
                g: bytes[off + 1],
                b: bytes[off + 2],
                a: rescale_alpha(bytes[off + 3]),
            };
            mid.put_pixel(x, y, p);
            x = x + 1;
        }
        y = y + 1;
    }
    mid.flip_vertical()
}

/// Decodes a 4-bit palette-indexed texture, two pixels per source byte,
/// low nibble first, rescaling palette alpha.
pub fn decode_c4(bytes: &[u8], width: usize, height: usize, palette: &[u8]) -> (img: RgbaImage)
    requires
        width * height * 4 <= usize::MAX,
        bytes@.len() >= (width / 2) * height,
        palette@.len() >= 64,
    ensures
        img.wf(),
        is_ps2_c4_decode(bytes@, palette@, width as int, height as int, img),
{
    let half: usize = width / 2;
    let mut mid = RgbaImage::new(width, height);
    let mut y: usize = 0;
    while y < height
        invariant
            y <= height,
            half == width / 2,
            width * height * 4 <= usize::MAX,
            bytes@.len() >= half * height,
            palette@.len() >= 64,
            mid.wf(),
            mid.spec_width() == width,
            mid.spec_height() == height,
            forall|x2: int, y2: int|
                0 <= x2 < width && 0 <= y2 < y && x2 < 2 * (half as int) ==> #[trigger] mid.pixel(
                    x2,
                    y2,
                ) == ps2_pal_quad(
                    palette@,
                    if x2 % 2 == 0 {
                        (bytes@[y2 * (half as int) + x2 / 2] & 0x0f) as int
                    } else {
                        (bytes@[y2 * (half as int) + x2 / 2] >> 4) as int
                    },
                ),
            forall|x2: int, y2: int|
                0 <= x2 < width && 0 <= y2 < height && !(0 <= x2 < 2 * (half as int) && y2 < y)
                    ==> #[trigger] mid.pixel(x2, y2) == (Rgba { r: 0, g: 0, b: 0, a: 0 }),
        decreases height - y,
    {
        let mut x: usize = 0;
        while x < half
            invariant
                y < height,
                x <= half,
                half == width / 2,
                width * height * 4 <= usize::MAX,
                bytes@.len() >= half * height,
                palette@.len() >= 64,
                mid.wf(),
                mid.spec_width() == width,
                mid.spec_height() == height,
                forall|x2: int, y2: int|
                    0 <= x2 < width && 0 <= y2 < y && x2 < 2 * (half as int) ==> #[trigger] mid.pixel(
                        x2,
                        y2,
                    ) == ps2_pal_quad(
                        palette@,
                        if x2 % 2 == 0 {
                            (bytes@[y2 * (half as int) + x2 / 2] & 0x0f) as int
                        } else {
                            (bytes@[y2 * (half as int) + x2 / 2] >> 4) as int
                        },
                    ),
                forall|x2: int|
                    0 <= x2 < 2 * (x as int) ==> #[trigger] mid.pixel(x2, y as int) == ps2_pal_quad(
                        palette@,
                        if x2 % 2 == 0 {
                            (bytes@[(y as int) * (half as int) + x2 / 2] & 0x0f) as int
                        } else {
                            (bytes@[(y as int) * (half as int) + x2 / 2] >> 4) as int
                        },
                    ),
                forall|x2: int, y2: int|
                    0 <= x2 < width && 0 <= y2 < height && !(0 <= x2 < 2 * (half as int) && y2 < y)
                        && !(0 <= x2 < 2 * (x as int) && y2 == y) ==> #[trigger] mid.pixel(x2, y2)
                        == (Rgba { r: 0, g: 0, b: 0, a: 0 }),
            decreases half - x,
        {
            proof {
                assert((y as int) * (half as int) + x < half * height && (y as int) * (half as int)
                    + x >= 0 && 2 * (x as int) + 1 < 2 * (half as int) + 1 && 2 * (half as int)
                    <= width && half * height <= width * height && width * height <= width * height
                    * 4) by (nonlinear_arith)
                    requires
                        0 <= x < half,
                        0 <= y < height,
                        half == width / 2,
                        half <= width,
                        width >= 0,
                ;
            }
            let b: u8 = bytes[y * half + x];
            proof {
                assert((b & 0x0f) < 16) by (bit_vector);
            }
            let lo: usize = (b & 0x0f) as usize;
            let p_lo = Rgba {
                r: palette[lo * 4],
                g: palette[lo * 4 + 1],
                b: palette[lo * 4 + 2],
                a: rescale_alpha(palette[lo * 4 + 3]),
            };
            mid.put_pixel(x * 2, y, p_lo);
            let hi: usize = (b >> 4) as usize;
            proof {
                assert((b >> 4) < 16) by (bit_vector);
            }
            let p_hi = Rgba {
                r: palette[hi * 4],
                g: palette[hi * 4 + 1],
                b: palette[hi * 4 + 2],
                a: rescale_alpha(palette[hi * 4 + 3]),
            };
            mid.put_pixel(x * 2 + 1, y, p_hi);
            proof {
                assert forall|x2: int|
                    0 <= x2 < 2 * (x as int) + 2 implies #[trigger] mid.pixel(x2, y as int)
                        == ps2_pal_quad(
                        palette@,
                        if x2 % 2 == 0 {
                            (bytes@[(y as int) * (half as int) + x2 / 2] & 0x0f) as int
                        } else {
                            (bytes@[(y as int) * (half as int) + x2 / 2] >> 4) as int
                        },
                    ) by {
                    if x2 == 2 * (x as int) {
                        assert(x2 % 2 == 0 && x2 / 2 == x as int);
                    } else if x2 == 2 * (x as int) + 1 {
                        assert(x2 % 2 == 1 && x2 / 2 == x as int);
                    }
                }
            }
            x = x + 1;
        }
        proof {
            assert forall|x2: int, y2: int|
                0 <= x2 < width && 0 <= y2 < y + 1 && x2 < 2 * (half as int) implies #[trigger] mid
                .pixel(x2, y2) == ps2_pal_quad(
                palette@,
                if x2 % 2 == 0 {
                    (bytes@[y2 * (half as int) + x2 / 2] & 0x0f) as int
                } else {
                    (bytes@[y2 * (half as int) + x2 / 2] >> 4) as int
                },
            ) by {}
        }
        y = y + 1;
    }
    let out = mid.flip_vertical();
    proof {
        assert forall|x: int, y: int| 0 <= x < width && 0 <= y < height implies #[trigger] out
            .pixel(x, y) == (if x < 2 * ((width as int) / 2) {
            ps2_pal_quad(
                palette@,
                ps2_c4_index(bytes@, width as int, height as int, x, y),
            )
        } else {
            Rgba { r: 0, g: 0, b: 0, a: 0 }
        }) by {}
    }
    out
}

/// Decodes an 8-bit palette-indexed texture, rescaling palette alpha.
pub fn decode_c8(bytes: &[u8], width: usize, height: usize, palette: &[u8]) -> (img: RgbaImage)
    requires
        width * height * 4 <= usize::MAX,
        bytes@.len() >= width * height,
        palette@.len() >= 1024,
    ensures
        img.wf(),
        is_ps2_c8_decode(bytes@, palette@, width as int, height as int, img),
{
    let mut mid = RgbaImage::new(width, height);
    let mut y: usize = 0;
    while y < height
        invariant
            y <= height,
            width * height * 4 <= usize::MAX,
            bytes@.len() >= width * height,
            palette@.len() >= 1024,
            mid.wf(),
            mid.spec_width() == width,
            mid.spec_height() == height,
            forall|x2: int, y2: int|
                0 <= x2 < width && 0 <= y2 < y ==> #[trigger] mid.pixel(x2, y2) == ps2_pal_quad(
                    palette@,
                    bytes@[y2 * width + x2] as int,
                ),
        decreases height - y,
    {
        let mut x: usize = 0;
        while x < width
            invariant
                y < height,
                x <= width,
                width * height * 4 <= usize::MAX,
                bytes@.len() >= width * height,
                palette@.len() >= 1024,
                mid.wf(),
                mid.spec_width() == width,
                mid.spec_height() == height,
                forall|x2: int, y2: int|
                    0 <= x2 < width && 0 <= y2 < y ==> #[trigger] mid.pixel(x2, y2) == ps2_pal_quad(
                        palette@,
                        bytes@[y2 * width + x2] as int,
                    ),
                forall|x2: int|
                    0 <= x2 < x ==> #[trigger] mid.pixel(x2, y as int) == ps2_pal_quad(
                        palette@,
                        bytes@[(y as int) * width + x2] as int,
                    ),
            decreases width - x,
        {
            proof {
                assert((y as int) * width + x < width * height && (y as int) * width + x >= 0)
                    by (nonlinear_arith)
                    requires
                        0 <= x < width,
                        0 <= y < height,
                ;
            }
            let idx: usize = bytes[y * width + x] as usize;
            let p = Rgba {
                r: palette[idx * 4],
                g: palette[idx * 4 + 1],
                b: palette[idx * 4 + 2],
                a: rescale_alpha(palette[idx * 4 + 3]),
            };
            mid.put_pixel(x, y, p);
            x = x + 1;
        }
        y = y + 1;
    }
    mid.flip_vertical()
}

} // verus!

