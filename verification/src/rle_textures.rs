use vstd::prelude::*;
use crate::pixel::{quad_at, rescale_alpha, rescaled_alpha, Rgba, RgbaImage};
use crate::TextureError;

verus! {

/// The run-length decode of `b` from position `i` on, under the
/// signed-count scheme: a positive count byte repeats the single following
/// byte that many times, a negative count byte copies the following
/// `abs(count)` bytes verbatim, and a zero count emits nothing. The final
/// byte of the stream is never consumed as a new count. `None` when a
/// verbatim run overruns the stream.
pub open spec fn rle_decode_from(b: Seq<u8>, i: int) -> Option<Seq<u8>>
    decreases b.len() - i,
{
    if i >= b.len() - 1 {
        Some(Seq::empty())
    } else {
        let count = b[i] as i8;
        if count > 0 {
            match rle_decode_from(b, i + 2) {
                Option::Some(rest) => Option::Some(
                    Seq::new(count as nat, |k: int| b[i + 1]) + rest,
                ),
                Option::None => Option::None,
            }
        } else {
            let length = -(count as int);
            if i + 1 + length > b.len() {
                Option::None
            } else {
                match rle_decode_from(b, i + 1 + length) {
                    Option::Some(rest) => Option::Some(b.subrange(i + 1, i + 1 + length) + rest),
                    Option::None => Option::None,
                }
            }
        }
    }
}

/// Decompresses a signed-count run-length stream; `None` when a verbatim
/// run runs past the end of the input.
pub fn rle_decompress(bytes: &[u8]) -> (r: Option<Vec<u8>>)
    ensures
        r matches Some(v) ==> rle_decode_from(bytes@, 0) == Some(v@),
        r is None <==> rle_decode_from(bytes@, 0) is None,
{
    let n: usize = bytes.len();
    let mut out: Vec<u8> = Vec::new();
    let mut i: usize = 0;
    while n - i > 1
        invariant
            n == bytes@.len(),
            i <= n,
            rle_decode_from(bytes@, 0) == match rle_decode_from(bytes@, i as int) {
                Option::Some(rest) => Option::Some(out@ + rest),
                Option::None => Option::None::<Seq<u8>>,
            },
        decreases n - i,
    {
        let ghost i0 = i as int;
        let ghost out0 = out@;
        let count: i8 = #[verifier::truncate] (bytes[i] as i8);
        i = i + 1;
        if count > 0 {
            let v: u8 = bytes[i];
            let reps: usize = count as usize;
            let mut j: usize = 0;
            while j < reps
                invariant
                    j <= reps,
                    out@ == out0 + Seq::new(j as nat, |k: int| v),
                decreases reps - j,
            {
                out.push(v);
                proof {
                    assert(out@ =~= out0 + Seq::new((j + 1) as nat, |k: int| v));
                }
                j = j + 1;
            }
            i = i + 1;
            proof {
                let full = Seq::new(count as nat, |k: int| bytes@[i0 + 1]);
                assert(out@ =~= out0 + full);
                match rle_decode_from(bytes@, i as int) {
                    Option::Some(rest) => {
                        assert(rle_decode_from(bytes@, i0) == Some(full + rest));
                        assert(out0 + (full + rest) =~= (out0 + full) + rest);
                    },
                    Option::None => {},
                }
            }
        } else {
            let length: usize = (-(count as i32)) as usize;
            if length > n - i {
                proof {
                    assert(rle_decode_from(bytes@, i0) is None);
                }
                return None;
            }
            let stop: usize = i + length;
            let mut j: usize = i;
            while j < stop
                invariant
                    i <= j <= stop <= n,
                    n == bytes@.len(),
                    out@ == out0 + bytes@.subrange(i as int, j as int),
                    i as int == i0 + 1,
                decreases stop - j,
            {
                out.push(bytes[j]);
                proof {
                    assert(out@ =~= out0 + bytes@.subrange(i as int, (j + 1) as int));
                }
                j = j + 1;
            }
            i = stop;
            proof {
                let lit = bytes@.subrange(i0 + 1, i0 + 1 + length);
                assert(out@ =~= out0 + lit);
                match rle_decode_from(bytes@, i as int) {
                    Option::Some(rest) => {
                        assert(rle_decode_from(bytes@, i0) == Some(lit + rest));
                        assert(out0 + (lit + rest) =~= (out0 + lit) + rest);
                    },
                    Option::None => {},
                }
            }
        }
    }
    proof {
        assert(rle_decode_from(bytes@, i as int) == Some(Seq::<u8>::empty()));
        assert(out@ + Seq::<u8>::empty() =~= out@);
    }
    Some(out)
}

/// A record decodes when it holds the one-byte prefix, the 1024-byte
/// palette, the four-byte gap, and a run-length stream that expands to
/// exactly the 65536 palette indices of a 256 x 256 image.
pub open spec fn rle_convert_ok(b: Seq<u8>) -> bool {
    &&& b.len() >= 1029
    &&& match rle_decode_from(b.subrange(1029, b.len() as int), 0) {
        Option::Some(d) => d.len() == 65536,
        Option::None => false,
    }
}

/// The pixel at `(x, y)` of the decoded record: the palette entry selected
/// by the index at `(x, 255 - y)` of the expanded stream (the source is
/// stored bottom-up), with the alpha byte optionally rescaled.
pub open spec fn rle_pixel(b: Seq<u8>, multiply_alpha: bool, x: int, y: int) -> Rgba
    recommends
        rle_convert_ok(b),
        0 <= x < 256,
        0 <= y < 256,
{
    let pal = b.subrange(1, 1025);
    let d = rle_decode_from(b.subrange(1029, b.len() as int), 0)->Some_0;
    let idx = d[(255 - y) * 256 + x] as int;
    Rgba {
        r: pal[4 * idx],
        g: pal[4 * idx + 1],
        b: pal[4 * idx + 2],
        a: if multiply_alpha {
            rescaled_alpha(pal[4 * idx + 3])
        } else {
            pal[4 * idx + 3]
        },
    }
}

/// Decodes one run-length-compressed 256 x 256 palette texture record: a
/// one-byte prefix, a 1024-byte RGBA palette, four skipped bytes, then the
/// compressed index stream.
pub fn convert(bytes: &[u8], multiply_alpha: bool) -> (r: Result<RgbaImage, TextureError>)
    ensures
        r is Ok <==> rle_convert_ok(bytes@),
        r matches Ok(img) ==> {
            &&& img.wf()
            &&& img.spec_width() == 256
            &&& img.spec_height() == 256
            &&& forall|x: int, y: int|
                0 <= x < 256 && 0 <= y < 256 ==> #[trigger] img.pixel(x, y) == rle_pixel(
                    bytes@,
                    multiply_alpha,
                    x,
                    y,
                )
        },
        r matches Err(e) ==> e == TextureError::MalformedArchive,
{
    if bytes.len() < 1029 {
        return Err(TextureError::MalformedArchive);
    }
    let palette = vstd::slice::slice_subrange(bytes, 1, 1025);
    let data = vstd::slice::slice_subrange(bytes, 1029, bytes.len());
    let decoded = match rle_decompress(data) {
        Some(d) => d,
        None => {
            return Err(TextureError::MalformedArchive);
        },
    };
    if decoded.len() != 65536 {
        return Err(TextureError::MalformedArchive);
    }
    let ghost dspec = rle_decode_from(bytes@.subrange(1029, bytes@.len() as int), 0)->Some_0;
    let mut pixels: Vec<u8> = Vec::new();
    let mut i: usize = 0;
    while i < 65536
        invariant
            i <= 65536,
            pixels@.len() == 4 * i,
            decoded@.len() == 65536,
            decoded@ == dspec,
            palette@ == bytes@.subrange(1, 1025),
            bytes@.len() >= 1029,
            forall|j: int|
                0 <= j < i ==> #[trigger] quad_at(pixels@, 4 * j) == (Rgba {
                    r: palette@[4 * (decoded@[j] as int)],
                    g: palette@[4 * (decoded@[j] as int) + 1],
                    b: palette@[4 * (decoded@[j] as int) + 2],
                    a: if multiply_alpha {
                        rescaled_alpha(palette@[4 * (decoded@[j] as int) + 3])
                    } else {
                        palette@[4 * (decoded@[j] as int) + 3]
                    },
                }),
        decreases 65536 - i,
    {
        let idx: usize = decoded[i] as usize;
        let ghost p0 = pixels@;
        pixels.push(palette[idx * 4]);
        pixels.push(palette[(idx * 4) + 1]);
        pixels.push(palette[(idx * 4) + 2]);
        let alpha: u8 = palette[(idx * 4) + 3];
        let alpha: u8 = if multiply_alpha {
            rescale_alpha(alpha)
        } else {
            alpha
        };
        pixels.push(alpha);
        proof {
            assert forall|j: int|
                0 <= j < i + 1 implies #[trigger] quad_at(pixels@, 4 * j) == (Rgba {
                r: palette@[4 * (decoded@[j] as int)],
                g: palette@[4 * (decoded@[j] as int) + 1],
                b: palette@[4 * (decoded@[j] as int) + 2],
                a: if multiply_alpha {
                    rescaled_alpha(palette@[4 * (decoded@[j] as int) + 3])
                } else {
                    palette@[4 * (decoded@[j] as int) + 3]
                },
            }) by {
                if j < i {
                    assert(pixels@[4 * j] == p0[4 * j]);
                    assert(pixels@[4 * j + 1] == p0[4 * j + 1]);
                    assert(pixels@[4 * j + 2] == p0[4 * j + 2]);
                    assert(pixels@[4 * j + 3] == p0[4 * j + 3]);
                    assert(quad_at(p0, 4 * j) == quad_at(pixels@, 4 * j));
                }
            }
        }
        i = i + 1;
    }
    let mid = RgbaImage::from_raw(256, 256, pixels);
    let out = mid.flip_vertical();
    proof {
        assert forall|x: int, y: int| 0 <= x < 256 && 0 <= y < 256 implies #[trigger] out.pixel(
            x,
            y,
        ) == rle_pixel(bytes@, multiply_alpha, x, y) by {
            assert(out.pixel(x, y) == mid.pixel(x, 255 - y));
            assert(mid.pixel(x, 255 - y) == quad_at(
                pixels@,
                crate::pixel::pix_off(256, x, 255 - y),
            ));
            assert(crate::pixel::pix_off(256, x, 255 - y) == 4 * ((255 - y) * 256 + x));
            assert(quad_at(pixels@, 4 * ((255 - y) * 256 + x)) == rle_pixel(
                bytes@,
                multiply_alpha,
                x,
                y,
            ));
        }
    }
    Ok(out)
}

} // verus!
