use texture_extract::pixel::{rescale_alpha, Rgba, RgbaImage};
use texture_extract::playstation_2::decode_rgba8;

#[test]
fn alpha_rescale_doubles_and_clamps() {
    for v in 0u16..=255 {
        let r = rescale_alpha(v as u8);
        let expected = if 2 * v > 255 { 255 } else { (2 * v) as u8 as u16 } as u8;
        assert_eq!(r, expected, "wrong rescale of {}", v);
        assert!(r % 2 == 0 || r == 255, "rescaled {} is odd and not 255", v);
    }
    // Monotonic in the source byte.
    for v in 0u16..255 {
        assert!(rescale_alpha(v as u8) <= rescale_alpha((v + 1) as u8));
    }
}

#[test]
fn rgba8_decode_applies_alpha_rescale() {
    // One pixel with alpha 100 (doubles to 200) and one with 200 (clamps).
    let bytes = [10, 20, 30, 100, 40, 50, 60, 200];
    let img = decode_rgba8(&bytes, 2, 1);
    assert_eq!(img.get_pixel(0, 0), Rgba { r: 10, g: 20, b: 30, a: 200 });
    assert_eq!(img.get_pixel(1, 0), Rgba { r: 40, g: 50, b: 60, a: 255 });
}

#[test]
fn flipping_twice_restores_every_pixel() {
    // Decode a 2x3 RGBA image with distinct pixels, then flip it twice.
    let mut bytes = Vec::new();
    for i in 0..6u8 {
        bytes.extend_from_slice(&[i, 100 + i, 200 + i, 255]);
    }
    let img = decode_rgba8(&bytes, 2, 3);
    let twice = img.flip_vertical().flip_vertical();
    assert_eq!(twice.width(), img.width());
    assert_eq!(twice.height(), img.height());
    for y in 0..3usize {
        for x in 0..2usize {
            assert_eq!(twice.get_pixel(x, y), img.get_pixel(x, y));
        }
    }
}

#[test]
fn flip_reverses_rows() {
    let bytes = [1, 1, 1, 255, 2, 2, 2, 255];
    // 1x2 image: source row 0 holds pixel value 1, row 1 holds value 2;
    // the decoder's mandatory flip puts the last-decoded row at the top.
    let img = decode_rgba8(&bytes, 1, 2);
    assert_eq!(img.get_pixel(0, 0).r, 2);
    assert_eq!(img.get_pixel(0, 1).r, 1);
    let back = img.flip_vertical();
    assert_eq!(back.get_pixel(0, 0).r, 1);
    assert_eq!(back.get_pixel(0, 1).r, 2);
}

#[test]
fn new_image_is_transparent_black() {
    let img = RgbaImage::new(3, 2);
    for y in 0..2usize {
        for x in 0..3usize {
            assert_eq!(img.get_pixel(x, y), Rgba { r: 0, g: 0, b: 0, a: 0 });
        }
    }
}
