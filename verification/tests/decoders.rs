use texture_extract::deswizzle::{deswizzle_xbox_palette, deswizzle_xbox_rgb5};
use texture_extract::gamecube::{decode_c4, decode_c8, decode_rgb5a3, decode_rgb565, reorder_palette};
use texture_extract::pixel::Rgba;
use texture_extract::playstation_2;
use texture_extract::xbox::decode_bc1;

#[test]
fn palette_entries_are_gathered_from_both_sub_tables() {
    // A 16-entry palette: (G, R) pairs at offset 0, (A, B) pairs at 32.
    let palette: Vec<u8> = (0..64).collect();
    let quads = reorder_palette(&palette, 16);
    // Entry 0 must be RGBA = (byte[1], byte[0], byte[33], byte[32]).
    assert_eq!(&quads[0..4], &[palette[1], palette[0], palette[33], palette[32]]);
    // Entry 15 likewise, from the ends of both tables.
    assert_eq!(&quads[60..64], &[palette[31], palette[30], palette[63], palette[62]]);
}

#[test]
fn ps2_rgb5_puts_red_in_the_low_bits() {
    let img = playstation_2::decode_rgb5(&[0x01, 0x00], 1, 1);
    assert_eq!(img.get_pixel(0, 0), Rgba { r: 8, g: 0, b: 0, a: 255 });
}

#[test]
fn xbox_rgb5_puts_red_in_the_high_bits() {
    let img = deswizzle_xbox_rgb5(&[0x00, 0x7c], 1, 1);
    assert_eq!(img.get_pixel(0, 0), Rgba { r: 248, g: 0, b: 0, a: 255 });
}

#[test]
fn ps2_rgb8_is_opaque() {
    let img = playstation_2::decode_rgb8(&[7, 8, 9], 1, 1);
    assert_eq!(img.get_pixel(0, 0), Rgba { r: 7, g: 8, b: 9, a: 255 });
}

#[test]
fn ps2_c4_reads_low_nibble_first() {
    let palette: Vec<u8> = (0..64).collect();
    let img = playstation_2::decode_c4(&[0x21], 2, 1, &palette);
    // Low nibble 1 colors pixel 0, high nibble 2 colors pixel 1; palette
    // alpha is rescaled.
    assert_eq!(img.get_pixel(0, 0), Rgba { r: 4, g: 5, b: 6, a: 14 });
    assert_eq!(img.get_pixel(1, 0), Rgba { r: 8, g: 9, b: 10, a: 22 });
}

#[test]
fn ps2_c8_indexes_the_palette() {
    let palette: Vec<u8> = (0u16..1024).map(|i| (i % 256) as u8).collect();
    let img = playstation_2::decode_c8(&[3], 1, 1, &palette);
    assert_eq!(img.get_pixel(0, 0), Rgba { r: 12, g: 13, b: 14, a: 30 });
}

#[test]
fn xbox_palette_deswizzle_uses_palette_quads_unchanged() {
    // A 1x1 swizzled palette texture: index 2 selects the third quad, with
    // no alpha rescale on this platform.
    let mut palette = vec![0u8; 1024];
    palette[8..12].copy_from_slice(&[1, 2, 3, 200]);
    let img = deswizzle_xbox_palette(&[2], 1, 1, &palette);
    assert_eq!(img.get_pixel(0, 0), Rgba { r: 1, g: 2, b: 3, a: 200 });
}

#[test]
fn bc1_solid_color_block_decodes_to_that_color() {
    // color0 == color1 == 0xffff (white), all index bits zero: every pixel
    // of the 4x4 block is opaque white. The compressed block is eight
    // bytes; the decoded image is sixteen white pixels.
    let block = [0xff, 0xff, 0xff, 0xff, 0, 0, 0, 0];
    let img = decode_bc1(&block, 4, 4);
    for y in 0..4usize {
        for x in 0..4usize {
            assert_eq!(img.get_pixel(x, y), Rgba { r: 255, g: 255, b: 255, a: 255 });
        }
    }
}

#[test]
fn rgb5a3_all_ones_decodes_to_opaque_white() {
    // A single 4x4 tile of 0xffff samples: top bit set selects the 5:5:5
    // opaque form, and full channels widen to 255.
    let tile = [0xffu8; 32];
    let img = decode_rgb5a3(&tile, 4, 4);
    for y in 0..4usize {
        for x in 0..4usize {
            assert_eq!(img.get_pixel(x, y), Rgba { r: 255, g: 255, b: 255, a: 255 });
        }
    }
}

#[test]
fn rgb565_all_ones_decodes_to_opaque_white() {
    // A single 4x4 tile of 0xffff samples; 5- and 6-bit channels widen to
    // 255 and alpha is always opaque in this format.
    let tile = [0xffu8; 32];
    let img = decode_rgb565(&tile, 4, 4);
    for y in 0..4usize {
        for x in 0..4usize {
            assert_eq!(img.get_pixel(x, y), Rgba { r: 255, g: 255, b: 255, a: 255 });
        }
    }
}

#[test]
fn gamecube_c4_maps_indices_through_the_reordered_palette() {
    // An 8x8 I4 tile of 0xff bytes: every sample is index 15.
    let tile = [0xffu8; 32];
    let palette: Vec<u8> = (0..64).collect();
    let img = decode_c4(&tile, 8, 8, &palette);
    for y in 0..8usize {
        for x in 0..8usize {
            assert_eq!(img.get_pixel(x, y), Rgba { r: 31, g: 30, b: 63, a: 62 });
        }
    }
}

#[test]
fn gamecube_c8_maps_indices_through_the_reordered_palette() {
    // An 8x4 I8 tile of 0xff bytes: every sample is index 255.
    let tile = [0xffu8; 32];
    let palette: Vec<u8> = (0u16..1024).map(|i| (i % 256) as u8).collect();
    let img = decode_c8(&tile, 8, 4, &palette);
    for y in 0..4usize {
        for x in 0..8usize {
            assert_eq!(img.get_pixel(x, y), Rgba { r: 255, g: 254, b: 255, a: 254 });
        }
    }
}
