use std::collections::HashSet;
use texture_extract::deswizzle::{compact, deswizzle_xbox_rgba};
use texture_extract::pixel::Rgba;

#[test]
fn morton_addresses_cover_the_grid_without_collisions() {
    for dim in [4usize, 8, 16, 32] {
        let mut seen: HashSet<(usize, usize)> = HashSet::new();
        for i in 0..dim * dim {
            let x = compact(i);
            let y = compact(i >> 1);
            assert!(x < dim, "x out of range for dim {}", dim);
            assert!(y < dim, "y out of range for dim {}", dim);
            assert!(seen.insert((x, y)), "collision at i = {} for dim {}", i, dim);
        }
        assert_eq!(seen.len(), dim * dim);
    }
}

#[test]
fn wide_texture_sections_tile_columns_left_to_right() {
    // width 64, height 16: four 16x16 sections, section k marked with byte k.
    let mut bytes = vec![0u8; 64 * 16 * 4];
    for k in 0..4usize {
        for b in bytes[k * 16 * 16 * 4..(k + 1) * 16 * 16 * 4].iter_mut() {
            *b = k as u8;
        }
    }
    let img = deswizzle_xbox_rgba(&bytes, 64, 16);
    for y in 0..16usize {
        for x in 0..64usize {
            let p = img.get_pixel(x, y);
            assert_eq!(p.r as usize, x / 16, "wrong section at ({}, {})", x, y);
        }
    }
}

#[test]
fn tall_texture_sections_stack_bottom_up() {
    // width 16, height 64: four 16x16 sections; section k lands at
    // destination rows starting at (4 - 1 - k) * 16.
    let mut bytes = vec![0u8; 16 * 64 * 4];
    for k in 0..4usize {
        for b in bytes[k * 16 * 16 * 4..(k + 1) * 16 * 16 * 4].iter_mut() {
            *b = k as u8;
        }
    }
    let img = deswizzle_xbox_rgba(&bytes, 16, 64);
    for y in 0..64usize {
        for x in 0..16usize {
            let p = img.get_pixel(x, y);
            assert_eq!(p.r as usize, 3 - y / 16, "wrong section at ({}, {})", x, y);
        }
    }
}

#[test]
fn square_deswizzle_places_first_element_at_bottom_left() {
    // For a 4x4 section, source element 0 has local (x, y) = (0, 0) and is
    // written at destination row dim - 1 - 0 = 3.
    let mut bytes = vec![0u8; 4 * 4 * 4];
    bytes[0] = 9;
    bytes[1] = 8;
    bytes[2] = 7;
    bytes[3] = 6;
    let img = deswizzle_xbox_rgba(&bytes, 4, 4);
    assert_eq!(img.get_pixel(0, 3), Rgba { r: 9, g: 8, b: 7, a: 6 });
}
