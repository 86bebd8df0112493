use texture_extract::pixel::Rgba;
use texture_extract::{the_sims_2, the_sims_2_pets, the_sims_3, the_sims_bustin_out, TextureError};

/// A record for the little-endian title: 16 prefix bytes, the name "a" with
/// its terminator at index 1 of the trimmed bytes, then header fields at
/// fixed offsets from that terminator.
fn sims2_record(flags: u8, flags2: u8, flags3: u8, width: u16, height: u16, data: &[u8]) -> Vec<u8> {
    let mut t = vec![0u8; 38];
    t[0] = b'a';
    t[1] = 0;
    t[14] = flags; // n + 13
    t[22] = width as u8; // n + 21, little-endian
    t[23] = (width >> 8) as u8;
    t[24] = height as u8; // n + 23
    t[25] = (height >> 8) as u8;
    t[30] = flags2; // n + 29
    t[32] = flags3; // n + 31
    t.extend_from_slice(data);
    let mut record = vec![0u8; 16];
    record.extend_from_slice(&t);
    record
}

/// A record for the big-endian titles, with a format code and palette
/// shape fields.
fn gamecube_record(ttype: u8, tbc: u8, pcount: u16, pbit: u8, width: u16, height: u16, data: &[u8]) -> Vec<u8> {
    let mut t = vec![0u8; 38];
    t[0] = b'a';
    t[1] = 0;
    t[22] = (width >> 8) as u8; // n + 21, big-endian
    t[23] = width as u8;
    t[24] = (height >> 8) as u8; // n + 23
    t[25] = height as u8;
    t[26] = (pcount >> 8) as u8; // n + 25
    t[27] = pcount as u8;
    t[30] = ttype; // n + 29
    t[32] = tbc; // n + 31
    t[33] = pbit; // n + 32
    t.extend_from_slice(data);
    let mut record = vec![0u8; 16];
    record.extend_from_slice(&t);
    record
}

#[test]
fn sims2_default_path_is_swizzled_rgba() {
    // High bit clear would pick a block-compressed path, so set an unused
    // flag bit with flags2 odd: no branch matches and the default runs.
    let record = sims2_record(0x40, 0x01, 0x00, 1, 1, &[1, 2, 3, 4]);
    let img = the_sims_2::convert(&record).unwrap();
    assert_eq!(img.width(), 1);
    assert_eq!(img.height(), 1);
    assert_eq!(img.get_pixel(0, 0), Rgba { r: 1, g: 2, b: 3, a: 4 });
}

#[test]
fn sims2_bc1_path_decodes_blocks() {
    let block = [0xff, 0xff, 0xff, 0xff, 0, 0, 0, 0];
    let record = sims2_record(0x00, 0x00, 0x00, 4, 4, &block);
    let img = the_sims_2::convert(&record).unwrap();
    assert_eq!(img.get_pixel(2, 2), Rgba { r: 255, g: 255, b: 255, a: 255 });
}

#[test]
fn sims2_truncated_record_is_malformed() {
    let record = sims2_record(0x00, 0x00, 0x00, 4, 4, &[1, 2, 3]);
    assert_eq!(the_sims_2::convert(&record).unwrap_err(), TextureError::MalformedArchive);
}

#[test]
fn sims2_archive_extraction_decodes_each_record() {
    let record = sims2_record(0x40, 0x01, 0x00, 1, 1, &[9, 8, 7, 6]);
    // Blob: pointer word, the record, then the file list.
    let mut blob = Vec::new();
    blob.extend_from_slice(&[0, 0, 0, 0]); // patched below
    let record_at = blob.len();
    blob.extend_from_slice(&record);
    let list_at = blob.len() as u32;
    blob[0..4].copy_from_slice(&list_at.to_le_bytes());
    blob.extend_from_slice(&1u32.to_le_bytes()); // count
    blob.extend_from_slice(&3u32.to_le_bytes()); // id
    blob.extend_from_slice(&(record_at as u32).to_le_bytes());
    blob.extend_from_slice(&(record.len() as u32).to_le_bytes());
    blob.extend_from_slice(b"tex\0");
    blob.extend_from_slice(&[0; 8]);

    let out = the_sims_2::extract_textures(&blob).unwrap();
    assert_eq!(out.len(), 1);
    assert_eq!(out[0].0, "tex");
    assert_eq!(out[0].1.get_pixel(0, 0), Rgba { r: 9, g: 8, b: 7, a: 6 });
}

#[test]
fn pets_raw_rgb_path() {
    let record = gamecube_record(0x01, 0, 0, 0, 1, 1, &[5, 6, 7]);
    let img = the_sims_2_pets::convert(&record).unwrap();
    assert_eq!(img.get_pixel(0, 0), Rgba { r: 5, g: 6, b: 7, a: 255 });
}

#[test]
fn pets_unknown_format_code_is_unrecognized() {
    let record = gamecube_record(0x07, 0, 0, 0, 1, 1, &[0; 8]);
    assert_eq!(
        the_sims_2_pets::convert(&record).unwrap_err(),
        TextureError::UnrecognizedFormatCode
    );
}

#[test]
fn pets_wrong_palette_shape_is_a_mismatch() {
    let record = gamecube_record(0x89, 0, 5, 32, 8, 8, &[0; 32]);
    assert_eq!(
        the_sims_2_pets::convert(&record).unwrap_err(),
        TextureError::PaletteSizeMismatch
    );
}

#[test]
fn pets_rgb565_is_decoded_without_decompression() {
    let record = gamecube_record(0x82, 0, 0, 0, 4, 4, &[0xff; 32]);
    let img = the_sims_2_pets::convert(&record).unwrap();
    assert_eq!(img.get_pixel(1, 1), Rgba { r: 255, g: 255, b: 255, a: 255 });
}

#[test]
fn pets_rgb565_ignores_bytes_past_the_encoded_size() {
    // A 4x4 RGB565 texture is exactly 32 encoded bytes; one stray trailing
    // byte (an odd total) must not disturb the decode.
    let record = gamecube_record(0x82, 0, 0, 0, 4, 4, &[0xff; 33]);
    let img = the_sims_2_pets::convert(&record).unwrap();
    assert_eq!(img.get_pixel(0, 0), Rgba { r: 255, g: 255, b: 255, a: 255 });
}

#[test]
fn pets_rgb565_distinguishes_the_color_channels() {
    // 0xf800 big-endian words: only the red field is set.
    let mut tile = Vec::new();
    for _ in 0..16 {
        tile.extend_from_slice(&[0xf8, 0x00]);
    }
    let record = gamecube_record(0x82, 0, 0, 0, 4, 4, &tile);
    let img = the_sims_2_pets::convert(&record).unwrap();
    let p = img.get_pixel(2, 2);
    assert_eq!((p.r, p.g, p.b, p.a), (255, 0, 0, 255));
}

#[test]
fn sims3_rgb5a3_is_decompressed_first() {
    // The pixel stream is run-length compressed: a four-byte length word,
    // then counted 16-bit elements expanding to a 4x4 tile of 0xffff.
    let mut data = Vec::new();
    data.extend_from_slice(&6u32.to_le_bytes());
    data.extend_from_slice(&[8, 0xff, 0xff]);
    data.extend_from_slice(&[8, 0xff, 0xff]);
    let record = gamecube_record(0x82, 16, 0, 0, 4, 4, &data);
    let img = the_sims_3::convert(&record).unwrap();
    assert_eq!(img.get_pixel(3, 0), Rgba { r: 255, g: 255, b: 255, a: 255 });
}

#[test]
fn sims3_unknown_format_code_is_unrecognized() {
    let record = gamecube_record(0x55, 8, 0, 0, 1, 1, &[0; 8]);
    assert_eq!(
        the_sims_3::convert(&record).unwrap_err(),
        TextureError::UnrecognizedFormatCode
    );
}

#[test]
fn sims3_wrong_palette_shape_is_a_mismatch() {
    let record = gamecube_record(0x8a, 8, 16, 32, 8, 4, &[0; 64]);
    assert_eq!(
        the_sims_3::convert(&record).unwrap_err(),
        TextureError::PaletteSizeMismatch
    );
}

#[test]
fn bustin_out_rle_archive_round_trip() {
    // One run-length record in an offset-table archive.
    let mut record = vec![0u8];
    let mut palette = vec![0u8; 1024];
    palette[0] = 50;
    palette[1] = 60;
    palette[2] = 70;
    palette[3] = 100;
    record.extend_from_slice(&palette);
    record.extend_from_slice(&[0, 0, 0, 0]);
    for _ in 0..516 {
        record.extend_from_slice(&[127, 0]);
    }
    record.extend_from_slice(&[4, 0]);

    let mut blob = Vec::new();
    blob.extend_from_slice(&[0, 0, 0, 0]);
    let record_at = blob.len();
    blob.extend_from_slice(&record);
    let list_at = blob.len() as u32;
    blob[0..4].copy_from_slice(&list_at.to_le_bytes());
    blob.extend_from_slice(&1u32.to_le_bytes());
    blob.extend_from_slice(&11u32.to_le_bytes());
    blob.extend_from_slice(&(record_at as u32).to_le_bytes());
    blob.extend_from_slice(&(record.len() as u32).to_le_bytes());
    blob.extend_from_slice(b"rle\0");
    blob.extend_from_slice(&[0; 8]);

    let out = the_sims_bustin_out::extract_rle_textures(&blob, texture_extract::Endianness::Little).unwrap();
    assert_eq!(out.len(), 1);
    assert_eq!(out[0].0, "rle");
    // This title always rescales the palette alpha.
    assert_eq!(out[0].1.get_pixel(128, 128), Rgba { r: 50, g: 60, b: 70, a: 200 });
}
