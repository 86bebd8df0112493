use texture_extract::rle_textures::{convert, rle_decompress};
use texture_extract::the_sims_3::decode_rle;
use texture_extract::TextureError;

#[test]
fn positive_count_repeats_the_next_byte() {
    // The literal run [5, 5, 5, 5, 5] encoded as (5, 5).
    let r = rle_decompress(&[5, 5]).unwrap();
    assert_eq!(r, vec![5, 5, 5, 5, 5]);
}

#[test]
fn negative_count_copies_bytes_verbatim() {
    // (-3, [1, 2, 3]) decodes to [1, 2, 3].
    let r = rle_decompress(&[253, 1, 2, 3]).unwrap();
    assert_eq!(r, vec![1, 2, 3]);
}

#[test]
fn verbatim_run_past_the_end_fails() {
    assert!(rle_decompress(&[253, 1, 2]).is_none());
}

#[test]
fn final_byte_is_never_a_new_count() {
    // After the first pair the cursor sits on the last byte, which must
    // not start another run.
    let r = rle_decompress(&[2, 9, 7]).unwrap();
    assert_eq!(r, vec![9, 9]);
}

#[test]
fn counted_element_decode_with_each_width() {
    // Payload length word, then (count, element) pairs.
    let mut b8 = vec![2, 0, 0, 0];
    b8.extend_from_slice(&[3, 7]);
    assert_eq!(decode_rle(&b8, 8).unwrap(), vec![7, 7, 7]);

    let mut b16 = vec![3, 0, 0, 0];
    b16.extend_from_slice(&[2, 0xaa, 0xbb]);
    assert_eq!(decode_rle(&b16, 16).unwrap(), vec![0xaa, 0xbb, 0xaa, 0xbb]);

    let mut b32 = vec![5, 0, 0, 0];
    b32.extend_from_slice(&[2, 1, 2, 3, 4]);
    assert_eq!(decode_rle(&b32, 32).unwrap(), vec![1, 2, 3, 4, 1, 2, 3, 4]);
}

#[test]
fn counted_element_decode_rejects_other_widths() {
    assert!(decode_rle(&[1, 0, 0, 0, 0], 12).is_none());
}

#[test]
fn counted_element_decode_rejects_short_length_word() {
    assert!(decode_rle(&[9, 0, 0, 0, 1, 2], 8).is_none());
}

#[test]
fn rle_record_decodes_through_the_palette() {
    // A full record: one prefix byte, 1024 palette bytes, four skipped
    // bytes, then a stream expanding to 65536 copies of index 1.
    let mut record = vec![0u8];
    let mut palette = vec![0u8; 1024];
    palette[4] = 11;
    palette[5] = 22;
    palette[6] = 33;
    palette[7] = 44;
    record.extend_from_slice(&palette);
    record.extend_from_slice(&[0, 0, 0, 0]);
    // 65536 = 127 * 516 + 4; all runs repeat index 1.
    for _ in 0..516 {
        record.extend_from_slice(&[127, 1]);
    }
    record.extend_from_slice(&[4, 1]);
    let img = convert(&record, true).unwrap();
    assert_eq!(img.width(), 256);
    assert_eq!(img.height(), 256);
    let p = img.get_pixel(0, 0);
    assert_eq!((p.r, p.g, p.b), (11, 22, 33));
    // Alpha 44 is rescaled to 88 on this path.
    assert_eq!(p.a, 88);
    let q = convert(&record, false).unwrap().get_pixel(255, 255);
    assert_eq!(q.a, 44);
}

#[test]
fn truncated_rle_record_is_malformed() {
    let record = vec![0u8; 1000];
    assert_eq!(convert(&record, true).unwrap_err(), TextureError::MalformedArchive);
}

#[test]
fn rle_record_with_wrong_expansion_is_malformed() {
    // Well-formed header but the stream expands to only five bytes.
    let mut record = vec![0u8; 1029];
    record.extend_from_slice(&[5, 1]);
    assert_eq!(convert(&record, true).unwrap_err(), TextureError::MalformedArchive);
}
