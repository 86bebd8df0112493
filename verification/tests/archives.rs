use texture_extract::arc::list_files;
use texture_extract::datasets::list_textures;
use texture_extract::{Endianness, TextureError};

fn le32(v: u32) -> [u8; 4] {
    [v as u8, (v >> 8) as u8, (v >> 16) as u8, (v >> 24) as u8]
}

#[test]
fn offset_table_with_two_records() {
    // Blob layout: pointer word, 16 bytes of record data, then the file
    // list: count, and two fixed-format entries.
    let mut blob = Vec::new();
    blob.extend_from_slice(&le32(20)); // file list begins at offset 20
    blob.extend_from_slice(&[0xaa; 16]); // record payload space
    blob.extend_from_slice(&le32(2)); // file count
    // Record 1: id 7, address 4, size 3, name "abc", 9 bytes padding.
    blob.extend_from_slice(&le32(7));
    blob.extend_from_slice(&le32(4));
    blob.extend_from_slice(&le32(3));
    blob.extend_from_slice(b"abc\0");
    blob.extend_from_slice(&[0; 8]);
    // Record 2: id 9, address 8, size 2, name "d", 9 bytes padding.
    blob.extend_from_slice(&le32(9));
    blob.extend_from_slice(&le32(8));
    blob.extend_from_slice(&le32(2));
    blob.extend_from_slice(b"d\0");
    blob.extend_from_slice(&[0; 8]);

    let files = list_files(&blob, Endianness::Little).unwrap();
    assert_eq!(files.len(), 2);
    assert_eq!(files[0].name, "abc");
    assert_eq!(files[0].id, 7);
    assert_eq!(files[0].offset, 4);
    assert_eq!(files[0].size, 3);
    assert_eq!(files[1].name, "d");
    assert_eq!(files[1].id, 9);
    assert_eq!(files[1].offset, 8);
    assert_eq!(files[1].size, 2);
}

#[test]
fn offset_table_big_endian_fields() {
    let mut blob = Vec::new();
    blob.extend_from_slice(&le32(4)); // list at 4; pointer is always little-endian
    blob.extend_from_slice(&[0, 0, 0, 1]); // count 1, big-endian
    blob.extend_from_slice(&[0, 0, 0, 5]); // id 5
    blob.extend_from_slice(&[0, 0, 0, 0]); // address 0
    blob.extend_from_slice(&[0, 0, 0, 2]); // size 2
    blob.extend_from_slice(b"x\0");
    blob.extend_from_slice(&[0; 8]);
    let files = list_files(&blob, Endianness::Big).unwrap();
    assert_eq!(files.len(), 1);
    assert_eq!(files[0].name, "x");
    assert_eq!(files[0].id, 5);
    assert_eq!(files[0].size, 2);
}

#[test]
fn offset_table_missing_terminator_is_malformed() {
    let mut blob = Vec::new();
    blob.extend_from_slice(&le32(4));
    blob.extend_from_slice(&le32(1));
    blob.extend_from_slice(&le32(1));
    blob.extend_from_slice(&le32(0));
    blob.extend_from_slice(&le32(0));
    blob.extend_from_slice(b"name_without_null");
    assert_eq!(
        list_files(&blob, Endianness::Little).unwrap_err(),
        TextureError::MalformedArchive
    );
}

#[test]
fn offset_table_range_past_blob_is_malformed() {
    let mut blob = Vec::new();
    blob.extend_from_slice(&le32(4));
    blob.extend_from_slice(&le32(1));
    blob.extend_from_slice(&le32(1)); // id
    blob.extend_from_slice(&le32(0)); // address
    blob.extend_from_slice(&le32(9999)); // size far past the blob
    blob.extend_from_slice(b"n\0");
    blob.extend_from_slice(&[0; 8]);
    assert_eq!(
        list_files(&blob, Endianness::Little).unwrap_err(),
        TextureError::MalformedArchive
    );
}

#[test]
fn short_blob_is_malformed() {
    assert_eq!(
        list_files(&[1, 2], Endianness::Little).unwrap_err(),
        TextureError::MalformedArchive
    );
}

#[test]
fn signature_scan_finds_marker_records() {
    // Twelve bytes before the marker hold the id and size words.
    let mut blob = Vec::new();
    blob.extend_from_slice(&le32(42)); // id at p - 12
    blob.extend_from_slice(&le32(10)); // size at p - 8
    blob.extend_from_slice(&[0u8; 4]); // p - 4 .. p
    let p = blob.len();
    blob.extend_from_slice(b"TXFL");
    blob.extend_from_slice(b"ab\0");
    blob.extend_from_slice(&[0; 3]); // rest of the 10-byte record
    blob.extend_from_slice(&[0xee; 5]); // trailing unrelated bytes
    let files = list_textures(&blob, Endianness::Little).unwrap();
    assert_eq!(files.len(), 1);
    assert_eq!(files[0].name, "ab");
    assert_eq!(files[0].id, 42);
    assert_eq!(files[0].offset, p);
    assert_eq!(files[0].size, 10);
}

#[test]
fn signature_scan_big_endian_reads_reversed_marker() {
    // In big-endian archives the matching window holds the bytes "LFXT".
    let mut blob = Vec::new();
    blob.extend_from_slice(&[0, 0, 0, 6]); // id 6
    blob.extend_from_slice(&[0, 0, 0, 8]); // size 8
    blob.extend_from_slice(&[0u8; 4]);
    blob.extend_from_slice(b"LFXT");
    blob.extend_from_slice(b"c\0");
    blob.extend_from_slice(&[0; 2]);
    let files = list_textures(&blob, Endianness::Big).unwrap();
    assert_eq!(files.len(), 1);
    assert_eq!(files[0].name, "c");
    assert_eq!(files[0].id, 6);
    assert_eq!(files[0].size, 8);
}

#[test]
fn signature_scan_without_match_yields_nothing() {
    let blob = vec![1u8; 64];
    let files = list_textures(&blob, Endianness::Little).unwrap();
    assert!(files.is_empty());
}

#[test]
fn marker_too_close_to_start_is_malformed() {
    let mut blob = vec![0u8; 4];
    blob.extend_from_slice(b"TXFL");
    assert_eq!(
        list_textures(&blob, Endianness::Little).unwrap_err(),
        TextureError::MalformedArchive
    );
}
