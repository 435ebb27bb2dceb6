//! The binary layout: header signature, little-endian face count, and the
//! exact 84 + 50-per-face file size.

use img2roller::encode::encode_stl;

#[test]
fn test_empty_mesh_size() {
    let words: Vec<u32> = Vec::new();
    let bytes = encode_stl(0, &words);
    assert_eq!(bytes.len(), 84);
}

#[test]
fn test_single_face_size_and_layout() {
    let words: Vec<u32> = vec![
        0, 0, 0x3f800000, // normal (0, 0, 1) as 32-bit float words
        0, 0, 0, // first vertex
        0x3f800000, 0, 0, // second vertex
        0, 0x3f800000, 0, // third vertex
    ];
    let bytes = encode_stl(1, &words);
    assert_eq!(bytes.len(), 84 + 50);
    // The header opens with the signature text and is zero padded.
    assert_eq!(&bytes[0..14], b"pattern roller");
    assert!(bytes[14..80].iter().all(|&b| b == 0));
    // The face count is little endian.
    assert_eq!(&bytes[80..84], &[1, 0, 0, 0]);
    // The record holds the twelve words in order, then the spacer.
    assert_eq!(&bytes[84..88], &[0, 0, 0, 0]);
    assert_eq!(&bytes[92..96], &[0, 0, 0x80, 0x3f]);
    assert_eq!(&bytes[132..134], &[0, 0]);
}

#[test]
fn test_size_matches_header_count() {
    // File size is 84 + 50 times the face count the header declares.
    for n in [2u32, 3, 7] {
        let words: Vec<u32> = vec![5; (12 * n) as usize];
        let bytes = encode_stl(n, &words);
        assert_eq!(bytes.len(), 84 + 50 * (n as usize));
        assert_eq!(&bytes[80..84], &[n as u8, 0, 0, 0]);
    }
}
