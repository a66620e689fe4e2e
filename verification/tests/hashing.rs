use md5check::hash::{bytes_eq, digest_matches, to_hex, verify_bytes, verify_bytes_chunked, Hasher};

fn hex_string(digest: &Vec<u8>) -> String {
    String::from_utf8(to_hex(digest)).unwrap()
}

#[test]
fn known_digests() {
    // reference values of the md5 of "" and of "abc"
    assert!(verify_bytes(b"", "d41d8cd98f00b204e9800998ecf8427e"));
    assert!(verify_bytes(b"abc", "900150983cd24fb0d6963f7d28e17f72"));
    assert!(!verify_bytes(b"abc", "d41d8cd98f00b204e9800998ecf8427e"));
}

#[test]
fn hasher_agrees_with_the_md5_crate() {
    let data = b"The quick brown fox jumps over the lazy dog";
    let mut h = Hasher::new();
    h.update(data);
    let d = h.finish();
    assert_eq!(hex_string(&d), format!("{:x}", md5::compute(data)));
}

#[test]
fn chunked_and_whole_buffer_digests_are_identical() {
    let data: Vec<u8> = (0..=255u8).cycle().take(1000).collect();
    let expected = format!("{:x}", md5::compute(&data));
    assert!(verify_bytes(&data, &expected));
    for chunk_size in [1usize, 3, 7, 64, 999, 1000, 5000] {
        assert!(verify_bytes_chunked(&data, chunk_size, &expected));
    }
    // the same through explicit incremental updates of uneven sizes
    let mut h = Hasher::new();
    h.update(&data[0..1]);
    h.update(&data[1..500]);
    h.update(&data[500..500]);
    h.update(&data[500..1000]);
    assert_eq!(hex_string(&h.finish()), expected);
}

#[test]
fn roundtrip_matches_and_bit_flip_fails() {
    let data = b"some file content";
    let mut h = Hasher::new();
    h.update(data);
    let digest = h.finish();
    let own_hex = hex_string(&digest);
    // a digest always matches its own rendering
    assert!(digest_matches(&digest, &own_hex));
    // a single flipped bit anywhere in the digest is always detected
    for byte in 0..16 {
        for bit in 0..8 {
            let mut flipped = digest.clone();
            flipped[byte] ^= 1u8 << bit;
            let flipped_hex = hex_string(&flipped);
            assert!(!digest_matches(&digest, &flipped_hex));
        }
    }
}

#[test]
fn hex_rendering_is_exact_lowercase() {
    assert_eq!(to_hex(&[0x00, 0xff, 0x1a, 0x90]), b"00ff1a90".to_vec());
    assert_eq!(to_hex(&[]), Vec::<u8>::new());
}

#[test]
fn comparison_is_case_sensitive_and_exact() {
    let data = b"abc";
    let mut h = Hasher::new();
    h.update(data);
    let digest = h.finish();
    // uppercase rendering of the right digest is not accepted
    assert!(!digest_matches(&digest, "900150983CD24FB0D6963F7D28E17F72"));
    // a truncated reference is not accepted
    assert!(!digest_matches(&digest, "900150983cd24fb0d6963f7d28e17f7"));
}

#[test]
fn byte_comparison() {
    assert!(bytes_eq(b"abc", b"abc"));
    assert!(!bytes_eq(b"abc", b"abd"));
    assert!(!bytes_eq(b"abc", b"ab"));
    assert!(bytes_eq(b"", b""));
}
