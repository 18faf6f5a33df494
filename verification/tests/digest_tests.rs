use sha1_mac::digest::sha1;
use sha1_mac::hexstr::digest_hex;

fn sha1_hex(message: &[u8]) -> String {
    let digest = sha1(message).expect("digest computation is total");
    digest_hex(&digest)
}

#[test]
fn digest_is_twenty_bytes() {
    let digest = sha1(b"any message at all").expect("digest computation is total");
    assert_eq!(digest.len(), 20);
    let empty = sha1(b"").expect("digest computation is total");
    assert_eq!(empty.len(), 20);
}

#[test]
fn digest_empty_string() {
    assert_eq!(sha1_hex(b""), "da39a3ee5e6b4b0d3255bfef95601890afd80709");
}

#[test]
fn digest_abc() {
    assert_eq!(sha1_hex(b"abc"), "a9993e364706816aba3e25717850c26c9cd0d89d");
}

#[test]
fn digest_is_deterministic() {
    let message = b"determinism check: same bytes, same digest";
    let first = sha1(message).expect("digest computation is total");
    let second = sha1(message).expect("digest computation is total");
    assert_eq!(first, second);
}

#[test]
fn digest_padding_boundary_lengths() {
    // Lengths 0, 55, 56, 63 and 64 exercise every padding edge: 55 needs no
    // zero bytes at all, 56 and 63 spill into a second block, 64 is exactly
    // one full block of input.
    assert_eq!(sha1_hex(b""), "da39a3ee5e6b4b0d3255bfef95601890afd80709");
    assert_eq!(sha1_hex(&[b'a'; 55]), "c1c8bbdc22796e28c0e15163d20899b65621d65a");
    assert_eq!(sha1_hex(&[b'a'; 56]), "c2db330f6083854c99d4b5bfb6e8f29f201be699");
    assert_eq!(sha1_hex(&[b'a'; 63]), "03f09f5b158a7a8cdad920bddc29b81c18a551f5");
    assert_eq!(sha1_hex(&[b'a'; 64]), "0098ba824b5c16427bd7a1122a5a442a25ec644d");
}

#[test]
fn digest_two_blocks() {
    // 56 bytes pad to exactly two 64-byte blocks; the reference value is the
    // classic SHA-1 two-block test vector.
    assert_eq!(
        sha1_hex(b"abcdbcdecdefdefgefghfghighijhijkijkljklmklmnlmnomnopnopq"),
        "84983e441c3bd26ebaae4aa1f95129e5e54670f1"
    );
}

#[test]
fn digest_three_blocks() {
    // 120 bytes pad to exactly three 64-byte blocks.
    assert_eq!(sha1_hex(&[b'a'; 120]), "f34c1488385346a55709ba056ddd08280dd4c6d6");
}

#[test]
fn hex_rendering_of_fixed_digest() {
    let digest: [u8; 20] = [
        0x00, 0x01, 0x02, 0x03, 0x04, 0x05, 0x06, 0x07, 0x08, 0x09, 0x0a, 0x0b, 0x0c, 0x0d,
        0x0e, 0x0f, 0x10, 0x11, 0x12, 0x13,
    ];
    assert_eq!(digest_hex(&digest), "000102030405060708090a0b0c0d0e0f10111213");
    let high: [u8; 20] = [0xff; 20];
    assert_eq!(digest_hex(&high), "ffffffffffffffffffffffffffffffffffffffff");
}
