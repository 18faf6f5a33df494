use sha1_mac::digest::sha1;
use sha1_mac::hexstr::digest_hex;
use sha1_mac::mac::calculate_mac;

#[test]
fn mac_equals_digest_of_concatenation() {
    let key = b"secret_key";
    let message = b"Hello, world!";
    let mac = calculate_mac(key, message).expect("mac computation is total");
    let mut concatenated = Vec::new();
    concatenated.extend_from_slice(key);
    concatenated.extend_from_slice(message);
    let digest = sha1(&concatenated).expect("digest computation is total");
    assert_eq!(mac, digest);

    let key2 = b"k";
    let message2 = b"a longer message that spans more than one block when padded, aaaa";
    let mac2 = calculate_mac(key2, message2).expect("mac computation is total");
    let mut concatenated2 = Vec::new();
    concatenated2.extend_from_slice(key2);
    concatenated2.extend_from_slice(message2);
    let digest2 = sha1(&concatenated2).expect("digest computation is total");
    assert_eq!(mac2, digest2);
}

#[test]
fn mac_known_value() {
    let mac = calculate_mac(b"secret_key", b"Hello, world!").expect("mac computation is total");
    assert_eq!(digest_hex(&mac), "1e5b84c7bb699a3211990ba18e2defac4a4070cb");
}

#[test]
fn mac_forgery_attempt_differs() {
    // An unrelated forged message does not collide with the original MAC;
    // this shows nothing about resistance to length extension.
    let key = b"secret_key";
    let mac = calculate_mac(key, b"Hello, world!").expect("mac computation is total");
    let forged_mac =
        calculate_mac(key, b"Hello, forged message!").expect("mac computation is total");
    assert_ne!(mac, forged_mac);
    assert_eq!(digest_hex(&forged_mac), "6ee7581c7f2220991d47bed6b5307ee558e9e090");
}

#[test]
fn mac_depends_on_key() {
    let message = b"Hello, world!";
    let mac = calculate_mac(b"secret_key", message).expect("mac computation is total");
    let other = calculate_mac(b"another_key", message).expect("mac computation is total");
    assert_ne!(mac, other);
    assert_eq!(digest_hex(&other), "83da47de942c09fdff4be620fc8ede4d49026868");
}

#[test]
fn mac_empty_key_and_message() {
    // The wrapper is total even on empty inputs: it degenerates to a digest
    // of the other input alone.
    let mac = calculate_mac(b"", b"abc").expect("mac computation is total");
    let digest = sha1(b"abc").expect("digest computation is total");
    assert_eq!(mac, digest);
    let mac2 = calculate_mac(b"abc", b"").expect("mac computation is total");
    assert_eq!(mac2, digest);
}
