// The trusted digest wrappers held against published test vectors: a
// wrapper that returned anything but the named primitive's output would
// fail here.

use hmac::Mac as _;
use smb3_client::crypto::{cmac_aes128, hmac_sha256, os_random_bytes, sha512_pair, sp800_108_counter_kdf};

#[test]
fn sha512_empty_vector() {
    let empty: Vec<u8> = Vec::new();
    let d = sha512_pair(&empty, &empty);
    let expected: Vec<u8> = vec![
        0xcf, 0x83, 0xe1, 0x35, 0x7e, 0xef, 0xb8, 0xbd, 0xf1, 0x54, 0x28, 0x50, 0xd6, 0x6d, 0x80,
        0x07, 0xd6, 0x20, 0xe4, 0x05, 0x0b, 0x57, 0x15, 0xdc, 0x83, 0xf4, 0xa9, 0x21, 0xd3, 0x6c,
        0xe9, 0xce, 0x47, 0xd0, 0xd1, 0x3c, 0x5d, 0x85, 0xf2, 0xb0, 0xff, 0x83, 0x18, 0xd2, 0x87,
        0x7e, 0xec, 0x2f, 0x63, 0xb9, 0x31, 0xbd, 0x47, 0x41, 0x7a, 0x81, 0xa5, 0x38, 0x32, 0x7a,
        0xf9, 0x27, 0xda, 0x3e,
    ];
    assert_eq!(d, expected);
}

#[test]
fn sha512_concatenates_its_two_parts() {
    let a: Vec<u8> = vec![1, 2, 3];
    let b: Vec<u8> = vec![4, 5];
    let whole: Vec<u8> = vec![1, 2, 3, 4, 5];
    let empty: Vec<u8> = Vec::new();
    assert_eq!(sha512_pair(&a, &b), sha512_pair(&whole, &empty));
}

#[test]
fn hmac_sha256_published_vector() {
    // Key of twenty 0x0b bytes, message "Hi There".
    let key: Vec<u8> = vec![0x0b; 20];
    let data: Vec<u8> = vec![0x48, 0x69, 0x20, 0x54, 0x68, 0x65, 0x72, 0x65];
    let tag = hmac_sha256(&key, &data);
    let expected: Vec<u8> = vec![
        0xb0, 0x34, 0x4c, 0x61, 0xd8, 0xdb, 0x38, 0x53, 0x5c, 0xa8, 0xaf, 0xce, 0xaf, 0x0b, 0xf1,
        0x2b, 0x88, 0x1d, 0xc2, 0x00, 0xc9, 0x83, 0x3d, 0xa7, 0x26, 0xe9, 0x37, 0x6c, 0x2e, 0x32,
        0xcf, 0xf7,
    ];
    assert_eq!(tag, expected);
}

#[test]
fn cmac_aes128_published_vectors() {
    let key: Vec<u8> = vec![
        0x2b, 0x7e, 0x15, 0x16, 0x28, 0xae, 0xd2, 0xa6, 0xab, 0xf7, 0x15, 0x88, 0x09, 0xcf, 0x4f,
        0x3c,
    ];
    let empty: Vec<u8> = Vec::new();
    let tag = cmac_aes128(&key, &empty);
    let expected: Vec<u8> = vec![
        0xbb, 0x1d, 0x69, 0x29, 0xe9, 0x59, 0x37, 0x28, 0x7f, 0xa3, 0x7d, 0x12, 0x9b, 0x75, 0x67,
        0x46,
    ];
    assert_eq!(tag, expected);

    let msg: Vec<u8> = vec![
        0x6b, 0xc1, 0xbe, 0xe2, 0x2e, 0x40, 0x9f, 0x96, 0xe9, 0x3d, 0x7e, 0x11, 0x73, 0x93, 0x17,
        0x2a,
    ];
    let tag = cmac_aes128(&key, &msg);
    let expected: Vec<u8> = vec![
        0x07, 0x0a, 0x16, 0xb4, 0x6b, 0x4d, 0x41, 0x44, 0xf7, 0x9b, 0xdd, 0x9d, 0xd0, 0x4a, 0x28,
        0x7c,
    ];
    assert_eq!(tag, expected);
}

#[test]
fn kdf_spans_blocks_and_truncates() {
    // Forty bytes need two HMAC blocks; the result is their concatenation
    // cut to length, recomputed here with the mac crates directly.
    let secret: Vec<u8> = vec![9; 32];
    let label: Vec<u8> = vec![0x4c, 0x61, 0x62];
    let salt: Vec<u8> = vec![7; 10];
    let out = sp800_108_counter_kdf(40, &secret, &label, &salt);
    assert_eq!(out.len(), 40);

    let mut stream: Vec<u8> = Vec::new();
    for counter in 1u32..=2 {
        let mut input: Vec<u8> = Vec::new();
        input.extend_from_slice(&counter.to_be_bytes());
        input.extend_from_slice(&label);
        input.push(0);
        input.extend_from_slice(&salt);
        input.extend_from_slice(&(40u32 * 8).to_be_bytes());
        let mut mac = hmac::Hmac::<sha2::Sha256>::new_from_slice(&secret).unwrap();
        hmac::Mac::update(&mut mac, &input);
        stream.extend_from_slice(&hmac::Mac::finalize(mac).into_bytes());
    }
    assert_eq!(&out[..], &stream[..40]);
}

#[test]
fn random_bytes_have_the_asked_length() {
    let a = os_random_bytes(32).unwrap();
    assert_eq!(a.len(), 32);
    let b = os_random_bytes(32).unwrap();
    assert_eq!(b.len(), 32);
    // Two 32-byte draws colliding would be astronomically unlikely.
    assert!(a != b);
}
