//! The cryptographic primitives the engine consumes, behind trusted
//! wrappers: each names its outside function and states only what that
//! function's source or documentation shows. The digests are given opaque
//! names — functions of their inputs alone — and the key-derivation loop is
//! verified against those names.

use vstd::prelude::*;
use hmac::Mac;
use sha2::Digest;
use crate::bytes::{put_be32, put_bytes, put_u8, read_bytes, spec_be32};

verus! {

/// The SHA-512 digest of a byte sequence.
pub uninterp spec fn sha512_of(data: Seq<u8>) -> Seq<u8>;

/// The HMAC-SHA-256 tag of a message under a key.
pub uninterp spec fn hmac_sha256_of(key: Seq<u8>, data: Seq<u8>) -> Seq<u8>;

/// The CMAC-AES-128 tag of a message under a 16-byte key.
pub uninterp spec fn cmac_aes128_of(key: Seq<u8>, data: Seq<u8>) -> Seq<u8>;

/// Relies on sha2's Sha512 (Digest::new, update, finalize): the digest
/// depends on the concatenated input alone and is 64 bytes long.
#[verifier::external_body]
pub fn sha512_pair(a: &Vec<u8>, b: &Vec<u8>) -> (r: Vec<u8>)
    ensures
        r@ == sha512_of(a@ + b@),
        r@.len() == 64,
{
    let mut h = sha2::Sha512::new();
    h.update(&a[..]);
    h.update(&b[..]);
    h.finalize().to_vec()
}

/// Relies on hmac's Hmac over sha2's Sha256 (Mac::new_from_slice, update,
/// finalize): a key of any length is accepted (the source hashes or pads
/// it), and the 32-byte tag depends on key and message alone.
#[verifier::external_body]
pub fn hmac_sha256(key: &Vec<u8>, data: &Vec<u8>) -> (r: Vec<u8>)
    ensures
        r@ == hmac_sha256_of(key@, data@),
        r@.len() == 32,
{
    let mut m = <hmac::Hmac<sha2::Sha256>>::new_from_slice(&key[..]).unwrap();
    m.update(&data[..]);
    m.finalize().into_bytes().to_vec()
}

/// Relies on cmac's Cmac over aes's Aes128 (Mac::new_from_slice, update,
/// finalize): the key must be exactly 16 bytes (the source rejects any other
/// length), and the 16-byte tag depends on key and message alone.
#[verifier::external_body]
pub fn cmac_aes128(key: &Vec<u8>, data: &Vec<u8>) -> (r: Vec<u8>)
    requires
        key@.len() == 16,
    ensures
        r@ == cmac_aes128_of(key@, data@),
        r@.len() == 16,
{
    let mut m = <cmac::Cmac<aes::Aes128>>::new_from_slice(&key[..]).unwrap();
    m.update(&data[..]);
    m.finalize().into_bytes().to_vec()
}

/// Relies on rand's OsRng (RngCore::try_fill_bytes): on success the buffer
/// holds bytes from the operating system's generator; nothing is promised of
/// their values.
#[verifier::external_body]
pub fn os_random_bytes(n: usize) -> (r: Option<Vec<u8>>)
    ensures
        r matches Some(v) ==> v@.len() == n,
{
    let mut buf = vec![0u8; n];
    match rand::RngCore::try_fill_bytes(&mut rand::rngs::OsRng, &mut buf) {
        Ok(()) => Some(buf),
        Err(_) => None,
    }
}

/// One block of the counter-mode key-derivation function: the HMAC of the
/// big-endian counter, the label, a zero byte, the context salt, and the
/// big-endian output bit length.
pub open spec fn spec_kdf_block(
    secret: Seq<u8>,
    label: Seq<u8>,
    salt: Seq<u8>,
    counter: u32,
    bits: u32,
) -> Seq<u8> {
    hmac_sha256_of(secret, spec_be32(counter) + label + seq![0u8] + salt + spec_be32(bits))
}

/// The concatenation of the first `nblocks` derivation blocks, counters
/// counted from one.
pub open spec fn spec_kdf_stream(
    secret: Seq<u8>,
    label: Seq<u8>,
    salt: Seq<u8>,
    bits: u32,
    nblocks: nat,
) -> Seq<u8>
    decreases nblocks,
{
    if nblocks == 0 {
        Seq::empty()
    } else {
        spec_kdf_stream(secret, label, salt, bits, (nblocks - 1) as nat) + spec_kdf_block(
            secret,
            label,
            salt,
            nblocks as u32,
            bits,
        )
    }
}

/// The counter-mode key-derivation function: as many blocks as cover the
/// requested length, truncated to it.
pub open spec fn spec_sp800_108_kdf(
    key_len: nat,
    secret: Seq<u8>,
    label: Seq<u8>,
    salt: Seq<u8>,
) -> Seq<u8> {
    spec_kdf_stream(secret, label, salt, (8 * key_len) as u32, ((key_len + 31) / 32) as nat).take(
        key_len as int,
    )
}

/// Derives `key_len` bytes from a secret, a label and a context salt by the
/// counter-mode construction over HMAC-SHA-256.
pub fn sp800_108_counter_kdf(key_len: usize, secret: &Vec<u8>, label: &Vec<u8>, salt: &Vec<u8>)
    -> (r: Vec<u8>)
    requires
        8 * key_len <= u32::MAX,
    ensures
        r@ == spec_sp800_108_kdf(key_len as nat, secret@, label@, salt@),
        r@.len() == key_len,
{
    let length: u32 = (8 * key_len) as u32;
    let mut p: Vec<u8> = Vec::new();
    let mut counter: u32 = 1;
    while p.len() < key_len
        invariant
            8 * key_len <= u32::MAX,
            counter >= 1,
            p@.len() == 32 * (counter - 1),
            p@.len() < key_len + 32,
            p@ == spec_kdf_stream(secret@, label@, salt@, length, (counter - 1) as nat),
            length == 8 * key_len,
        decreases key_len + 32 - p@.len(),
    {
        let mut input: Vec<u8> = Vec::new();
        put_be32(&mut input, counter);
        put_bytes(&mut input, label);
        put_u8(&mut input, 0);
        put_bytes(&mut input, salt);
        put_be32(&mut input, length);
        assert(input@ =~= spec_be32(counter) + label@ + seq![0u8] + salt@ + spec_be32(length));
        let block = hmac_sha256(secret, &input);
        put_bytes(&mut p, &block);
        counter = counter + 1;
        assert(p@ =~= spec_kdf_stream(secret@, label@, salt@, length, (counter - 1) as nat));
    }
    let r = read_bytes(&p, 0, key_len);
    proof {
        assert(32 * (counter - 1) >= key_len && 32 * (counter - 1) < key_len + 32);
        assert((counter - 1) as nat == ((key_len as nat + 31) / 32) as nat);
        assert(r@ =~= spec_kdf_stream(
            secret@,
            label@,
            salt@,
            length,
            ((key_len as nat + 31) / 32) as nat,
        ).take(key_len as int));
    }
    r
}

/// The protocol label under which the signing key is derived.
pub open spec fn spec_signing_label() -> Seq<u8> {
    seq![
        0x53u8, 0x4du8, 0x42u8, 0x53u8, 0x69u8, 0x67u8, 0x6eu8, 0x69u8, 0x6eu8, 0x67u8, 0x4bu8,
        0x65u8, 0x79u8, 0x00u8,
    ]
}

/// Builds the signing-key derivation label.
pub fn derive_label() -> (r: Vec<u8>)
    ensures
        r@ == spec_signing_label(),
{
    let mut r: Vec<u8> = Vec::new();
    r.push(0x53);
    r.push(0x4d);
    r.push(0x42);
    r.push(0x53);
    r.push(0x69);
    r.push(0x67);
    r.push(0x6e);
    r.push(0x69);
    r.push(0x6e);
    r.push(0x67);
    r.push(0x4b);
    r.push(0x65);
    r.push(0x79);
    r.push(0x00);
    assert(r@ =~= spec_signing_label());
    r
}

} // verus!
