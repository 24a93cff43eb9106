//! Codecs for the homogeneous element lists that occur inside messages:
//! dialect lists, hash-algorithm lists, cipher lists, and the protocol's
//! 16-bit-per-character text representation. Each has a spec-level encoder
//! and decoder, exec mirrors, and a proof that they are inverse.

use vstd::prelude::*;
use crate::bytes::{
    lemma_le16_combine, put_u16, read_u16, spec_le16, u16_at,
};
use crate::types::{
    CodecError, CipherId, Dialect, HashAlgorithm, cipher_from_u16, cipher_from_wire,
    cipher_to_wire, cipher_u16, dialect_from_u16, dialect_from_wire, dialect_to_wire, dialect_u16,
    hash_alg_from_u16, hash_alg_from_wire, hash_alg_to_wire, hash_alg_u16, lemma_cipher_roundtrip,
    lemma_dialect_roundtrip, lemma_hash_alg_roundtrip,
};

verus! {

// ---------------------------------------------------------------------------
// Dialect lists
// ---------------------------------------------------------------------------

/// The byte layout of a dialect list: each dialect's wire value in order,
/// little-endian.
pub open spec fn spec_enc_dialects(ds: Seq<Dialect>) -> Seq<u8>
    decreases ds.len(),
{
    if ds.len() == 0 {
        Seq::empty()
    } else {
        spec_le16(dialect_u16(ds[0])) + spec_enc_dialects(ds.skip(1))
    }
}

/// An encoded dialect list occupies two bytes per element.
pub proof fn lemma_enc_dialects_len(ds: Seq<Dialect>)
    ensures
        spec_enc_dialects(ds).len() == 2 * ds.len(),
    decreases ds.len(),
{
    if ds.len() != 0 {
        lemma_enc_dialects_len(ds.skip(1));
    }
}

/// The `n` dialects read from position `i` of `b`: fails with `Truncated`
/// when the list overruns `b` and with `UnknownVariant` on an unassigned
/// dialect value.
pub open spec fn spec_dec_dialects(b: Seq<u8>, i: int, n: nat) -> Result<Seq<Dialect>, CodecError>
    decreases n,
{
    if n == 0 {
        Ok(Seq::empty())
    } else if i + 2 > b.len() {
        Err(CodecError::Truncated)
    } else {
        match dialect_from_u16(u16_at(b, i)) {
            Option::None => Err(CodecError::UnknownVariant),
            Option::Some(d) => match spec_dec_dialects(b, i + 2, (n - 1) as nat) {
                Ok(rest) => Ok(seq![d] + rest),
                Err(e) => Err(e),
            },
        }
    }
}

/// Appends the encoding of the dialects of `ds` from index `i` on.
pub fn encode_dialects_from(out: &mut Vec<u8>, ds: &Vec<Dialect>, i: usize)
    requires
        i <= ds@.len(),
    ensures
        final(out)@ == old(out)@ + spec_enc_dialects(ds@.skip(i as int)),
    decreases ds@.len() - i,
{
    if i < ds.len() {
        put_u16(out, dialect_to_wire(ds[i]));
        encode_dialects_from(out, ds, i + 1);
        assert(ds@.skip(i as int).skip(1) =~= ds@.skip(i as int + 1));
        assert(out@ =~= old(out)@ + spec_enc_dialects(ds@.skip(i as int)));
    } else {
        assert(ds@.skip(i as int) =~= Seq::<Dialect>::empty());
    }
}

/// Decodes `n` dialects at position `pos` of `b`, appending them to `out`.
pub fn decode_dialects_into(b: &Vec<u8>, pos: usize, n: usize, out: &mut Vec<Dialect>) -> (r:
    Result<(), CodecError>)
    requires
        pos <= b@.len(),
    ensures
        match r {
            Ok(_) => spec_dec_dialects(b@, pos as int, n as nat) is Ok && final(out)@ == old(out)@
                + spec_dec_dialects(b@, pos as int, n as nat)->Ok_0,
            Err(e) => spec_dec_dialects(b@, pos as int, n as nat) == Err::<
                Seq<Dialect>,
                CodecError,
            >(e),
        },
    decreases n,
{
    if n == 0 {
        assert(final(out)@ =~= old(out)@ + Seq::<Dialect>::empty());
        return Ok(());
    }
    if b.len() - pos < 2 {
        return Err(CodecError::Truncated);
    }
    match dialect_from_wire(read_u16(b, pos)) {
        Option::None => Err(CodecError::UnknownVariant),
        Option::Some(d) => {
            out.push(d);
            let r = decode_dialects_into(b, pos + 2, n - 1, out);
            match r {
                Ok(_) => {
                    assert(final(out)@ =~= old(out)@ + (seq![d] + spec_dec_dialects(
                        b@,
                        pos as int + 2,
                        (n - 1) as nat,
                    )->Ok_0));
                    Ok(())
                },
                Err(e) => Err(e),
            }
        },
    }
}

/// Decoding an encoded dialect list yields the list back.
pub proof fn lemma_dialects_roundtrip(b: Seq<u8>, i: int, ds: Seq<Dialect>)
    requires
        0 <= i,
        i + 2 * ds.len() <= b.len(),
        b.subrange(i, i + 2 * ds.len()) == spec_enc_dialects(ds),
    ensures
        spec_dec_dialects(b, i, ds.len()) == Ok::<Seq<Dialect>, CodecError>(ds),
    decreases ds.len(),
{
    broadcast use lemma_le16_combine;
    broadcast use lemma_dialect_roundtrip;

    lemma_enc_dialects_len(ds);
    if ds.len() == 0 {
        assert(ds =~= Seq::<Dialect>::empty());
    } else {
        let sub = b.subrange(i, i + 2 * ds.len());
        lemma_enc_dialects_len(ds.skip(1));
        assert(sub[0] == b[i]);
        assert(sub[1] == b[i + 1]);
        assert(sub[0] == spec_le16(dialect_u16(ds[0]))[0]);
        assert(sub[1] == spec_le16(dialect_u16(ds[0]))[1]);
        assert(u16_at(b, i) == dialect_u16(ds[0]));
        assert(sub.subrange(2, 2 + 2 * ds.skip(1).len() as int) =~= spec_enc_dialects(ds.skip(1)));
        assert(b.subrange(i + 2, i + 2 + 2 * ds.skip(1).len()) =~= sub.subrange(
            2,
            2 + 2 * ds.skip(1).len() as int,
        ));
        lemma_dialects_roundtrip(b, i + 2, ds.skip(1));
        assert(seq![ds[0]] + ds.skip(1) =~= ds);
    }
}

// ---------------------------------------------------------------------------
// Hash-algorithm lists
// ---------------------------------------------------------------------------

/// The byte layout of a hash-algorithm list.
pub open spec fn spec_enc_hash_algs(hs: Seq<HashAlgorithm>) -> Seq<u8>
    decreases hs.len(),
{
    if hs.len() == 0 {
        Seq::empty()
    } else {
        spec_le16(hash_alg_u16(hs[0])) + spec_enc_hash_algs(hs.skip(1))
    }
}

/// An encoded hash-algorithm list occupies two bytes per element.
pub proof fn lemma_enc_hash_algs_len(hs: Seq<HashAlgorithm>)
    ensures
        spec_enc_hash_algs(hs).len() == 2 * hs.len(),
    decreases hs.len(),
{
    if hs.len() != 0 {
        lemma_enc_hash_algs_len(hs.skip(1));
    }
}

/// The `n` hash algorithms read from position `i` of `b`.
pub open spec fn spec_dec_hash_algs(b: Seq<u8>, i: int, n: nat) -> Result<
    Seq<HashAlgorithm>,
    CodecError,
>
    decreases n,
{
    if n == 0 {
        Ok(Seq::empty())
    } else if i + 2 > b.len() {
        Err(CodecError::Truncated)
    } else {
        match hash_alg_from_u16(u16_at(b, i)) {
            Option::None => Err(CodecError::UnknownVariant),
            Option::Some(h) => match spec_dec_hash_algs(b, i + 2, (n - 1) as nat) {
                Ok(rest) => Ok(seq![h] + rest),
                Err(e) => Err(e),
            },
        }
    }
}

/// Appends the encoding of the hash algorithms of `hs` from index `i` on.
pub fn encode_hash_algs_from(out: &mut Vec<u8>, hs: &Vec<HashAlgorithm>, i: usize)
    requires
        i <= hs@.len(),
    ensures
        final(out)@ == old(out)@ + spec_enc_hash_algs(hs@.skip(i as int)),
    decreases hs@.len() - i,
{
    if i < hs.len() {
        put_u16(out, hash_alg_to_wire(hs[i]));
        encode_hash_algs_from(out, hs, i + 1);
        assert(hs@.skip(i as int).skip(1) =~= hs@.skip(i as int + 1));
        assert(out@ =~= old(out)@ + spec_enc_hash_algs(hs@.skip(i as int)));
    } else {
        assert(hs@.skip(i as int) =~= Seq::<HashAlgorithm>::empty());
    }
}

/// Decodes `n` hash algorithms at position `pos` of `b`, appending to `out`.
pub fn decode_hash_algs_into(b: &Vec<u8>, pos: usize, n: usize, out: &mut Vec<HashAlgorithm>)
    -> (r: Result<(), CodecError>)
    requires
        pos <= b@.len(),
    ensures
        match r {
            Ok(_) => spec_dec_hash_algs(b@, pos as int, n as nat) is Ok && final(out)@ == old(
                out,
            )@ + spec_dec_hash_algs(b@, pos as int, n as nat)->Ok_0,
            Err(e) => spec_dec_hash_algs(b@, pos as int, n as nat) == Err::<
                Seq<HashAlgorithm>,
                CodecError,
            >(e),
        },
    decreases n,
{
    if n == 0 {
        assert(final(out)@ =~= old(out)@ + Seq::<HashAlgorithm>::empty());
        return Ok(());
    }
    if b.len() - pos < 2 {
        return Err(CodecError::Truncated);
    }
    match hash_alg_from_wire(read_u16(b, pos)) {
        Option::None => Err(CodecError::UnknownVariant),
        Option::Some(h) => {
            out.push(h);
            let r = decode_hash_algs_into(b, pos + 2, n - 1, out);
            match r {
                Ok(_) => {
                    assert(final(out)@ =~= old(out)@ + (seq![h] + spec_dec_hash_algs(
                        b@,
                        pos as int + 2,
                        (n - 1) as nat,
                    )->Ok_0));
                    Ok(())
                },
                Err(e) => Err(e),
            }
        },
    }
}

/// Decoding an encoded hash-algorithm list yields the list back.
pub proof fn lemma_hash_algs_roundtrip(b: Seq<u8>, i: int, hs: Seq<HashAlgorithm>)
    requires
        0 <= i,
        i + 2 * hs.len() <= b.len(),
        b.subrange(i, i + 2 * hs.len()) == spec_enc_hash_algs(hs),
    ensures
        spec_dec_hash_algs(b, i, hs.len()) == Ok::<Seq<HashAlgorithm>, CodecError>(hs),
    decreases hs.len(),
{
    broadcast use lemma_le16_combine;
    broadcast use lemma_hash_alg_roundtrip;

    lemma_enc_hash_algs_len(hs);
    if hs.len() == 0 {
        assert(hs =~= Seq::<HashAlgorithm>::empty());
    } else {
        let sub = b.subrange(i, i + 2 * hs.len());
        lemma_enc_hash_algs_len(hs.skip(1));
        assert(sub[0] == b[i]);
        assert(sub[1] == b[i + 1]);
        assert(sub[0] == spec_le16(hash_alg_u16(hs[0]))[0]);
        assert(sub[1] == spec_le16(hash_alg_u16(hs[0]))[1]);
        assert(u16_at(b, i) == hash_alg_u16(hs[0]));
        assert(sub.subrange(2, 2 + 2 * hs.skip(1).len() as int) =~= spec_enc_hash_algs(hs.skip(1)));
        assert(b.subrange(i + 2, i + 2 + 2 * hs.skip(1).len()) =~= sub.subrange(
            2,
            2 + 2 * hs.skip(1).len() as int,
        ));
        lemma_hash_algs_roundtrip(b, i + 2, hs.skip(1));
        assert(seq![hs[0]] + hs.skip(1) =~= hs);
    }
}

// ---------------------------------------------------------------------------
// Cipher lists
// ---------------------------------------------------------------------------

/// The byte layout of a cipher list.
pub open spec fn spec_enc_ciphers(cs: Seq<CipherId>) -> Seq<u8>
    decreases cs.len(),
{
    if cs.len() == 0 {
        Seq::empty()
    } else {
        spec_le16(cipher_u16(cs[0])) + spec_enc_ciphers(cs.skip(1))
    }
}

/// An encoded cipher list occupies two bytes per element.
pub proof fn lemma_enc_ciphers_len(cs: Seq<CipherId>)
    ensures
        spec_enc_ciphers(cs).len() == 2 * cs.len(),
    decreases cs.len(),
{
    if cs.len() != 0 {
        lemma_enc_ciphers_len(cs.skip(1));
    }
}

/// The `n` ciphers read from position `i` of `b`.
pub open spec fn spec_dec_ciphers(b: Seq<u8>, i: int, n: nat) -> Result<Seq<CipherId>, CodecError>
    decreases n,
{
    if n == 0 {
        Ok(Seq::empty())
    } else if i + 2 > b.len() {
        Err(CodecError::Truncated)
    } else {
        match cipher_from_u16(u16_at(b, i)) {
            Option::None => Err(CodecError::UnknownVariant),
            Option::Some(c) => match spec_dec_ciphers(b, i + 2, (n - 1) as nat) {
                Ok(rest) => Ok(seq![c] + rest),
                Err(e) => Err(e),
            },
        }
    }
}

/// Appends the encoding of the ciphers of `cs` from index `i` on.
pub fn encode_ciphers_from(out: &mut Vec<u8>, cs: &Vec<CipherId>, i: usize)
    requires
        i <= cs@.len(),
    ensures
        final(out)@ == old(out)@ + spec_enc_ciphers(cs@.skip(i as int)),
    decreases cs@.len() - i,
{
    if i < cs.len() {
        put_u16(out, cipher_to_wire(cs[i]));
        encode_ciphers_from(out, cs, i + 1);
        assert(cs@.skip(i as int).skip(1) =~= cs@.skip(i as int + 1));
        assert(out@ =~= old(out)@ + spec_enc_ciphers(cs@.skip(i as int)));
    } else {
        assert(cs@.skip(i as int) =~= Seq::<CipherId>::empty());
    }
}

/// Decodes `n` ciphers at position `pos` of `b`, appending them to `out`.
pub fn decode_ciphers_into(b: &Vec<u8>, pos: usize, n: usize, out: &mut Vec<CipherId>) -> (r:
    Result<(), CodecError>)
    requires
        pos <= b@.len(),
    ensures
        match r {
            Ok(_) => spec_dec_ciphers(b@, pos as int, n as nat) is Ok && final(out)@ == old(out)@
                + spec_dec_ciphers(b@, pos as int, n as nat)->Ok_0,
            Err(e) => spec_dec_ciphers(b@, pos as int, n as nat) == Err::<
                Seq<CipherId>,
                CodecError,
            >(e),
        },
    decreases n,
{
    if n == 0 {
        assert(final(out)@ =~= old(out)@ + Seq::<CipherId>::empty());
        return Ok(());
    }
    if b.len() - pos < 2 {
        return Err(CodecError::Truncated);
    }
    match cipher_from_wire(read_u16(b, pos)) {
        Option::None => Err(CodecError::UnknownVariant),
        Option::Some(c) => {
            out.push(c);
            let r = decode_ciphers_into(b, pos + 2, n - 1, out);
            match r {
                Ok(_) => {
                    assert(final(out)@ =~= old(out)@ + (seq![c] + spec_dec_ciphers(
                        b@,
                        pos as int + 2,
                        (n - 1) as nat,
                    )->Ok_0));
                    Ok(())
                },
                Err(e) => Err(e),
            }
        },
    }
}

/// Decoding an encoded cipher list yields the list back.
pub proof fn lemma_ciphers_roundtrip(b: Seq<u8>, i: int, cs: Seq<CipherId>)
    requires
        0 <= i,
        i + 2 * cs.len() <= b.len(),
        b.subrange(i, i + 2 * cs.len()) == spec_enc_ciphers(cs),
    ensures
        spec_dec_ciphers(b, i, cs.len()) == Ok::<Seq<CipherId>, CodecError>(cs),
    decreases cs.len(),
{
    broadcast use lemma_le16_combine;
    broadcast use lemma_cipher_roundtrip;

    lemma_enc_ciphers_len(cs);
    if cs.len() == 0 {
        assert(cs =~= Seq::<CipherId>::empty());
    } else {
        let sub = b.subrange(i, i + 2 * cs.len());
        lemma_enc_ciphers_len(cs.skip(1));
        assert(sub[0] == b[i]);
        assert(sub[1] == b[i + 1]);
        assert(sub[0] == spec_le16(cipher_u16(cs[0]))[0]);
        assert(sub[1] == spec_le16(cipher_u16(cs[0]))[1]);
        assert(u16_at(b, i) == cipher_u16(cs[0]));
        assert(sub.subrange(2, 2 + 2 * cs.skip(1).len() as int) =~= spec_enc_ciphers(cs.skip(1)));
        assert(b.subrange(i + 2, i + 2 + 2 * cs.skip(1).len()) =~= sub.subrange(
            2,
            2 + 2 * cs.skip(1).len() as int,
        ));
        lemma_ciphers_roundtrip(b, i + 2, cs.skip(1));
        assert(seq![cs[0]] + cs.skip(1) =~= cs);
    }
}

// ---------------------------------------------------------------------------
// 16-bit text
// ---------------------------------------------------------------------------

/// The byte layout of protocol text: each 16-bit unit little-endian, two
/// bytes per unit, length-prefixed (not null-terminated) by its container.
pub open spec fn spec_enc_utf16(s: Seq<u16>) -> Seq<u8>
    decreases s.len(),
{
    if s.len() == 0 {
        Seq::empty()
    } else {
        spec_le16(s[0]) + spec_enc_utf16(s.skip(1))
    }
}

/// Encoded text occupies two bytes per 16-bit unit.
pub proof fn lemma_enc_utf16_len(s: Seq<u16>)
    ensures
        spec_enc_utf16(s).len() == 2 * s.len(),
    decreases s.len(),
{
    if s.len() != 0 {
        lemma_enc_utf16_len(s.skip(1));
    }
}

/// The `n` 16-bit units read from position `i` of `b`.
pub open spec fn spec_dec_utf16(b: Seq<u8>, i: int, n: nat) -> Result<Seq<u16>, CodecError>
    decreases n,
{
    if n == 0 {
        Ok(Seq::empty())
    } else if i + 2 > b.len() {
        Err(CodecError::Truncated)
    } else {
        match spec_dec_utf16(b, i + 2, (n - 1) as nat) {
            Ok(rest) => Ok(seq![u16_at(b, i)] + rest),
            Err(e) => Err(e),
        }
    }
}

/// Appends the encoding of the 16-bit units of `s` from index `i` on.
pub fn encode_utf16_from(out: &mut Vec<u8>, s: &Vec<u16>, i: usize)
    requires
        i <= s@.len(),
    ensures
        final(out)@ == old(out)@ + spec_enc_utf16(s@.skip(i as int)),
    decreases s@.len() - i,
{
    if i < s.len() {
        put_u16(out, s[i]);
        encode_utf16_from(out, s, i + 1);
        assert(s@.skip(i as int).skip(1) =~= s@.skip(i as int + 1));
        assert(out@ =~= old(out)@ + spec_enc_utf16(s@.skip(i as int)));
    } else {
        assert(s@.skip(i as int) =~= Seq::<u16>::empty());
    }
}

/// Decodes `n` 16-bit units at position `pos` of `b`, appending them to `out`.
pub fn decode_utf16_into(b: &Vec<u8>, pos: usize, n: usize, out: &mut Vec<u16>) -> (r: Result<
    (),
    CodecError,
>)
    requires
        pos <= b@.len(),
    ensures
        match r {
            Ok(_) => spec_dec_utf16(b@, pos as int, n as nat) is Ok && final(out)@ == old(out)@
                + spec_dec_utf16(b@, pos as int, n as nat)->Ok_0,
            Err(e) => spec_dec_utf16(b@, pos as int, n as nat) == Err::<Seq<u16>, CodecError>(e),
        },
    decreases n,
{
    if n == 0 {
        assert(final(out)@ =~= old(out)@ + Seq::<u16>::empty());
        return Ok(());
    }
    if b.len() - pos < 2 {
        return Err(CodecError::Truncated);
    }
    let v = read_u16(b, pos);
    out.push(v);
    let r = decode_utf16_into(b, pos + 2, n - 1, out);
    match r {
        Ok(_) => {
            assert(final(out)@ =~= old(out)@ + (seq![v] + spec_dec_utf16(
                b@,
                pos as int + 2,
                (n - 1) as nat,
            )->Ok_0));
            Ok(())
        },
        Err(e) => Err(e),
    }
}

/// Decoding encoded text yields the text back.
pub proof fn lemma_utf16_roundtrip(b: Seq<u8>, i: int, s: Seq<u16>)
    requires
        0 <= i,
        i + 2 * s.len() <= b.len(),
        b.subrange(i, i + 2 * s.len()) == spec_enc_utf16(s),
    ensures
        spec_dec_utf16(b, i, s.len()) == Ok::<Seq<u16>, CodecError>(s),
    decreases s.len(),
{
    broadcast use lemma_le16_combine;

    lemma_enc_utf16_len(s);
    if s.len() == 0 {
        assert(s =~= Seq::<u16>::empty());
    } else {
        let sub = b.subrange(i, i + 2 * s.len());
        lemma_enc_utf16_len(s.skip(1));
        assert(sub[0] == b[i]);
        assert(sub[1] == b[i + 1]);
        assert(sub[0] == spec_le16(s[0])[0]);
        assert(sub[1] == spec_le16(s[0])[1]);
        assert(u16_at(b, i) == s[0]);
        assert(sub.subrange(2, 2 + 2 * s.skip(1).len() as int) =~= spec_enc_utf16(s.skip(1)));
        assert(b.subrange(i + 2, i + 2 + 2 * s.skip(1).len()) =~= sub.subrange(
            2,
            2 + 2 * s.skip(1).len() as int,
        ));
        lemma_utf16_roundtrip(b, i + 2, s.skip(1));
        assert(seq![s[0]] + s.skip(1) =~= s);
    }
}

} // verus!
