//! The negotiate-context list: a tagged-union element list in which each
//! element is `(tag, data length, payload)` and each following element starts
//! at an 8-byte boundary relative to the list's own start. An element with an
//! unassigned tag is carried verbatim (and so skipped over on decode) rather
//! than rejected, so that newer peers' contexts do not break the list.

use vstd::prelude::*;
use crate::bytes::{
    align8, lemma_le16_combine, put_bytes, put_u16, put_u32, put_zeros, read_bytes, read_u16,
    spec_align8, spec_le16, spec_le32, u16_at, zeros,
};
use crate::lists::{
    decode_ciphers_into, decode_hash_algs_into, encode_ciphers_from, encode_hash_algs_from,
    lemma_ciphers_roundtrip, lemma_enc_ciphers_len, lemma_enc_hash_algs_len,
    lemma_hash_algs_roundtrip, spec_dec_ciphers, spec_dec_hash_algs, spec_enc_ciphers,
    spec_enc_hash_algs,
};
use crate::types::{
    CodecError, CipherId, HashAlgorithm, CONTEXT_TAG_ENCRYPTION, CONTEXT_TAG_PREAUTH_INTEGRITY,
};

verus! {

/// A negotiate context: the two assigned element kinds, and a catch-all that
/// carries an unassigned tag's payload verbatim.
#[derive(Clone, Debug, PartialEq, Eq)]
pub enum NegotiateContext {
    PreauthIntegrity { hash_algorithms: Vec<HashAlgorithm>, salt: Vec<u8> },
    Encryption { ciphers: Vec<CipherId> },
    Unknown { tag: u16, data: Vec<u8> },
}

/// The mathematical value of a [`NegotiateContext`].
pub enum NegotiateContextV {
    PreauthIntegrity { hash_algorithms: Seq<HashAlgorithm>, salt: Seq<u8> },
    Encryption { ciphers: Seq<CipherId> },
    Unknown { tag: u16, data: Seq<u8> },
}

impl View for NegotiateContext {
    type V = NegotiateContextV;

    open spec fn view(&self) -> NegotiateContextV {
        match self {
            NegotiateContext::PreauthIntegrity { hash_algorithms, salt } => (
            NegotiateContextV::PreauthIntegrity {
                hash_algorithms: hash_algorithms@,
                salt: salt@,
            }),
            NegotiateContext::Encryption { ciphers } => (NegotiateContextV::Encryption {
                ciphers: ciphers@,
            }),
            NegotiateContext::Unknown { tag, data } => (NegotiateContextV::Unknown {
                tag: *tag,
                data: data@,
            }),
        }
    }
}

/// The wire tag of a context.
pub open spec fn ctx_tag(c: NegotiateContextV) -> u16 {
    match c {
        NegotiateContextV::PreauthIntegrity { .. } => CONTEXT_TAG_PREAUTH_INTEGRITY,
        NegotiateContextV::Encryption { .. } => CONTEXT_TAG_ENCRYPTION,
        NegotiateContextV::Unknown { tag, .. } => tag,
    }
}

/// The byte length of a context's payload.
pub open spec fn ctx_data_len(c: NegotiateContextV) -> int {
    match c {
        NegotiateContextV::PreauthIntegrity { hash_algorithms, salt } => 4 + 2
            * hash_algorithms.len() as int + salt.len() as int,
        NegotiateContextV::Encryption { ciphers } => 2 + 2 * ciphers.len() as int,
        NegotiateContextV::Unknown { data, .. } => data.len() as int,
    }
}

/// A representable context: its payload length fits the 16-bit length field,
/// and a catch-all element does not shadow an assigned tag.
pub open spec fn wf_context(c: NegotiateContextV) -> bool {
    match c {
        NegotiateContextV::PreauthIntegrity { .. } => ctx_data_len(c) <= 0xffff,
        NegotiateContextV::Encryption { .. } => ctx_data_len(c) <= 0xffff,
        NegotiateContextV::Unknown { tag, data } => tag != CONTEXT_TAG_PREAUTH_INTEGRITY && tag
            != CONTEXT_TAG_ENCRYPTION && data.len() <= 0xffff,
    }
}

/// The byte layout of a context's payload.
pub open spec fn spec_enc_ctx_payload(c: NegotiateContextV) -> Seq<u8> {
    match c {
        NegotiateContextV::PreauthIntegrity { hash_algorithms, salt } => spec_le16(
            hash_algorithms.len() as u16,
        ) + spec_le16(salt.len() as u16) + spec_enc_hash_algs(hash_algorithms) + salt,
        NegotiateContextV::Encryption { ciphers } => spec_le16(ciphers.len() as u16)
            + spec_enc_ciphers(ciphers),
        NegotiateContextV::Unknown { data, .. } => data,
    }
}

/// A context payload encodes to exactly its declared data length.
pub proof fn lemma_enc_ctx_payload_len(c: NegotiateContextV)
    ensures
        spec_enc_ctx_payload(c).len() == ctx_data_len(c),
{
    match c {
        NegotiateContextV::PreauthIntegrity { hash_algorithms, salt } => {
            lemma_enc_hash_algs_len(hash_algorithms);
        },
        NegotiateContextV::Encryption { ciphers } => {
            lemma_enc_ciphers_len(ciphers);
        },
        NegotiateContextV::Unknown { .. } => {},
    }
}

/// The byte layout of one context element: tag, data length, a reserved
/// word, then the payload.
pub open spec fn spec_enc_ctx(c: NegotiateContextV) -> Seq<u8> {
    spec_le16(ctx_tag(c)) + spec_le16(ctx_data_len(c) as u16) + spec_le32(0)
        + spec_enc_ctx_payload(c)
}

/// The byte length of one encoded context element.
pub open spec fn ctx_enc_len(c: NegotiateContextV) -> int {
    8 + ctx_data_len(c)
}

/// An encoded context element occupies its header plus its payload.
pub proof fn lemma_enc_ctx_len(c: NegotiateContextV)
    ensures
        spec_enc_ctx(c).len() == ctx_enc_len(c),
{
    lemma_enc_ctx_payload_len(c);
}

/// The byte layout of a context list: each element, with zero padding
/// bringing the next element's start to an 8-byte boundary relative to the
/// list's own start; no padding follows the last element.
pub open spec fn spec_enc_ctx_list(cs: Seq<NegotiateContextV>) -> Seq<u8>
    decreases cs.len(),
{
    if cs.len() == 0 {
        Seq::empty()
    } else if cs.len() == 1 {
        spec_enc_ctx(cs[0])
    } else {
        spec_enc_ctx(cs[0]) + zeros((spec_align8(ctx_enc_len(cs[0])) - ctx_enc_len(cs[0])) as nat)
            + spec_enc_ctx_list(cs.skip(1))
    }
}

/// The byte length of an encoded context list.
pub open spec fn ctx_list_enc_len(cs: Seq<NegotiateContextV>) -> int
    decreases cs.len(),
{
    if cs.len() == 0 {
        0
    } else if cs.len() == 1 {
        ctx_enc_len(cs[0])
    } else {
        spec_align8(ctx_enc_len(cs[0])) + ctx_list_enc_len(cs.skip(1))
    }
}

/// An encoded context list occupies its declared length.
pub proof fn lemma_enc_ctx_list_len(cs: Seq<NegotiateContextV>)
    ensures
        spec_enc_ctx_list(cs).len() == ctx_list_enc_len(cs),
    decreases cs.len(),
{
    if cs.len() == 0 {
    } else if cs.len() == 1 {
        lemma_enc_ctx_len(cs[0]);
    } else {
        lemma_enc_ctx_len(cs[0]);
        lemma_enc_ctx_list_len(cs.skip(1));
    }
}

/// All members of a context list are representable.
pub open spec fn wf_context_list(cs: Seq<NegotiateContextV>) -> bool {
    forall|i: int| 0 <= i < cs.len() ==> wf_context(#[trigger] cs[i])
}

/// The mathematical values of a vector of contexts.
pub open spec fn views_of(cs: Seq<NegotiateContext>) -> Seq<NegotiateContextV> {
    cs.map_values(|c: NegotiateContext| c@)
}

/// The context denoted by the `dlen` payload bytes at position `pos` of `b`,
/// under tag `tag`. An assigned tag whose payload disagrees with its declared
/// length fails with `MalformedContext`; an unassigned tag is carried
/// verbatim.
pub open spec fn spec_dec_ctx_payload(b: Seq<u8>, pos: int, tag: u16, dlen: nat) -> Result<
    NegotiateContextV,
    CodecError,
> {
    if tag == CONTEXT_TAG_PREAUTH_INTEGRITY {
        if dlen < 4 {
            Err(CodecError::MalformedContext)
        } else {
            let ac = u16_at(b, pos);
            let sl = u16_at(b, pos + 2);
            if 4 + 2 * (ac as int) + (sl as int) != dlen {
                Err(CodecError::MalformedContext)
            } else {
                match spec_dec_hash_algs(b, pos + 4, ac as nat) {
                    Err(e) => Err(e),
                    Ok(algs) => Ok(
                        NegotiateContextV::PreauthIntegrity {
                            hash_algorithms: algs,
                            salt: b.subrange(pos + 4 + 2 * (ac as int), pos + dlen),
                        },
                    ),
                }
            }
        }
    } else if tag == CONTEXT_TAG_ENCRYPTION {
        if dlen < 2 {
            Err(CodecError::MalformedContext)
        } else {
            let cc = u16_at(b, pos);
            if 2 + 2 * (cc as int) != dlen {
                Err(CodecError::MalformedContext)
            } else {
                match spec_dec_ciphers(b, pos + 2, cc as nat) {
                    Err(e) => Err(e),
                    Ok(cis) => Ok(NegotiateContextV::Encryption { ciphers: cis }),
                }
            }
        }
    } else {
        Ok(NegotiateContextV::Unknown { tag, data: b.subrange(pos, pos + dlen) })
    }
}

/// The `n` contexts of the list starting at absolute position `ls` of `b`,
/// read from relative position `rel` on.
pub open spec fn spec_dec_ctx_list(b: Seq<u8>, ls: int, rel: int, n: nat) -> Result<
    Seq<NegotiateContextV>,
    CodecError,
>
    decreases n,
{
    if n == 0 {
        Ok(Seq::empty())
    } else if ls + rel + 8 > b.len() {
        Err(CodecError::Truncated)
    } else {
        let pos = ls + rel;
        let tag = u16_at(b, pos);
        let dlen = u16_at(b, pos + 2);
        if pos + 8 + dlen > b.len() {
            Err(CodecError::Truncated)
        } else {
            match spec_dec_ctx_payload(b, pos + 8, tag, dlen as nat) {
                Err(e) => Err(e),
                Ok(c) => match spec_dec_ctx_list(
                    b,
                    ls,
                    spec_align8(rel + 8 + dlen),
                    (n - 1) as nat,
                ) {
                    Err(e) => Err(e),
                    Ok(rest) => Ok(seq![c] + rest),
                },
            }
        }
    }
}

/// The payload length of a context, as the 16-bit length field carries it.
pub fn context_data_len(c: &NegotiateContext) -> (r: u16)
    requires
        wf_context(c@),
    ensures
        r as int == ctx_data_len(c@),
{
    match c {
        NegotiateContext::PreauthIntegrity { hash_algorithms, salt } => (4
            + 2 * hash_algorithms.len() + salt.len()) as u16,
        NegotiateContext::Encryption { ciphers } => (2 + 2 * ciphers.len()) as u16,
        NegotiateContext::Unknown { data, .. } => data.len() as u16,
    }
}

/// Appends the encoding of one context element.
pub fn encode_context(out: &mut Vec<u8>, c: &NegotiateContext)
    requires
        wf_context(c@),
    ensures
        final(out)@ == old(out)@ + spec_enc_ctx(c@),
{
    let dlen = context_data_len(c);
    match c {
        NegotiateContext::PreauthIntegrity { hash_algorithms, salt } => {
            put_u16(out, CONTEXT_TAG_PREAUTH_INTEGRITY);
            put_u16(out, dlen);
            put_u32(out, 0);
            put_u16(out, hash_algorithms.len() as u16);
            put_u16(out, salt.len() as u16);
            encode_hash_algs_from(out, hash_algorithms, 0);
            assert(hash_algorithms@.skip(0) =~= hash_algorithms@);
            put_bytes(out, salt);
        },
        NegotiateContext::Encryption { ciphers } => {
            put_u16(out, CONTEXT_TAG_ENCRYPTION);
            put_u16(out, dlen);
            put_u32(out, 0);
            put_u16(out, ciphers.len() as u16);
            encode_ciphers_from(out, ciphers, 0);
            assert(ciphers@.skip(0) =~= ciphers@);
        },
        NegotiateContext::Unknown { tag, data } => {
            put_u16(out, *tag);
            put_u16(out, dlen);
            put_u32(out, 0);
            put_bytes(out, data);
        },
    }
    assert(out@ =~= old(out)@ + spec_enc_ctx(c@));
}

/// Appends the encoding of the contexts of `cs` from index `i` on, with the
/// inter-element padding.
pub fn encode_context_list_from(out: &mut Vec<u8>, cs: &Vec<NegotiateContext>, i: usize)
    requires
        i <= cs@.len(),
        wf_context_list(cs@.map_values(|c: NegotiateContext| c@)),
    ensures
        final(out)@ == old(out)@ + spec_enc_ctx_list(
            cs@.skip(i as int).map_values(|c: NegotiateContext| c@),
        ),
    decreases cs@.len() - i,
{
    let ghost views = cs@.skip(i as int).map_values(|c: NegotiateContext| c@);
    if i < cs.len() {
        assert(cs@.skip(i as int)[0] == cs@[i as int]);
        assert(views[0] == cs@[i as int]@);
        assert(wf_context(cs@.map_values(|c: NegotiateContext| c@)[i as int]));
        assert(cs@.map_values(|c: NegotiateContext| c@)[i as int] == cs@[i as int]@);
        encode_context(out, &cs[i]);
        if i + 1 < cs.len() {
            let dlen = context_data_len(&cs[i]);
            let elen: usize = 8 + dlen as usize;
            let pad: usize = align8(elen) - elen;
            put_zeros(out, pad);
            encode_context_list_from(out, cs, i + 1);
            assert(cs@.skip(i as int).skip(1) =~= cs@.skip(i as int + 1));
            assert(cs@.skip(i as int + 1).map_values(|c: NegotiateContext| c@) =~= views.skip(1));
            assert(out@ =~= old(out)@ + spec_enc_ctx_list(views));
        } else {
            assert(views.len() == 1);
            assert(out@ =~= old(out)@ + spec_enc_ctx_list(views));
        }
    } else {
        assert(views =~= Seq::<NegotiateContextV>::empty());
        assert(out@ =~= old(out)@ + spec_enc_ctx_list(views));
    }
}

/// Decodes the payload of one context element.
fn decode_context_payload(b: &Vec<u8>, pos: usize, tag: u16, dlen: usize) -> (r: Result<
    NegotiateContext,
    CodecError,
>)
    requires
        pos + dlen <= b@.len(),
        dlen <= 0xffff,
    ensures
        match r {
            Ok(c) => spec_dec_ctx_payload(b@, pos as int, tag, dlen as nat) == Ok::<
                NegotiateContextV,
                CodecError,
            >(c@),
            Err(e) => spec_dec_ctx_payload(b@, pos as int, tag, dlen as nat) == Err::<
                NegotiateContextV,
                CodecError,
            >(e),
        },
{
    let blen: usize = b.len();
    if tag == CONTEXT_TAG_PREAUTH_INTEGRITY {
        if dlen < 4 {
            return Err(CodecError::MalformedContext);
        }
        let ac = read_u16(b, pos);
        let sl = read_u16(b, pos + 2);
        if 4 + 2 * (ac as usize) + (sl as usize) != dlen {
            return Err(CodecError::MalformedContext);
        }
        let mut algs: Vec<HashAlgorithm> = Vec::new();
        match decode_hash_algs_into(b, pos + 4, ac as usize, &mut algs) {
            Err(e) => Err(e),
            Ok(_) => {
                let salt = read_bytes(b, pos + 4 + 2 * (ac as usize), sl as usize);
                Ok(NegotiateContext::PreauthIntegrity { hash_algorithms: algs, salt })
            },
        }
    } else if tag == CONTEXT_TAG_ENCRYPTION {
        if dlen < 2 {
            return Err(CodecError::MalformedContext);
        }
        let cc = read_u16(b, pos);
        if 2 + 2 * (cc as usize) != dlen {
            return Err(CodecError::MalformedContext);
        }
        let mut cis: Vec<CipherId> = Vec::new();
        match decode_ciphers_into(b, pos + 2, cc as usize, &mut cis) {
            Err(e) => Err(e),
            Ok(_) => Ok(NegotiateContext::Encryption { ciphers: cis }),
        }
    } else {
        let data = read_bytes(b, pos, dlen);
        Ok(NegotiateContext::Unknown { tag, data })
    }
}

/// Decodes `n` contexts of the list starting at `ls`, from relative position
/// `rel` on, appending them to `out`.
pub fn decode_context_list_into(
    b: &Vec<u8>,
    ls: usize,
    rel: usize,
    n: usize,
    out: &mut Vec<NegotiateContext>,
) -> (r: Result<(), CodecError>)
    requires
        b@.len() + 8 <= usize::MAX,
    ensures
        match r {
            Ok(_) => spec_dec_ctx_list(b@, ls as int, rel as int, n as nat) is Ok && views_of(
                final(out)@,
            ) == views_of(old(out)@) + spec_dec_ctx_list(b@, ls as int, rel as int, n as nat)->Ok_0,
            Err(e) => spec_dec_ctx_list(b@, ls as int, rel as int, n as nat) == Err::<
                Seq<NegotiateContextV>,
                CodecError,
            >(e),
        },
    decreases n,
{
    if n == 0 {
        assert(views_of(out@) =~= views_of(out@) + Seq::<NegotiateContextV>::empty());
        return Ok(());
    }
    if ls > b.len() || rel > b.len() - ls || b.len() - ls - rel < 8 {
        return Err(CodecError::Truncated);
    }
    let pos = ls + rel;
    let tag = read_u16(b, pos);
    let dlen = read_u16(b, pos + 2);
    if b.len() - pos - 8 < dlen as usize {
        return Err(CodecError::Truncated);
    }
    match decode_context_payload(b, pos + 8, tag, dlen as usize) {
        Err(e) => Err(e),
        Ok(c) => {
            let ghost c_view = c@;
            let ghost before = out@;
            out.push(c);
            assert(views_of(out@) =~= views_of(before) + seq![c_view]);
            let rel2 = align8(rel + 8 + dlen as usize);
            let r = decode_context_list_into(b, ls, rel2, n - 1, out);
            match r {
                Ok(_) => {
                    let ghost rest = spec_dec_ctx_list(
                        b@,
                        ls as int,
                        rel2 as int,
                        (n - 1) as nat,
                    )->Ok_0;
                    assert(views_of(out@) =~= views_of(before) + (seq![c_view] + rest));
                    Ok(())
                },
                Err(e) => Err(e),
            }
        },
    }
}

/// Every encoded context element is at least its 8-byte element header.
pub proof fn lemma_ctx_enc_len_lb(c: NegotiateContextV)
    ensures
        ctx_data_len(c) >= 0,
        ctx_enc_len(c) >= 8,
{
}

/// An encoded context list has a nonnegative length, at least that of its
/// first element.
pub proof fn lemma_ctx_list_enc_len_lb(cs: Seq<NegotiateContextV>)
    requires
        cs.len() > 0,
    ensures
        ctx_list_enc_len(cs) >= ctx_enc_len(cs[0]),
    decreases cs.len(),
{
    lemma_ctx_enc_len_lb(cs[0]);
    if cs.len() > 1 {
        lemma_ctx_enc_len_lb(cs.skip(1)[0]);
        lemma_ctx_list_enc_len_lb(cs.skip(1));
    }
}

/// Decoding an encoded context payload under its own tag and length yields
/// the context back.
pub proof fn lemma_ctx_payload_roundtrip(b: Seq<u8>, pos: int, c: NegotiateContextV)
    requires
        wf_context(c),
        0 <= pos,
        pos + ctx_data_len(c) <= b.len(),
        b.subrange(pos, pos + ctx_data_len(c)) == spec_enc_ctx_payload(c),
    ensures
        spec_dec_ctx_payload(b, pos, ctx_tag(c), ctx_data_len(c) as nat) == Ok::<
            NegotiateContextV,
            CodecError,
        >(c),
{
    broadcast use lemma_le16_combine;

    let dl = ctx_data_len(c);
    let sub = b.subrange(pos, pos + dl);
    lemma_enc_ctx_payload_len(c);
    match c {
        NegotiateContextV::PreauthIntegrity { hash_algorithms, salt } => {
            let a = hash_algorithms.len() as int;
            lemma_enc_hash_algs_len(hash_algorithms);
            assert(sub[0] == b[pos]);
            assert(sub[1] == b[pos + 1]);
            assert(sub[0] == spec_le16(hash_algorithms.len() as u16)[0]);
            assert(sub[1] == spec_le16(hash_algorithms.len() as u16)[1]);
            assert(u16_at(b, pos) == hash_algorithms.len() as u16);
            assert(sub[2] == b[pos + 2]);
            assert(sub[3] == b[pos + 3]);
            assert(sub[2] == spec_le16(salt.len() as u16)[0]);
            assert(sub[3] == spec_le16(salt.len() as u16)[1]);
            assert(u16_at(b, pos + 2) == salt.len() as u16);
            assert(hash_algorithms.len() as u16 as int == a);
            assert(salt.len() as u16 as int == salt.len() as int);
            assert(sub.subrange(4, 4 + 2 * a) =~= spec_enc_hash_algs(hash_algorithms));
            assert(b.subrange(pos + 4, pos + 4 + 2 * a) =~= sub.subrange(4, 4 + 2 * a));
            lemma_hash_algs_roundtrip(b, pos + 4, hash_algorithms);
            assert(sub.subrange(4 + 2 * a, dl) =~= salt);
            assert(b.subrange(pos + 4 + 2 * a, pos + dl) =~= sub.subrange(4 + 2 * a, dl));
        },
        NegotiateContextV::Encryption { ciphers } => {
            let a = ciphers.len() as int;
            lemma_enc_ciphers_len(ciphers);
            assert(sub[0] == b[pos]);
            assert(sub[1] == b[pos + 1]);
            assert(sub[0] == spec_le16(ciphers.len() as u16)[0]);
            assert(sub[1] == spec_le16(ciphers.len() as u16)[1]);
            assert(u16_at(b, pos) == ciphers.len() as u16);
            assert(ciphers.len() as u16 as int == a);
            assert(sub.subrange(2, 2 + 2 * a) =~= spec_enc_ciphers(ciphers));
            assert(b.subrange(pos + 2, pos + 2 + 2 * a) =~= sub.subrange(2, 2 + 2 * a));
            lemma_ciphers_roundtrip(b, pos + 2, ciphers);
        },
        NegotiateContextV::Unknown { tag, data } => {
            assert(b.subrange(pos, pos + dl) =~= data);
        },
    }
}

/// Decoding an encoded context list yields the list back: in particular an
/// element with an unassigned tag is skipped over without disturbing the
/// elements after it.
pub proof fn lemma_ctx_list_roundtrip(b: Seq<u8>, ls: int, rel: int, cs: Seq<NegotiateContextV>)
    requires
        0 <= ls,
        0 <= rel,
        rel % 8 == 0,
        wf_context_list(cs),
        ls + rel + ctx_list_enc_len(cs) <= b.len(),
        b.subrange(ls + rel, ls + rel + ctx_list_enc_len(cs)) == spec_enc_ctx_list(cs),
    ensures
        spec_dec_ctx_list(b, ls, rel, cs.len()) == Ok::<Seq<NegotiateContextV>, CodecError>(cs),
    decreases cs.len(),
{
    broadcast use lemma_le16_combine;

    if cs.len() == 0 {
        assert(cs =~= Seq::<NegotiateContextV>::empty());
    } else {
        let c0 = cs[0];
        assert(wf_context(cs[0]));
        let dl = ctx_data_len(c0);
        let el = ctx_enc_len(c0);
        let total = ctx_list_enc_len(cs);
        let pos = ls + rel;
        lemma_ctx_enc_len_lb(c0);
        lemma_ctx_list_enc_len_lb(cs);
        lemma_enc_ctx_len(c0);
        lemma_enc_ctx_list_len(cs);
        lemma_enc_ctx_payload_len(c0);
        let sub = b.subrange(pos, pos + total);
        let esub = b.subrange(pos, pos + el);
        assert(esub =~= sub.subrange(0, el));
        assert(esub =~= spec_enc_ctx(c0));
        assert(esub[0] == b[pos]);
        assert(esub[1] == b[pos + 1]);
        assert(esub[0] == spec_le16(ctx_tag(c0))[0]);
        assert(esub[1] == spec_le16(ctx_tag(c0))[1]);
        assert(u16_at(b, pos) == ctx_tag(c0));
        assert(esub[2] == b[pos + 2]);
        assert(esub[3] == b[pos + 3]);
        assert(esub[2] == spec_le16(dl as u16)[0]);
        assert(esub[3] == spec_le16(dl as u16)[1]);
        assert(u16_at(b, pos + 2) == dl as u16);
        assert(dl as u16 as int == dl);
        assert(b.subrange(pos + 8, pos + 8 + dl) =~= esub.subrange(8, el));
        assert(esub.subrange(8, el) =~= spec_enc_ctx_payload(c0));
        lemma_ctx_payload_roundtrip(b, pos + 8, c0);
        if cs.len() == 1 {
            assert(spec_dec_ctx_list(b, ls, spec_align8(rel + 8 + dl), 0) == Ok::<
                Seq<NegotiateContextV>,
                CodecError,
            >(Seq::empty()));
            assert(seq![c0] + Seq::<NegotiateContextV>::empty() =~= cs);
        } else {
            let rest = cs.skip(1);
            let rel2 = spec_align8(rel + el);
            assert(spec_align8(rel + el) == rel + spec_align8(el));
            assert(spec_align8(el) % 8 == 0);
            assert(rel2 % 8 == 0);
            assert(forall|i: int|
                0 <= i < rest.len() ==> #[trigger] rest[i] == cs[i + 1]);
            assert(wf_context_list(rest));
            lemma_enc_ctx_list_len(rest);
            assert(sub.subrange(spec_align8(el), total) =~= spec_enc_ctx_list(rest));
            assert(b.subrange(ls + rel2, ls + rel2 + ctx_list_enc_len(rest)) =~= sub.subrange(
                spec_align8(el),
                total,
            ));
            lemma_ctx_list_roundtrip(b, ls, rel2, rest);
            assert(seq![c0] + rest =~= cs);
        }
    }
}

} // verus!
