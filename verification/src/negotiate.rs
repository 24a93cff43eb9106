//! The negotiate request and response: dialect negotiation with an
//! offset-addressed negotiate-context list, and, in the response, an
//! offset-addressed security blob.

use vstd::prelude::*;
use crate::bytes::{
    align8, put_bytes, put_u16, put_u32, put_zeros, read_bytes, read_u16, read_u32, spec_align8,
    spec_le16, spec_le32, u16_at, u32_at, zeros,
};
use crate::contexts::{
    NegotiateContext, NegotiateContextV, ctx_list_enc_len, decode_context_list_into,
    encode_context_list_from, lemma_ctx_list_roundtrip, lemma_enc_ctx_list_len, spec_dec_ctx_list,
    spec_enc_ctx_list, views_of, wf_context_list,
};
use crate::lists::{
    decode_dialects_into, encode_dialects_from, lemma_dialects_roundtrip, lemma_enc_dialects_len,
    spec_dec_dialects, spec_enc_dialects,
};
use crate::types::{
    CodecError, Dialect, Uuid, UuidV, dialect_from_u16, dialect_from_wire, dialect_to_wire,
    dialect_u16, lemma_dialect_roundtrip, wf_uuid,
};
use crate::bytes::lemma_le16_combine;
use crate::bytes::lemma_le32_combine;

verus! {

/// The byte layout of a GUID: three little-endian integer fields and eight
/// raw bytes.
pub open spec fn spec_enc_uuid(u: UuidV) -> Seq<u8> {
    spec_le32(u.data1) + spec_le16(u.data2) + spec_le16(u.data3) + u.data4
}

/// The GUID read at position `i` of `b`.
pub open spec fn spec_dec_uuid(b: Seq<u8>, i: int) -> UuidV
    recommends
        0 <= i,
        i + 16 <= b.len(),
{
    UuidV {
        data1: u32_at(b, i),
        data2: u16_at(b, i + 4),
        data3: u16_at(b, i + 6),
        data4: b.subrange(i + 8, i + 16),
    }
}

/// Appends the encoding of a GUID.
pub fn encode_uuid(out: &mut Vec<u8>, u: &Uuid)
    requires
        wf_uuid(u@),
    ensures
        final(out)@ == old(out)@ + spec_enc_uuid(u@),
{
    put_u32(out, u.data1);
    put_u16(out, u.data2);
    put_u16(out, u.data3);
    put_bytes(out, &u.data4);
    assert(out@ =~= old(out)@ + spec_enc_uuid(u@));
}

/// Reads the GUID at position `i` of `b`.
pub fn decode_uuid(b: &Vec<u8>, i: usize) -> (r: Uuid)
    requires
        i + 16 <= b@.len(),
    ensures
        r@ == spec_dec_uuid(b@, i as int),
{
    let n: usize = b.len();
    Uuid {
        data1: read_u32(b, i),
        data2: read_u16(b, i + 4),
        data3: read_u16(b, i + 6),
        data4: read_bytes(b, i + 8, 8),
    }
}

/// A negotiate request: the dialects the client offers, its signing mode and
/// capability bits, its GUID, and its negotiate contexts.
#[derive(Clone, Debug, PartialEq, Eq)]
pub struct NegotiateRequest {
    pub security_mode: u16,
    pub capabilities: u32,
    pub client_guid: Uuid,
    pub dialects: Vec<Dialect>,
    pub negotiate_contexts: Vec<NegotiateContext>,
}

/// The mathematical value of a [`NegotiateRequest`].
pub struct NegotiateRequestV {
    pub security_mode: u16,
    pub capabilities: u32,
    pub client_guid: UuidV,
    pub dialects: Seq<Dialect>,
    pub negotiate_contexts: Seq<NegotiateContextV>,
}

impl View for NegotiateRequest {
    type V = NegotiateRequestV;

    open spec fn view(&self) -> NegotiateRequestV {
        NegotiateRequestV {
            security_mode: self.security_mode,
            capabilities: self.capabilities,
            client_guid: self.client_guid@,
            dialects: self.dialects@,
            negotiate_contexts: views_of(self.negotiate_contexts@),
        }
    }
}

/// A representable negotiate request: its counts fit their 16-bit fields and
/// its contexts are representable.
pub open spec fn wf_negotiate_request(m: NegotiateRequestV) -> bool {
    &&& wf_uuid(m.client_guid)
    &&& m.dialects.len() <= 0xffff
    &&& m.negotiate_contexts.len() <= 0xffff
    &&& wf_context_list(m.negotiate_contexts)
}

/// The absolute offset of the request's context list: the dialect list's end
/// rounded up to an 8-byte boundary, or zero when there are no contexts.
pub open spec fn neg_req_ctx_offset(m: NegotiateRequestV) -> int {
    if m.negotiate_contexts.len() == 0 {
        0
    } else {
        spec_align8(100 + 2 * m.dialects.len() as int)
    }
}

/// The byte layout of a negotiate request body. Offsets within it are
/// measured from the start of the message, whose 64-byte header precedes
/// this body.
pub open spec fn spec_enc_negotiate_request(m: NegotiateRequestV) -> Seq<u8> {
    spec_le16(36) + spec_le16(m.dialects.len() as u16) + spec_le16(m.security_mode) + spec_le16(0)
        + spec_le32(m.capabilities) + spec_enc_uuid(m.client_guid) + spec_le32(
        neg_req_ctx_offset(m) as u32,
    ) + spec_le16(m.negotiate_contexts.len() as u16) + spec_le16(0) + spec_enc_dialects(m.dialects)
        + if m.negotiate_contexts.len() == 0 {
        Seq::<u8>::empty()
    } else {
        zeros((neg_req_ctx_offset(m) - (100 + 2 * m.dialects.len())) as nat) + spec_enc_ctx_list(
            m.negotiate_contexts,
        )
    }
}

/// The negotiate request denoted by the frame `b`, whose body begins at
/// byte 64.
pub open spec fn spec_dec_negotiate_request(b: Seq<u8>) -> Result<NegotiateRequestV, CodecError> {
    if b.len() < 100 {
        Err(CodecError::Truncated)
    } else {
        match spec_dec_dialects(b, 100, u16_at(b, 66) as nat) {
            Err(e) => Err(e),
            Ok(ds) => {
                let cc = u16_at(b, 96);
                if cc == 0 {
                    Ok(
                        NegotiateRequestV {
                            security_mode: u16_at(b, 68),
                            capabilities: u32_at(b, 72),
                            client_guid: spec_dec_uuid(b, 76),
                            dialects: ds,
                            negotiate_contexts: Seq::empty(),
                        },
                    )
                } else {
                    match spec_dec_ctx_list(b, u32_at(b, 92) as int, 0, cc as nat) {
                        Err(e) => Err(e),
                        Ok(cs) => Ok(
                            NegotiateRequestV {
                                security_mode: u16_at(b, 68),
                                capabilities: u32_at(b, 72),
                                client_guid: spec_dec_uuid(b, 76),
                                dialects: ds,
                                negotiate_contexts: cs,
                            },
                        ),
                    }
                }
            },
        }
    }
}

/// Appends the encoding of a negotiate request body.
#[verifier::rlimit(80)]
pub fn encode_negotiate_request(out: &mut Vec<u8>, m: &NegotiateRequest)
    requires
        wf_negotiate_request(m@),
    ensures
        final(out)@ == old(out)@ + spec_enc_negotiate_request(m@),
{
    put_u16(out, 36);
    put_u16(out, m.dialects.len() as u16);
    put_u16(out, m.security_mode);
    put_u16(out, 0);
    put_u32(out, m.capabilities);
    encode_uuid(out, &m.client_guid);
    let dialect_end: usize = 100 + 2 * m.dialects.len();
    let ctx_offset: usize = if m.negotiate_contexts.len() == 0 {
        0
    } else {
        align8(dialect_end)
    };
    put_u32(out, ctx_offset as u32);
    put_u16(out, m.negotiate_contexts.len() as u16);
    put_u16(out, 0);
    encode_dialects_from(out, &m.dialects, 0);
    assert(m.dialects@.skip(0) =~= m.dialects@);
    if m.negotiate_contexts.len() > 0 {
        put_zeros(out, ctx_offset - dialect_end);
        encode_context_list_from(out, &m.negotiate_contexts, 0);
        assert(m.negotiate_contexts@.skip(0) =~= m.negotiate_contexts@);
    }
    assert(out@ =~= old(out)@ + spec_enc_negotiate_request(m@));
}

/// Decodes the negotiate request carried by the frame `b`.
#[verifier::rlimit(80)]
pub fn decode_negotiate_request(b: &Vec<u8>) -> (r: Result<NegotiateRequest, CodecError>)
    requires
        b@.len() + 8 <= usize::MAX,
    ensures
        match r {
            Ok(m) => spec_dec_negotiate_request(b@) == Ok::<NegotiateRequestV, CodecError>(m@),
            Err(e) => spec_dec_negotiate_request(b@) == Err::<NegotiateRequestV, CodecError>(e),
        },
{
    if b.len() < 100 {
        return Err(CodecError::Truncated);
    }
    let dcount = read_u16(b, 66);
    let mut dialects: Vec<Dialect> = Vec::new();
    match decode_dialects_into(b, 100, dcount as usize, &mut dialects) {
        Err(e) => {
            return Err(e);
        },
        Ok(_) => {},
    }
    let cc = read_u16(b, 96);
    let mut contexts: Vec<NegotiateContext> = Vec::new();
    if cc > 0 {
        let ctx_offset = read_u32(b, 92);
        match decode_context_list_into(b, ctx_offset as usize, 0, cc as usize, &mut contexts) {
            Err(e) => {
                return Err(e);
            },
            Ok(_) => {},
        }
    }
    assert(dialects@ =~= Seq::<Dialect>::empty() + spec_dec_dialects(
        b@,
        100,
        dcount as nat,
    )->Ok_0);
    if cc > 0 {
        assert(views_of(contexts@) =~= Seq::<NegotiateContextV>::empty() + spec_dec_ctx_list(
            b@,
            u32_at(b@, 92) as int,
            0,
            cc as nat,
        )->Ok_0);
    } else {
        assert(views_of(contexts@) =~= Seq::<NegotiateContextV>::empty());
    }
    let m = NegotiateRequest {
        security_mode: read_u16(b, 68),
        capabilities: read_u32(b, 72),
        client_guid: decode_uuid(b, 76),
        dialects,
        negotiate_contexts: contexts,
    };
    Ok(m)
}

/// Decoding an encoded negotiate request, behind any 64-byte header, yields
/// the request back.
#[verifier::rlimit(80)]
pub proof fn lemma_negotiate_request_roundtrip(hdr: Seq<u8>, m: NegotiateRequestV)
    requires
        hdr.len() == 64,
        wf_negotiate_request(m),
    ensures
        spec_dec_negotiate_request(hdr + spec_enc_negotiate_request(m)) == Ok::<
            NegotiateRequestV,
            CodecError,
        >(m),
{
    broadcast use lemma_le16_combine;
    broadcast use lemma_le32_combine;

    let body = spec_enc_negotiate_request(m);
    let b = hdr + body;
    let d = m.dialects.len() as int;
    let nc = m.negotiate_contexts.len() as int;
    lemma_enc_dialects_len(m.dialects);
    lemma_enc_ctx_list_len(m.negotiate_contexts);
    assert(u16_at(b, 66) == m.dialects.len() as u16);
    assert(m.dialects.len() as u16 as int == d);
    assert(u16_at(b, 68) == m.security_mode);
    assert(u32_at(b, 72) == m.capabilities);
    assert(u32_at(b, 76) == m.client_guid.data1);
    assert(u16_at(b, 80) == m.client_guid.data2);
    assert(u16_at(b, 82) == m.client_guid.data3);
    assert(b.subrange(84, 92) =~= m.client_guid.data4);
    assert(u32_at(b, 92) == neg_req_ctx_offset(m) as u32);
    assert(u16_at(b, 96) == m.negotiate_contexts.len() as u16);
    assert(m.negotiate_contexts.len() as u16 as int == nc);
    assert(b.subrange(100, 100 + 2 * d) =~= spec_enc_dialects(m.dialects));
    lemma_dialects_roundtrip(b, 100, m.dialects);
    if nc == 0 {
        assert(m.negotiate_contexts =~= Seq::<NegotiateContextV>::empty());
    } else {
        let off = neg_req_ctx_offset(m);
        assert(off == spec_align8(100 + 2 * d));
        assert(neg_req_ctx_offset(m) as u32 as int == off);
        assert(b.subrange(off, off + ctx_list_enc_len(m.negotiate_contexts)) =~= spec_enc_ctx_list(
            m.negotiate_contexts,
        ));
        lemma_ctx_list_roundtrip(b, off, 0, m.negotiate_contexts);
    }
}

/// A negotiate response: the chosen dialect, the server's identity and
/// limits, an offset-addressed security blob, and negotiate contexts.
#[derive(Clone, Debug, PartialEq, Eq)]
pub struct NegotiateResponse {
    pub security_mode: u16,
    pub dialect: Dialect,
    pub server_guid: Uuid,
    pub capabilities: u32,
    pub max_transaction_size: u32,
    pub max_read_size: u32,
    pub max_write_size: u32,
    pub current_time: Vec<u8>,
    pub boot_time: Vec<u8>,
    pub security_blob: Vec<u8>,
    pub negotiate_contexts: Vec<NegotiateContext>,
}

/// The mathematical value of a [`NegotiateResponse`].
pub struct NegotiateResponseV {
    pub security_mode: u16,
    pub dialect: Dialect,
    pub server_guid: UuidV,
    pub capabilities: u32,
    pub max_transaction_size: u32,
    pub max_read_size: u32,
    pub max_write_size: u32,
    pub current_time: Seq<u8>,
    pub boot_time: Seq<u8>,
    pub security_blob: Seq<u8>,
    pub negotiate_contexts: Seq<NegotiateContextV>,
}

impl View for NegotiateResponse {
    type V = NegotiateResponseV;

    open spec fn view(&self) -> NegotiateResponseV {
        NegotiateResponseV {
            security_mode: self.security_mode,
            dialect: self.dialect,
            server_guid: self.server_guid@,
            capabilities: self.capabilities,
            max_transaction_size: self.max_transaction_size,
            max_read_size: self.max_read_size,
            max_write_size: self.max_write_size,
            current_time: self.current_time@,
            boot_time: self.boot_time@,
            security_blob: self.security_blob@,
            negotiate_contexts: views_of(self.negotiate_contexts@),
        }
    }
}

/// A representable negotiate response: the raw timestamps are eight bytes,
/// counts and lengths fit their 16-bit fields, contexts are representable.
pub open spec fn wf_negotiate_response(m: NegotiateResponseV) -> bool {
    &&& wf_uuid(m.server_guid)
    &&& m.current_time.len() == 8
    &&& m.boot_time.len() == 8
    &&& m.security_blob.len() <= 0xffff
    &&& m.negotiate_contexts.len() <= 0xffff
    &&& wf_context_list(m.negotiate_contexts)
}

/// The absolute offset of the response's context list: the security blob's
/// end rounded up to an 8-byte boundary, or zero when there are no contexts.
pub open spec fn neg_resp_ctx_offset(m: NegotiateResponseV) -> int {
    if m.negotiate_contexts.len() == 0 {
        0
    } else {
        spec_align8(128 + m.security_blob.len() as int)
    }
}

/// The byte layout of a negotiate response body.
pub open spec fn spec_enc_negotiate_response(m: NegotiateResponseV) -> Seq<u8> {
    spec_le16(65) + spec_le16(m.security_mode) + spec_le16(dialect_u16(m.dialect)) + spec_le16(
        m.negotiate_contexts.len() as u16,
    ) + spec_enc_uuid(m.server_guid) + spec_le32(m.capabilities) + spec_le32(m.max_transaction_size)
        + spec_le32(m.max_read_size) + spec_le32(m.max_write_size) + m.current_time + m.boot_time
        + spec_le16(128) + spec_le16(m.security_blob.len() as u16) + spec_le32(
        neg_resp_ctx_offset(m) as u32,
    ) + m.security_blob + if m.negotiate_contexts.len() == 0 {
        Seq::<u8>::empty()
    } else {
        zeros((neg_resp_ctx_offset(m) - (128 + m.security_blob.len())) as nat)
            + spec_enc_ctx_list(m.negotiate_contexts)
    }
}

/// The negotiate response denoted by the frame `b`.
pub open spec fn spec_dec_negotiate_response(b: Seq<u8>) -> Result<NegotiateResponseV, CodecError> {
    if b.len() < 128 {
        Err(CodecError::Truncated)
    } else {
        match dialect_from_u16(u16_at(b, 68)) {
            Option::None => Err(CodecError::UnknownVariant),
            Option::Some(dl) => {
                let bo = u16_at(b, 120) as int;
                let bl = u16_at(b, 122) as int;
                if bo + bl > b.len() {
                    Err(CodecError::Truncated)
                } else {
                    let cc = u16_at(b, 70);
                    if cc == 0 {
                        Ok(
                            NegotiateResponseV {
                                security_mode: u16_at(b, 66),
                                dialect: dl,
                                server_guid: spec_dec_uuid(b, 72),
                                capabilities: u32_at(b, 88),
                                max_transaction_size: u32_at(b, 92),
                                max_read_size: u32_at(b, 96),
                                max_write_size: u32_at(b, 100),
                                current_time: b.subrange(104, 112),
                                boot_time: b.subrange(112, 120),
                                security_blob: b.subrange(bo, bo + bl),
                                negotiate_contexts: Seq::empty(),
                            },
                        )
                    } else {
                        match spec_dec_ctx_list(b, u32_at(b, 124) as int, 0, cc as nat) {
                            Err(e) => Err(e),
                            Ok(cs) => Ok(
                                NegotiateResponseV {
                                    security_mode: u16_at(b, 66),
                                    dialect: dl,
                                    server_guid: spec_dec_uuid(b, 72),
                                    capabilities: u32_at(b, 88),
                                    max_transaction_size: u32_at(b, 92),
                                    max_read_size: u32_at(b, 96),
                                    max_write_size: u32_at(b, 100),
                                    current_time: b.subrange(104, 112),
                                    boot_time: b.subrange(112, 120),
                                    security_blob: b.subrange(bo, bo + bl),
                                    negotiate_contexts: cs,
                                },
                            ),
                        }
                    }
                }
            },
        }
    }
}

/// Appends the encoding of a negotiate response body.
#[verifier::rlimit(80)]
pub fn encode_negotiate_response(out: &mut Vec<u8>, m: &NegotiateResponse)
    requires
        wf_negotiate_response(m@),
    ensures
        final(out)@ == old(out)@ + spec_enc_negotiate_response(m@),
{
    put_u16(out, 65);
    put_u16(out, m.security_mode);
    put_u16(out, dialect_to_wire(m.dialect));
    put_u16(out, m.negotiate_contexts.len() as u16);
    encode_uuid(out, &m.server_guid);
    put_u32(out, m.capabilities);
    put_u32(out, m.max_transaction_size);
    put_u32(out, m.max_read_size);
    put_u32(out, m.max_write_size);
    put_bytes(out, &m.current_time);
    put_bytes(out, &m.boot_time);
    let blob_end: usize = 128 + m.security_blob.len();
    let ctx_offset: usize = if m.negotiate_contexts.len() == 0 {
        0
    } else {
        align8(blob_end)
    };
    put_u16(out, 128);
    put_u16(out, m.security_blob.len() as u16);
    put_u32(out, ctx_offset as u32);
    put_bytes(out, &m.security_blob);
    if m.negotiate_contexts.len() > 0 {
        put_zeros(out, ctx_offset - blob_end);
        encode_context_list_from(out, &m.negotiate_contexts, 0);
        assert(m.negotiate_contexts@.skip(0) =~= m.negotiate_contexts@);
    }
    assert(out@ =~= old(out)@ + spec_enc_negotiate_response(m@));
}

/// Decodes the negotiate response carried by the frame `b`.
#[verifier::rlimit(80)]
pub fn decode_negotiate_response(b: &Vec<u8>) -> (r: Result<NegotiateResponse, CodecError>)
    requires
        b@.len() + 8 <= usize::MAX,
    ensures
        match r {
            Ok(m) => spec_dec_negotiate_response(b@) == Ok::<NegotiateResponseV, CodecError>(m@),
            Err(e) => spec_dec_negotiate_response(b@) == Err::<NegotiateResponseV, CodecError>(e),
        },
{
    if b.len() < 128 {
        return Err(CodecError::Truncated);
    }
    let dialect = match dialect_from_wire(read_u16(b, 68)) {
        Option::None => {
            return Err(CodecError::UnknownVariant);
        },
        Option::Some(dl) => dl,
    };
    let bo = read_u16(b, 120);
    let bl = read_u16(b, 122);
    if bo as usize > b.len() || (b.len() - bo as usize) < (bl as usize) {
        return Err(CodecError::Truncated);
    }
    let blob = read_bytes(b, bo as usize, bl as usize);
    let cc = read_u16(b, 70);
    let mut contexts: Vec<NegotiateContext> = Vec::new();
    if cc > 0 {
        let ctx_offset = read_u32(b, 124);
        match decode_context_list_into(b, ctx_offset as usize, 0, cc as usize, &mut contexts) {
            Err(e) => {
                return Err(e);
            },
            Ok(_) => {},
        }
        assert(views_of(contexts@) =~= Seq::<NegotiateContextV>::empty() + spec_dec_ctx_list(
            b@,
            u32_at(b@, 124) as int,
            0,
            cc as nat,
        )->Ok_0);
    } else {
        assert(views_of(contexts@) =~= Seq::<NegotiateContextV>::empty());
    }
    let m = NegotiateResponse {
        security_mode: read_u16(b, 66),
        dialect,
        server_guid: decode_uuid(b, 72),
        capabilities: read_u32(b, 88),
        max_transaction_size: read_u32(b, 92),
        max_read_size: read_u32(b, 96),
        max_write_size: read_u32(b, 100),
        current_time: read_bytes(b, 104, 8),
        boot_time: read_bytes(b, 112, 8),
        security_blob: blob,
        negotiate_contexts: contexts,
    };
    Ok(m)
}

/// Decoding an encoded negotiate response, behind any 64-byte header, yields
/// the response back.
#[verifier::rlimit(80)]
pub proof fn lemma_negotiate_response_roundtrip(hdr: Seq<u8>, m: NegotiateResponseV)
    requires
        hdr.len() == 64,
        wf_negotiate_response(m),
    ensures
        spec_dec_negotiate_response(hdr + spec_enc_negotiate_response(m)) == Ok::<
            NegotiateResponseV,
            CodecError,
        >(m),
{
    broadcast use lemma_le16_combine;
    broadcast use lemma_le32_combine;
    broadcast use lemma_dialect_roundtrip;

    let body = spec_enc_negotiate_response(m);
    let b = hdr + body;
    let bl = m.security_blob.len() as int;
    let nc = m.negotiate_contexts.len() as int;
    lemma_enc_ctx_list_len(m.negotiate_contexts);
    assert(u16_at(b, 66) == m.security_mode);
    assert(u16_at(b, 68) == dialect_u16(m.dialect));
    assert(u16_at(b, 70) == m.negotiate_contexts.len() as u16);
    assert(m.negotiate_contexts.len() as u16 as int == nc);
    assert(u32_at(b, 72) == m.server_guid.data1);
    assert(u16_at(b, 76) == m.server_guid.data2);
    assert(u16_at(b, 78) == m.server_guid.data3);
    assert(b.subrange(80, 88) =~= m.server_guid.data4);
    assert(u32_at(b, 88) == m.capabilities);
    assert(u32_at(b, 92) == m.max_transaction_size);
    assert(u32_at(b, 96) == m.max_read_size);
    assert(u32_at(b, 100) == m.max_write_size);
    assert(b.subrange(104, 112) =~= m.current_time);
    assert(b.subrange(112, 120) =~= m.boot_time);
    assert(u16_at(b, 120) == 128);
    assert(u16_at(b, 122) == m.security_blob.len() as u16);
    assert(m.security_blob.len() as u16 as int == bl);
    assert(u32_at(b, 124) == neg_resp_ctx_offset(m) as u32);
    assert(b.subrange(128, 128 + bl) =~= m.security_blob);
    if nc == 0 {
        assert(m.negotiate_contexts =~= Seq::<NegotiateContextV>::empty());
    } else {
        let off = neg_resp_ctx_offset(m);
        assert(off == spec_align8(128 + bl));
        assert(neg_resp_ctx_offset(m) as u32 as int == off);
        assert(b.subrange(off, off + ctx_list_enc_len(m.negotiate_contexts)) =~= spec_enc_ctx_list(
            m.negotiate_contexts,
        ));
        lemma_ctx_list_roundtrip(b, off, 0, m.negotiate_contexts);
    }
}

} // verus!
