//! The create request and response: opening, creating and deleting files all
//! go through create, with an offset-addressed name and an opaque
//! create-context region.

use vstd::prelude::*;
use crate::bytes::{
    align8, lemma_le16_combine, lemma_le32_combine, lemma_le64_combine, put_bytes, put_u16,
    put_u32, put_u64, put_u8, put_zeros, read_bytes, read_u16, read_u32, read_u64, read_u8,
    spec_align8, spec_le16, spec_le32, spec_le64, u16_at, u32_at, u64_at, zeros,
};
use crate::lists::{
    decode_utf16_into, encode_utf16_from, lemma_enc_utf16_len, lemma_utf16_roundtrip,
    spec_dec_utf16, spec_enc_utf16,
};
use crate::types::{CodecError, FileId, wf_file_id};

verus! {

/// A create request: how to open or make a file at a path.
#[derive(Clone, Debug, PartialEq, Eq)]
pub struct CreateRequest {
    pub requested_oplock_level: u8,
    pub impersonation_level: u32,
    pub desired_access: u32,
    pub file_attributes: u32,
    pub share_access: u32,
    pub create_disposition: u32,
    pub create_options: u32,
    pub name: Vec<u16>,
    pub create_contexts: Vec<u8>,
}

/// The mathematical value of a [`CreateRequest`].
pub struct CreateRequestV {
    pub requested_oplock_level: u8,
    pub impersonation_level: u32,
    pub desired_access: u32,
    pub file_attributes: u32,
    pub share_access: u32,
    pub create_disposition: u32,
    pub create_options: u32,
    pub name: Seq<u16>,
    pub create_contexts: Seq<u8>,
}

impl View for CreateRequest {
    type V = CreateRequestV;

    open spec fn view(&self) -> CreateRequestV {
        CreateRequestV {
            requested_oplock_level: self.requested_oplock_level,
            impersonation_level: self.impersonation_level,
            desired_access: self.desired_access,
            file_attributes: self.file_attributes,
            share_access: self.share_access,
            create_disposition: self.create_disposition,
            create_options: self.create_options,
            name: self.name@,
            create_contexts: self.create_contexts@,
        }
    }
}

/// A representable create request: the encoded name fits its 16-bit length
/// field and the context region its 32-bit one.
pub open spec fn wf_create_request(m: CreateRequestV) -> bool {
    &&& 2 * m.name.len() <= 0xffff
    &&& m.create_contexts.len() <= 0xffff_ffff
}

/// The absolute offset of the request's create-context region, or zero when
/// it is empty.
pub open spec fn create_req_ctx_offset(m: CreateRequestV) -> int {
    if m.create_contexts.len() == 0 {
        0
    } else {
        spec_align8(120 + 2 * m.name.len() as int)
    }
}

/// The byte layout of a create request body: fixed fields, the name at
/// absolute offset 120, then the opaque context region 8-aligned.
pub open spec fn spec_enc_create_request(m: CreateRequestV) -> Seq<u8> {
    spec_le16(57) + seq![0u8, m.requested_oplock_level] + spec_le32(m.impersonation_level)
        + spec_le64(0) + spec_le64(0) + spec_le32(m.desired_access) + spec_le32(m.file_attributes)
        + spec_le32(m.share_access) + spec_le32(m.create_disposition) + spec_le32(m.create_options)
        + spec_le16(120) + spec_le16((2 * m.name.len()) as u16) + spec_le32(
        create_req_ctx_offset(m) as u32,
    ) + spec_le32(m.create_contexts.len() as u32) + spec_enc_utf16(m.name)
        + if m.create_contexts.len() == 0 {
        Seq::<u8>::empty()
    } else {
        zeros((create_req_ctx_offset(m) - (120 + 2 * m.name.len())) as nat) + m.create_contexts
    }
}

/// The create request denoted by the frame `b`.
pub open spec fn spec_dec_create_request(b: Seq<u8>) -> Result<CreateRequestV, CodecError> {
    if b.len() < 120 {
        Err(CodecError::Truncated)
    } else {
        let no = u16_at(b, 108) as int;
        let nl = u16_at(b, 110) as int;
        match spec_dec_utf16(b, no, (nl / 2) as nat) {
            Err(e) => Err(e),
            Ok(name) => {
                let cl = u32_at(b, 116) as int;
                let co = u32_at(b, 112) as int;
                if cl == 0 {
                    Ok(
                        CreateRequestV {
                            requested_oplock_level: b[67],
                            impersonation_level: u32_at(b, 68),
                            desired_access: u32_at(b, 88),
                            file_attributes: u32_at(b, 92),
                            share_access: u32_at(b, 96),
                            create_disposition: u32_at(b, 100),
                            create_options: u32_at(b, 104),
                            name,
                            create_contexts: Seq::empty(),
                        },
                    )
                } else if co + cl > b.len() {
                    Err(CodecError::Truncated)
                } else {
                    Ok(
                        CreateRequestV {
                            requested_oplock_level: b[67],
                            impersonation_level: u32_at(b, 68),
                            desired_access: u32_at(b, 88),
                            file_attributes: u32_at(b, 92),
                            share_access: u32_at(b, 96),
                            create_disposition: u32_at(b, 100),
                            create_options: u32_at(b, 104),
                            name,
                            create_contexts: b.subrange(co, co + cl),
                        },
                    )
                }
            },
        }
    }
}

/// Appends the encoding of a create request body.
#[verifier::rlimit(80)]
pub fn encode_create_request(out: &mut Vec<u8>, m: &CreateRequest)
    requires
        wf_create_request(m@),
    ensures
        final(out)@ == old(out)@ + spec_enc_create_request(m@),
{
    put_u16(out, 57);
    put_u8(out, 0);
    put_u8(out, m.requested_oplock_level);
    put_u32(out, m.impersonation_level);
    put_u64(out, 0);
    put_u64(out, 0);
    put_u32(out, m.desired_access);
    put_u32(out, m.file_attributes);
    put_u32(out, m.share_access);
    put_u32(out, m.create_disposition);
    put_u32(out, m.create_options);
    put_u16(out, 120);
    put_u16(out, (2 * m.name.len()) as u16);
    let name_end: usize = 120 + 2 * m.name.len();
    let ctx_offset: usize = if m.create_contexts.len() == 0 {
        0
    } else {
        align8(name_end)
    };
    put_u32(out, ctx_offset as u32);
    put_u32(out, m.create_contexts.len() as u32);
    encode_utf16_from(out, &m.name, 0);
    assert(m.name@.skip(0) =~= m.name@);
    if m.create_contexts.len() > 0 {
        put_zeros(out, ctx_offset - name_end);
        put_bytes(out, &m.create_contexts);
    }
    assert(out@ =~= old(out)@ + spec_enc_create_request(m@));
}

/// Decodes the create request carried by the frame `b`.
#[verifier::rlimit(80)]
pub fn decode_create_request(b: &Vec<u8>) -> (r: Result<CreateRequest, CodecError>)
    ensures
        match r {
            Ok(m) => spec_dec_create_request(b@) == Ok::<CreateRequestV, CodecError>(m@),
            Err(e) => spec_dec_create_request(b@) == Err::<CreateRequestV, CodecError>(e),
        },
{
    if b.len() < 120 {
        return Err(CodecError::Truncated);
    }
    let no = read_u16(b, 108);
    let nl = read_u16(b, 110);
    let mut name: Vec<u16> = Vec::new();
    if no as usize > b.len() {
        if nl / 2 != 0 {
            return Err(CodecError::Truncated);
        }
        assert(name@ =~= spec_dec_utf16(b@, no as int, (nl / 2) as nat)->Ok_0);
    } else {
        match decode_utf16_into(b, no as usize, (nl / 2) as usize, &mut name) {
            Err(e) => {
                return Err(e);
            },
            Ok(_) => {},
        }
        assert(name@ =~= Seq::<u16>::empty() + spec_dec_utf16(
            b@,
            no as int,
            (nl / 2) as nat,
        )->Ok_0);
    }
    let cl = read_u32(b, 116);
    let co = read_u32(b, 112);
    let mut contexts: Vec<u8> = Vec::new();
    if cl != 0 {
        if co as usize > b.len() || (b.len() - co as usize) < (cl as usize) {
            return Err(CodecError::Truncated);
        }
        contexts = read_bytes(b, co as usize, cl as usize);
    }
    Ok(
        CreateRequest {
            requested_oplock_level: read_u8(b, 67),
            impersonation_level: read_u32(b, 68),
            desired_access: read_u32(b, 88),
            file_attributes: read_u32(b, 92),
            share_access: read_u32(b, 96),
            create_disposition: read_u32(b, 100),
            create_options: read_u32(b, 104),
            name,
            create_contexts: contexts,
        },
    )
}

/// Decoding an encoded create request, behind any 64-byte header, yields the
/// request back.
#[verifier::rlimit(80)]
pub proof fn lemma_create_request_roundtrip(hdr: Seq<u8>, m: CreateRequestV)
    requires
        hdr.len() == 64,
        wf_create_request(m),
    ensures
        spec_dec_create_request(hdr + spec_enc_create_request(m)) == Ok::<
            CreateRequestV,
            CodecError,
        >(m),
{
    broadcast use lemma_le16_combine;
    broadcast use lemma_le32_combine;
    broadcast use lemma_le64_combine;

    let body = spec_enc_create_request(m);
    let b = hdr + body;
    let nl = m.name.len() as int;
    let cl = m.create_contexts.len() as int;
    lemma_enc_utf16_len(m.name);
    assert(b[67] == m.requested_oplock_level);
    assert(u32_at(b, 68) == m.impersonation_level);
    assert(u32_at(b, 88) == m.desired_access);
    assert(u32_at(b, 92) == m.file_attributes);
    assert(u32_at(b, 96) == m.share_access);
    assert(u32_at(b, 100) == m.create_disposition);
    assert(u32_at(b, 104) == m.create_options);
    assert(u16_at(b, 108) == 120);
    assert(u16_at(b, 110) == (2 * m.name.len()) as u16);
    assert((2 * m.name.len()) as u16 as int == 2 * nl);
    assert(u32_at(b, 112) == create_req_ctx_offset(m) as u32);
    assert(u32_at(b, 116) == m.create_contexts.len() as u32);
    assert(m.create_contexts.len() as u32 as int == cl);
    assert(b.subrange(120, 120 + 2 * nl) =~= spec_enc_utf16(m.name));
    lemma_utf16_roundtrip(b, 120, m.name);
    if cl == 0 {
        assert(m.create_contexts =~= Seq::<u8>::empty());
    } else {
        let off = create_req_ctx_offset(m);
        assert(create_req_ctx_offset(m) as u32 as int == off);
        assert(b.subrange(off, off + cl) =~= m.create_contexts);
    }
}

/// A create response: what was opened, its metadata, and the handle.
#[derive(Clone, Debug, PartialEq, Eq)]
pub struct CreateResponse {
    pub oplock_level: u8,
    pub flags: u8,
    pub create_action: u32,
    pub creation_time: Vec<u8>,
    pub last_access_time: Vec<u8>,
    pub last_write_time: Vec<u8>,
    pub change_time: Vec<u8>,
    pub allocation_size: u64,
    pub end_of_file: u64,
    pub file_attributes: u32,
    pub file_id: FileId,
    pub create_contexts: Vec<u8>,
}

/// The mathematical value of a [`CreateResponse`].
pub struct CreateResponseV {
    pub oplock_level: u8,
    pub flags: u8,
    pub create_action: u32,
    pub creation_time: Seq<u8>,
    pub last_access_time: Seq<u8>,
    pub last_write_time: Seq<u8>,
    pub change_time: Seq<u8>,
    pub allocation_size: u64,
    pub end_of_file: u64,
    pub file_attributes: u32,
    pub file_id: Seq<u8>,
    pub create_contexts: Seq<u8>,
}

impl View for CreateResponse {
    type V = CreateResponseV;

    open spec fn view(&self) -> CreateResponseV {
        CreateResponseV {
            oplock_level: self.oplock_level,
            flags: self.flags,
            create_action: self.create_action,
            creation_time: self.creation_time@,
            last_access_time: self.last_access_time@,
            last_write_time: self.last_write_time@,
            change_time: self.change_time@,
            allocation_size: self.allocation_size,
            end_of_file: self.end_of_file,
            file_attributes: self.file_attributes,
            file_id: self.file_id@,
            create_contexts: self.create_contexts@,
        }
    }
}

/// A representable create response: raw timestamps are eight bytes, the
/// handle sixteen.
pub open spec fn wf_create_response(m: CreateResponseV) -> bool {
    &&& m.creation_time.len() == 8
    &&& m.last_access_time.len() == 8
    &&& m.last_write_time.len() == 8
    &&& m.change_time.len() == 8
    &&& wf_file_id(m.file_id)
    &&& m.create_contexts.len() <= 0xffff_ffff
}

/// The absolute offset of the response's create-context region, or zero when
/// it is empty.
pub open spec fn create_resp_ctx_offset(m: CreateResponseV) -> int {
    if m.create_contexts.len() == 0 {
        0
    } else {
        152
    }
}

/// The byte layout of a create response body.
pub open spec fn spec_enc_create_response(m: CreateResponseV) -> Seq<u8> {
    spec_le16(89) + seq![m.oplock_level, m.flags] + spec_le32(m.create_action) + m.creation_time
        + m.last_access_time + m.last_write_time + m.change_time + spec_le64(m.allocation_size)
        + spec_le64(m.end_of_file) + spec_le32(m.file_attributes) + spec_le32(0) + m.file_id
        + spec_le32(create_resp_ctx_offset(m) as u32) + spec_le32(m.create_contexts.len() as u32)
        + m.create_contexts
}

/// The create response denoted by the frame `b`.
pub open spec fn spec_dec_create_response(b: Seq<u8>) -> Result<CreateResponseV, CodecError> {
    if b.len() < 152 {
        Err(CodecError::Truncated)
    } else {
        let cl = u32_at(b, 148) as int;
        let co = u32_at(b, 144) as int;
        if cl != 0 && co + cl > b.len() {
            Err(CodecError::Truncated)
        } else {
            Ok(
                CreateResponseV {
                    oplock_level: b[66],
                    flags: b[67],
                    create_action: u32_at(b, 68),
                    creation_time: b.subrange(72, 80),
                    last_access_time: b.subrange(80, 88),
                    last_write_time: b.subrange(88, 96),
                    change_time: b.subrange(96, 104),
                    allocation_size: u64_at(b, 104),
                    end_of_file: u64_at(b, 112),
                    file_attributes: u32_at(b, 120),
                    file_id: b.subrange(128, 144),
                    create_contexts: if cl == 0 {
                        Seq::empty()
                    } else {
                        b.subrange(co, co + cl)
                    },
                },
            )
        }
    }
}

/// Appends the encoding of a create response body.
#[verifier::rlimit(80)]
pub fn encode_create_response(out: &mut Vec<u8>, m: &CreateResponse)
    requires
        wf_create_response(m@),
    ensures
        final(out)@ == old(out)@ + spec_enc_create_response(m@),
{
    put_u16(out, 89);
    put_u8(out, m.oplock_level);
    put_u8(out, m.flags);
    put_u32(out, m.create_action);
    put_bytes(out, &m.creation_time);
    put_bytes(out, &m.last_access_time);
    put_bytes(out, &m.last_write_time);
    put_bytes(out, &m.change_time);
    put_u64(out, m.allocation_size);
    put_u64(out, m.end_of_file);
    put_u32(out, m.file_attributes);
    put_u32(out, 0);
    put_bytes(out, &m.file_id.0);
    if m.create_contexts.len() == 0 {
        put_u32(out, 0);
    } else {
        put_u32(out, 152);
    }
    put_u32(out, m.create_contexts.len() as u32);
    put_bytes(out, &m.create_contexts);
    assert(out@ =~= old(out)@ + spec_enc_create_response(m@));
}

/// Decodes the create response carried by the frame `b`.
#[verifier::rlimit(80)]
pub fn decode_create_response(b: &Vec<u8>) -> (r: Result<CreateResponse, CodecError>)
    ensures
        match r {
            Ok(m) => spec_dec_create_response(b@) == Ok::<CreateResponseV, CodecError>(m@),
            Err(e) => spec_dec_create_response(b@) == Err::<CreateResponseV, CodecError>(e),
        },
{
    if b.len() < 152 {
        return Err(CodecError::Truncated);
    }
    let cl = read_u32(b, 148);
    let co = read_u32(b, 144);
    let mut contexts: Vec<u8> = Vec::new();
    if cl != 0 {
        if co as usize > b.len() || (b.len() - co as usize) < (cl as usize) {
            return Err(CodecError::Truncated);
        }
        contexts = read_bytes(b, co as usize, cl as usize);
    }
    Ok(
        CreateResponse {
            oplock_level: read_u8(b, 66),
            flags: read_u8(b, 67),
            create_action: read_u32(b, 68),
            creation_time: read_bytes(b, 72, 8),
            last_access_time: read_bytes(b, 80, 8),
            last_write_time: read_bytes(b, 88, 8),
            change_time: read_bytes(b, 96, 8),
            allocation_size: read_u64(b, 104),
            end_of_file: read_u64(b, 112),
            file_attributes: read_u32(b, 120),
            file_id: FileId(read_bytes(b, 128, 16)),
            create_contexts: contexts,
        },
    )
}

/// Decoding an encoded create response, behind any 64-byte header, yields
/// the response back.
#[verifier::rlimit(80)]
pub proof fn lemma_create_response_roundtrip(hdr: Seq<u8>, m: CreateResponseV)
    requires
        hdr.len() == 64,
        wf_create_response(m),
    ensures
        spec_dec_create_response(hdr + spec_enc_create_response(m)) == Ok::<
            CreateResponseV,
            CodecError,
        >(m),
{
    broadcast use lemma_le16_combine;
    broadcast use lemma_le32_combine;
    broadcast use lemma_le64_combine;

    let body = spec_enc_create_response(m);
    let b = hdr + body;
    let cl = m.create_contexts.len() as int;
    assert(b[66] == m.oplock_level);
    assert(b[67] == m.flags);
    assert(u32_at(b, 68) == m.create_action);
    assert(b.subrange(72, 80) =~= m.creation_time);
    assert(b.subrange(80, 88) =~= m.last_access_time);
    assert(b.subrange(88, 96) =~= m.last_write_time);
    assert(b.subrange(96, 104) =~= m.change_time);
    assert(u64_at(b, 104) == m.allocation_size);
    assert(u64_at(b, 112) == m.end_of_file);
    assert(u32_at(b, 120) == m.file_attributes);
    assert(b.subrange(128, 144) =~= m.file_id);
    assert(u32_at(b, 144) == create_resp_ctx_offset(m) as u32);
    assert(u32_at(b, 148) == m.create_contexts.len() as u32);
    assert(m.create_contexts.len() as u32 as int == cl);
    if cl == 0 {
        assert(m.create_contexts =~= Seq::<u8>::empty());
    } else {
        assert(b.subrange(152, 152 + cl) =~= m.create_contexts);
    }
}

} // verus!
