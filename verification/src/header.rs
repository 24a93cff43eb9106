//! The fixed 64-byte message header, in its request and response forms, with
//! its encoder, decoder, and the proof that they are inverse.

use vstd::prelude::*;
use crate::bytes::{
    put_bytes, put_u16, put_u32, put_u64, put_u8, read_bytes, read_u16, read_u32, read_u64,
    lemma_le16_combine, lemma_le32_combine, lemma_le64_combine, spec_le16, spec_le32, spec_le64,
    u16_at, u32_at, u64_at,
};
use crate::types::{
    CodecError, Command, command_from_u16, command_from_wire, command_to_wire, command_u16,
    lemma_command_roundtrip,
};

verus! {

/// The header of an outgoing request.
#[derive(Clone, Debug, PartialEq, Eq)]
pub struct RequestHeader {
    pub credit_charge: u16,
    pub channel_sequence: u16,
    pub command: Command,
    pub credits_requested: u16,
    pub flags: u32,
    pub chain_offset: u32,
    pub message_id: u64,
    pub process_id: u32,
    pub tree_id: u32,
    pub session_id: u64,
    pub signature: Vec<u8>,
}

/// The mathematical value of a [`RequestHeader`].
pub struct RequestHeaderV {
    pub credit_charge: u16,
    pub channel_sequence: u16,
    pub command: Command,
    pub credits_requested: u16,
    pub flags: u32,
    pub chain_offset: u32,
    pub message_id: u64,
    pub process_id: u32,
    pub tree_id: u32,
    pub session_id: u64,
    pub signature: Seq<u8>,
}

impl View for RequestHeader {
    type V = RequestHeaderV;

    open spec fn view(&self) -> RequestHeaderV {
        RequestHeaderV {
            credit_charge: self.credit_charge,
            channel_sequence: self.channel_sequence,
            command: self.command,
            credits_requested: self.credits_requested,
            flags: self.flags,
            chain_offset: self.chain_offset,
            message_id: self.message_id,
            process_id: self.process_id,
            tree_id: self.tree_id,
            session_id: self.session_id,
            signature: self.signature@,
        }
    }
}

/// The header of a received response.
#[derive(Clone, Debug, PartialEq, Eq)]
pub struct ResponseHeader {
    pub credit_charge: u16,
    pub nt_status: u32,
    pub command: Command,
    pub credits_granted: u16,
    pub flags: u32,
    pub chain_offset: u32,
    pub message_id: u64,
    pub process_id: u32,
    pub tree_id: u32,
    pub session_id: u64,
    pub signature: Vec<u8>,
}

/// The mathematical value of a [`ResponseHeader`].
pub struct ResponseHeaderV {
    pub credit_charge: u16,
    pub nt_status: u32,
    pub command: Command,
    pub credits_granted: u16,
    pub flags: u32,
    pub chain_offset: u32,
    pub message_id: u64,
    pub process_id: u32,
    pub tree_id: u32,
    pub session_id: u64,
    pub signature: Seq<u8>,
}

impl View for ResponseHeader {
    type V = ResponseHeaderV;

    open spec fn view(&self) -> ResponseHeaderV {
        ResponseHeaderV {
            credit_charge: self.credit_charge,
            nt_status: self.nt_status,
            command: self.command,
            credits_granted: self.credits_granted,
            flags: self.flags,
            chain_offset: self.chain_offset,
            message_id: self.message_id,
            process_id: self.process_id,
            tree_id: self.tree_id,
            session_id: self.session_id,
            signature: self.signature@,
        }
    }
}

/// A well-formed request header carries a 16-byte signature field.
pub open spec fn wf_request_header(h: RequestHeaderV) -> bool {
    h.signature.len() == 16
}

/// A well-formed response header carries a 16-byte signature field.
pub open spec fn wf_response_header(h: ResponseHeaderV) -> bool {
    h.signature.len() == 16
}

/// The four-byte protocol signature that opens every message.
pub open spec fn spec_protocol_id() -> Seq<u8> {
    seq![0xfeu8, 0x53u8, 0x4du8, 0x42u8]
}

/// The byte layout of a request header: fixed fields in declared order,
/// little-endian, 64 bytes in all.
pub open spec fn spec_enc_request_header(h: RequestHeaderV) -> Seq<u8> {
    spec_protocol_id() + spec_le16(64) + spec_le16(h.credit_charge) + spec_le16(h.channel_sequence)
        + spec_le16(0) + spec_le16(command_u16(h.command)) + spec_le16(h.credits_requested)
        + spec_le32(h.flags) + spec_le32(h.chain_offset) + spec_le64(h.message_id)
        + spec_le32(h.process_id) + spec_le32(h.tree_id) + spec_le64(h.session_id) + h.signature
}

/// The byte layout of a response header: as the request form, with the status
/// code in place of the channel-sequence slot.
pub open spec fn spec_enc_response_header(h: ResponseHeaderV) -> Seq<u8> {
    spec_protocol_id() + spec_le16(64) + spec_le16(h.credit_charge) + spec_le32(h.nt_status)
        + spec_le16(command_u16(h.command)) + spec_le16(h.credits_granted) + spec_le32(h.flags)
        + spec_le32(h.chain_offset) + spec_le64(h.message_id) + spec_le32(h.process_id)
        + spec_le32(h.tree_id) + spec_le64(h.session_id) + h.signature
}

/// The request header denoted by the first 64 bytes of `b`: fails with
/// `Truncated` on fewer than 64 bytes and with `UnknownVariant` on an
/// unassigned command code.
pub open spec fn spec_dec_request_header(b: Seq<u8>) -> Result<RequestHeaderV, CodecError> {
    if b.len() < 64 {
        Err(CodecError::Truncated)
    } else {
        match command_from_u16(u16_at(b, 12)) {
            Option::None => Err(CodecError::UnknownVariant),
            Option::Some(c) => Ok(
                RequestHeaderV {
                    credit_charge: u16_at(b, 6),
                    channel_sequence: u16_at(b, 8),
                    command: c,
                    credits_requested: u16_at(b, 14),
                    flags: u32_at(b, 16),
                    chain_offset: u32_at(b, 20),
                    message_id: u64_at(b, 24),
                    process_id: u32_at(b, 32),
                    tree_id: u32_at(b, 36),
                    session_id: u64_at(b, 40),
                    signature: b.subrange(48, 64),
                },
            ),
        }
    }
}

/// The response header denoted by the first 64 bytes of `b`.
pub open spec fn spec_dec_response_header(b: Seq<u8>) -> Result<ResponseHeaderV, CodecError> {
    if b.len() < 64 {
        Err(CodecError::Truncated)
    } else {
        match command_from_u16(u16_at(b, 12)) {
            Option::None => Err(CodecError::UnknownVariant),
            Option::Some(c) => Ok(
                ResponseHeaderV {
                    credit_charge: u16_at(b, 6),
                    nt_status: u32_at(b, 8),
                    command: c,
                    credits_granted: u16_at(b, 14),
                    flags: u32_at(b, 16),
                    chain_offset: u32_at(b, 20),
                    message_id: u64_at(b, 24),
                    process_id: u32_at(b, 32),
                    tree_id: u32_at(b, 36),
                    session_id: u64_at(b, 40),
                    signature: b.subrange(48, 64),
                },
            ),
        }
    }
}

/// Appends the encoding of a request header.
pub fn encode_request_header(out: &mut Vec<u8>, h: &RequestHeader)
    requires
        wf_request_header(h@),
    ensures
        final(out)@ == old(out)@ + spec_enc_request_header(h@),
{
    put_u8(out, 0xfe);
    put_u8(out, 0x53);
    put_u8(out, 0x4d);
    put_u8(out, 0x42);
    put_u16(out, 64);
    put_u16(out, h.credit_charge);
    put_u16(out, h.channel_sequence);
    put_u16(out, 0);
    put_u16(out, command_to_wire(h.command));
    put_u16(out, h.credits_requested);
    put_u32(out, h.flags);
    put_u32(out, h.chain_offset);
    put_u64(out, h.message_id);
    put_u32(out, h.process_id);
    put_u32(out, h.tree_id);
    put_u64(out, h.session_id);
    put_bytes(out, &h.signature);
    assert(out@ =~= old(out)@ + spec_enc_request_header(h@));
}

/// Appends the encoding of a response header.
pub fn encode_response_header(out: &mut Vec<u8>, h: &ResponseHeader)
    requires
        wf_response_header(h@),
    ensures
        final(out)@ == old(out)@ + spec_enc_response_header(h@),
{
    put_u8(out, 0xfe);
    put_u8(out, 0x53);
    put_u8(out, 0x4d);
    put_u8(out, 0x42);
    put_u16(out, 64);
    put_u16(out, h.credit_charge);
    put_u32(out, h.nt_status);
    put_u16(out, command_to_wire(h.command));
    put_u16(out, h.credits_granted);
    put_u32(out, h.flags);
    put_u32(out, h.chain_offset);
    put_u64(out, h.message_id);
    put_u32(out, h.process_id);
    put_u32(out, h.tree_id);
    put_u64(out, h.session_id);
    put_bytes(out, &h.signature);
    assert(out@ =~= old(out)@ + spec_enc_response_header(h@));
}

/// Decodes the request header at the front of `b`.
pub fn decode_request_header(b: &Vec<u8>) -> (r: Result<RequestHeader, CodecError>)
    ensures
        match r {
            Ok(h) => spec_dec_request_header(b@) == Ok::<RequestHeaderV, CodecError>(h@),
            Err(e) => spec_dec_request_header(b@) == Err::<RequestHeaderV, CodecError>(e),
        },
{
    if b.len() < 64 {
        return Err(CodecError::Truncated);
    }
    let command = match command_from_wire(read_u16(b, 12)) {
        Option::None => {
            return Err(CodecError::UnknownVariant);
        },
        Option::Some(c) => c,
    };
    Ok(
        RequestHeader {
            credit_charge: read_u16(b, 6),
            channel_sequence: read_u16(b, 8),
            command,
            credits_requested: read_u16(b, 14),
            flags: read_u32(b, 16),
            chain_offset: read_u32(b, 20),
            message_id: read_u64(b, 24),
            process_id: read_u32(b, 32),
            tree_id: read_u32(b, 36),
            session_id: read_u64(b, 40),
            signature: read_bytes(b, 48, 16),
        },
    )
}

/// Decodes the response header at the front of `b`.
pub fn decode_response_header(b: &Vec<u8>) -> (r: Result<ResponseHeader, CodecError>)
    ensures
        match r {
            Ok(h) => spec_dec_response_header(b@) == Ok::<ResponseHeaderV, CodecError>(h@),
            Err(e) => spec_dec_response_header(b@) == Err::<ResponseHeaderV, CodecError>(e),
        },
{
    if b.len() < 64 {
        return Err(CodecError::Truncated);
    }
    let command = match command_from_wire(read_u16(b, 12)) {
        Option::None => {
            return Err(CodecError::UnknownVariant);
        },
        Option::Some(c) => c,
    };
    Ok(
        ResponseHeader {
            credit_charge: read_u16(b, 6),
            nt_status: read_u32(b, 8),
            command,
            credits_granted: read_u16(b, 14),
            flags: read_u32(b, 16),
            chain_offset: read_u32(b, 20),
            message_id: read_u64(b, 24),
            process_id: read_u32(b, 32),
            tree_id: read_u32(b, 36),
            session_id: read_u64(b, 40),
            signature: read_bytes(b, 48, 16),
        },
    )
}

/// Decoding an encoded request header yields the header back.
pub proof fn lemma_request_header_roundtrip(h: RequestHeaderV)
    requires
        wf_request_header(h),
    ensures
        spec_dec_request_header(spec_enc_request_header(h)) == Ok::<
            RequestHeaderV,
            CodecError,
        >(h),
{
    broadcast use lemma_le16_combine;
    broadcast use lemma_le32_combine;
    broadcast use lemma_le64_combine;
    broadcast use lemma_command_roundtrip;

    let b = spec_enc_request_header(h);
    assert(b.len() == 64);
    assert(u16_at(b, 12) == command_u16(h.command));
    assert(u16_at(b, 6) == h.credit_charge);
    assert(u16_at(b, 8) == h.channel_sequence);
    assert(u16_at(b, 14) == h.credits_requested);
    assert(u32_at(b, 16) == h.flags);
    assert(u32_at(b, 20) == h.chain_offset);
    assert(u64_at(b, 24) == h.message_id);
    assert(u32_at(b, 32) == h.process_id);
    assert(u32_at(b, 36) == h.tree_id);
    assert(u64_at(b, 40) == h.session_id);
    assert(b.subrange(48, 64) =~= h.signature);
}

/// Decoding an encoded response header yields the header back.
pub proof fn lemma_response_header_roundtrip(h: ResponseHeaderV)
    requires
        wf_response_header(h),
    ensures
        spec_dec_response_header(spec_enc_response_header(h)) == Ok::<
            ResponseHeaderV,
            CodecError,
        >(h),
{
    broadcast use lemma_le16_combine;
    broadcast use lemma_le32_combine;
    broadcast use lemma_le64_combine;
    broadcast use lemma_command_roundtrip;

    let b = spec_enc_response_header(h);
    assert(b.len() == 64);
    assert(u16_at(b, 12) == command_u16(h.command));
    assert(u16_at(b, 6) == h.credit_charge);
    assert(u32_at(b, 8) == h.nt_status);
    assert(u16_at(b, 14) == h.credits_granted);
    assert(u32_at(b, 16) == h.flags);
    assert(u32_at(b, 20) == h.chain_offset);
    assert(u64_at(b, 24) == h.message_id);
    assert(u32_at(b, 32) == h.process_id);
    assert(u32_at(b, 36) == h.tree_id);
    assert(u64_at(b, 40) == h.session_id);
    assert(b.subrange(48, 64) =~= h.signature);
}

} // verus!
