//! Read, write, close and flush: the data-plane messages over an open
//! handle. Read and write carry their data offset-addressed; close and flush
//! are fixed-size.

use vstd::prelude::*;
use crate::bytes::{
    lemma_le16_combine, lemma_le32_combine, lemma_le64_combine, put_bytes, put_u16, put_u32,
    put_u64, put_u8, read_bytes, read_u16, read_u32, read_u64, read_u8, spec_le16, spec_le32,
    spec_le64, u16_at, u32_at, u64_at,
};
use crate::types::{CodecError, FileId, wf_file_id};

verus! {

/// A read request: a byte range of an open handle.
#[derive(Clone, Debug, PartialEq, Eq)]
pub struct ReadRequest {
    pub padding: u8,
    pub flags: u8,
    pub length: u32,
    pub offset: u64,
    pub file_id: FileId,
    pub minimum_bytes: u32,
    pub channel: u32,
    pub remaining_bytes: u32,
    pub channel_data: Vec<u8>,
}

/// The mathematical value of a [`ReadRequest`].
pub struct ReadRequestV {
    pub padding: u8,
    pub flags: u8,
    pub length: u32,
    pub offset: u64,
    pub file_id: Seq<u8>,
    pub minimum_bytes: u32,
    pub channel: u32,
    pub remaining_bytes: u32,
    pub channel_data: Seq<u8>,
}

impl View for ReadRequest {
    type V = ReadRequestV;

    open spec fn view(&self) -> ReadRequestV {
        ReadRequestV {
            padding: self.padding,
            flags: self.flags,
            length: self.length,
            offset: self.offset,
            file_id: self.file_id@,
            minimum_bytes: self.minimum_bytes,
            channel: self.channel,
            remaining_bytes: self.remaining_bytes,
            channel_data: self.channel_data@,
        }
    }
}

/// A representable read request.
pub open spec fn wf_read_request(m: ReadRequestV) -> bool {
    &&& wf_file_id(m.file_id)
    &&& m.channel_data.len() <= 0xffff
}

/// The byte layout of a read request body: fixed fields, then the channel
/// information at absolute offset 112.
pub open spec fn spec_enc_read_request(m: ReadRequestV) -> Seq<u8> {
    spec_le16(49) + seq![m.padding, m.flags] + spec_le32(m.length) + spec_le64(m.offset)
        + m.file_id + spec_le32(m.minimum_bytes) + spec_le32(m.channel) + spec_le32(
        m.remaining_bytes,
    ) + spec_le16(112) + spec_le16(m.channel_data.len() as u16) + m.channel_data
}

/// The read request denoted by the frame `b`.
pub open spec fn spec_dec_read_request(b: Seq<u8>) -> Result<ReadRequestV, CodecError> {
    if b.len() < 112 {
        Err(CodecError::Truncated)
    } else {
        let co = u16_at(b, 108) as int;
        let cl = u16_at(b, 110) as int;
        if co + cl > b.len() {
            Err(CodecError::Truncated)
        } else {
            Ok(
                ReadRequestV {
                    padding: b[66],
                    flags: b[67],
                    length: u32_at(b, 68),
                    offset: u64_at(b, 72),
                    file_id: b.subrange(80, 96),
                    minimum_bytes: u32_at(b, 96),
                    channel: u32_at(b, 100),
                    remaining_bytes: u32_at(b, 104),
                    channel_data: b.subrange(co, co + cl),
                },
            )
        }
    }
}

/// Appends the encoding of a read request body.
pub fn encode_read_request(out: &mut Vec<u8>, m: &ReadRequest)
    requires
        wf_read_request(m@),
    ensures
        final(out)@ == old(out)@ + spec_enc_read_request(m@),
{
    put_u16(out, 49);
    put_u8(out, m.padding);
    put_u8(out, m.flags);
    put_u32(out, m.length);
    put_u64(out, m.offset);
    put_bytes(out, &m.file_id.0);
    put_u32(out, m.minimum_bytes);
    put_u32(out, m.channel);
    put_u32(out, m.remaining_bytes);
    put_u16(out, 112);
    put_u16(out, m.channel_data.len() as u16);
    put_bytes(out, &m.channel_data);
    assert(out@ =~= old(out)@ + spec_enc_read_request(m@));
}

/// Decodes the read request carried by the frame `b`.
pub fn decode_read_request(b: &Vec<u8>) -> (r: Result<ReadRequest, CodecError>)
    ensures
        match r {
            Ok(m) => spec_dec_read_request(b@) == Ok::<ReadRequestV, CodecError>(m@),
            Err(e) => spec_dec_read_request(b@) == Err::<ReadRequestV, CodecError>(e),
        },
{
    if b.len() < 112 {
        return Err(CodecError::Truncated);
    }
    let co = read_u16(b, 108);
    let cl = read_u16(b, 110);
    if co as usize > b.len() || (b.len() - co as usize) < (cl as usize) {
        return Err(CodecError::Truncated);
    }
    Ok(
        ReadRequest {
            padding: read_u8(b, 66),
            flags: read_u8(b, 67),
            length: read_u32(b, 68),
            offset: read_u64(b, 72),
            file_id: FileId(read_bytes(b, 80, 16)),
            minimum_bytes: read_u32(b, 96),
            channel: read_u32(b, 100),
            remaining_bytes: read_u32(b, 104),
            channel_data: read_bytes(b, co as usize, cl as usize),
        },
    )
}

/// Decoding an encoded read request, behind any 64-byte header, yields the
/// request back.
pub proof fn lemma_read_request_roundtrip(hdr: Seq<u8>, m: ReadRequestV)
    requires
        hdr.len() == 64,
        wf_read_request(m),
    ensures
        spec_dec_read_request(hdr + spec_enc_read_request(m)) == Ok::<ReadRequestV, CodecError>(m),
{
    broadcast use lemma_le16_combine;
    broadcast use lemma_le32_combine;
    broadcast use lemma_le64_combine;

    let body = spec_enc_read_request(m);
    let b = hdr + body;
    let cl = m.channel_data.len() as int;
    assert(b[66] == m.padding);
    assert(b[67] == m.flags);
    assert(u32_at(b, 68) == m.length);
    assert(u64_at(b, 72) == m.offset);
    assert(b.subrange(80, 96) =~= m.file_id);
    assert(u32_at(b, 96) == m.minimum_bytes);
    assert(u32_at(b, 100) == m.channel);
    assert(u32_at(b, 104) == m.remaining_bytes);
    assert(u16_at(b, 108) == 112);
    assert(u16_at(b, 110) == m.channel_data.len() as u16);
    assert(m.channel_data.len() as u16 as int == cl);
    assert(b.subrange(112, 112 + cl) =~= m.channel_data);
}

/// A read response: the data, offset-addressed.
#[derive(Clone, Debug, PartialEq, Eq)]
pub struct ReadResponse {
    pub data_remaining: u32,
    pub data: Vec<u8>,
}

/// The mathematical value of a [`ReadResponse`].
pub struct ReadResponseV {
    pub data_remaining: u32,
    pub data: Seq<u8>,
}

impl View for ReadResponse {
    type V = ReadResponseV;

    open spec fn view(&self) -> ReadResponseV {
        ReadResponseV { data_remaining: self.data_remaining, data: self.data@ }
    }
}

/// A representable read response: its data length fits the 32-bit field.
pub open spec fn wf_read_response(m: ReadResponseV) -> bool {
    m.data.len() <= 0xffff_ffff
}

/// The byte layout of a read response body: fixed fields, then the data at
/// absolute offset 80.
pub open spec fn spec_enc_read_response(m: ReadResponseV) -> Seq<u8> {
    spec_le16(17) + seq![80u8, 0u8] + spec_le32(m.data.len() as u32) + spec_le32(m.data_remaining)
        + spec_le32(0) + m.data
}

/// The read response denoted by the frame `b`.
pub open spec fn spec_dec_read_response(b: Seq<u8>) -> Result<ReadResponseV, CodecError> {
    if b.len() < 80 {
        Err(CodecError::Truncated)
    } else {
        let data_offset = b[66] as int;
        let dl = u32_at(b, 68) as int;
        if data_offset + dl > b.len() {
            Err(CodecError::Truncated)
        } else {
            Ok(
                ReadResponseV {
                    data_remaining: u32_at(b, 72),
                    data: b.subrange(data_offset, data_offset + dl),
                },
            )
        }
    }
}

/// Appends the encoding of a read response body.
pub fn encode_read_response(out: &mut Vec<u8>, m: &ReadResponse)
    requires
        wf_read_response(m@),
    ensures
        final(out)@ == old(out)@ + spec_enc_read_response(m@),
{
    put_u16(out, 17);
    put_u8(out, 80);
    put_u8(out, 0);
    put_u32(out, m.data.len() as u32);
    put_u32(out, m.data_remaining);
    put_u32(out, 0);
    put_bytes(out, &m.data);
    assert(out@ =~= old(out)@ + spec_enc_read_response(m@));
}

/// Decodes the read response carried by the frame `b`.
pub fn decode_read_response(b: &Vec<u8>) -> (r: Result<ReadResponse, CodecError>)
    ensures
        match r {
            Ok(m) => spec_dec_read_response(b@) == Ok::<ReadResponseV, CodecError>(m@),
            Err(e) => spec_dec_read_response(b@) == Err::<ReadResponseV, CodecError>(e),
        },
{
    if b.len() < 80 {
        return Err(CodecError::Truncated);
    }
    let data_offset = read_u8(b, 66);
    let dl = read_u32(b, 68);
    if data_offset as usize > b.len() || (b.len() - data_offset as usize) < (dl as usize) {
        return Err(CodecError::Truncated);
    }
    Ok(
        ReadResponse {
            data_remaining: read_u32(b, 72),
            data: read_bytes(b, data_offset as usize, dl as usize),
        },
    )
}

/// Decoding an encoded read response, behind any 64-byte header, yields the
/// response back.
pub proof fn lemma_read_response_roundtrip(hdr: Seq<u8>, m: ReadResponseV)
    requires
        hdr.len() == 64,
        wf_read_response(m),
    ensures
        spec_dec_read_response(hdr + spec_enc_read_response(m)) == Ok::<
            ReadResponseV,
            CodecError,
        >(m),
{
    broadcast use lemma_le16_combine;
    broadcast use lemma_le32_combine;

    let body = spec_enc_read_response(m);
    let b = hdr + body;
    let dl = m.data.len() as int;
    assert(b[66] == 80u8);
    assert(u32_at(b, 68) == m.data.len() as u32);
    assert(m.data.len() as u32 as int == dl);
    assert(u32_at(b, 72) == m.data_remaining);
    assert(b.subrange(80, 80 + dl) =~= m.data);
}

/// A write request: data for a byte range of an open handle.
#[derive(Clone, Debug, PartialEq, Eq)]
pub struct WriteRequest {
    pub offset: u64,
    pub file_id: FileId,
    pub channel: u32,
    pub remaining_bytes: u32,
    pub flags: u32,
    pub data: Vec<u8>,
}

/// The mathematical value of a [`WriteRequest`].
pub struct WriteRequestV {
    pub offset: u64,
    pub file_id: Seq<u8>,
    pub channel: u32,
    pub remaining_bytes: u32,
    pub flags: u32,
    pub data: Seq<u8>,
}

impl View for WriteRequest {
    type V = WriteRequestV;

    open spec fn view(&self) -> WriteRequestV {
        WriteRequestV {
            offset: self.offset,
            file_id: self.file_id@,
            channel: self.channel,
            remaining_bytes: self.remaining_bytes,
            flags: self.flags,
            data: self.data@,
        }
    }
}

/// A representable write request: its data length fits the 32-bit field.
pub open spec fn wf_write_request(m: WriteRequestV) -> bool {
    &&& wf_file_id(m.file_id)
    &&& m.data.len() <= 0xffff_ffff
}

/// The byte layout of a write request body: fixed fields, then the data at
/// absolute offset 112.
pub open spec fn spec_enc_write_request(m: WriteRequestV) -> Seq<u8> {
    spec_le16(49) + spec_le16(112) + spec_le32(m.data.len() as u32) + spec_le64(m.offset)
        + m.file_id + spec_le32(m.channel) + spec_le32(m.remaining_bytes) + spec_le16(0)
        + spec_le16(0) + spec_le32(m.flags) + m.data
}

/// The write request denoted by the frame `b`.
pub open spec fn spec_dec_write_request(b: Seq<u8>) -> Result<WriteRequestV, CodecError> {
    if b.len() < 112 {
        Err(CodecError::Truncated)
    } else {
        let data_offset = u16_at(b, 66) as int;
        let dl = u32_at(b, 68) as int;
        if data_offset + dl > b.len() {
            Err(CodecError::Truncated)
        } else {
            Ok(
                WriteRequestV {
                    offset: u64_at(b, 72),
                    file_id: b.subrange(80, 96),
                    channel: u32_at(b, 96),
                    remaining_bytes: u32_at(b, 100),
                    flags: u32_at(b, 108),
                    data: b.subrange(data_offset, data_offset + dl),
                },
            )
        }
    }
}

/// Appends the encoding of a write request body.
pub fn encode_write_request(out: &mut Vec<u8>, m: &WriteRequest)
    requires
        wf_write_request(m@),
    ensures
        final(out)@ == old(out)@ + spec_enc_write_request(m@),
{
    put_u16(out, 49);
    put_u16(out, 112);
    put_u32(out, m.data.len() as u32);
    put_u64(out, m.offset);
    put_bytes(out, &m.file_id.0);
    put_u32(out, m.channel);
    put_u32(out, m.remaining_bytes);
    put_u16(out, 0);
    put_u16(out, 0);
    put_u32(out, m.flags);
    put_bytes(out, &m.data);
    assert(out@ =~= old(out)@ + spec_enc_write_request(m@));
}

/// Decodes the write request carried by the frame `b`.
pub fn decode_write_request(b: &Vec<u8>) -> (r: Result<WriteRequest, CodecError>)
    ensures
        match r {
            Ok(m) => spec_dec_write_request(b@) == Ok::<WriteRequestV, CodecError>(m@),
            Err(e) => spec_dec_write_request(b@) == Err::<WriteRequestV, CodecError>(e),
        },
{
    if b.len() < 112 {
        return Err(CodecError::Truncated);
    }
    let data_offset = read_u16(b, 66);
    let dl = read_u32(b, 68);
    if data_offset as usize > b.len() || (b.len() - data_offset as usize) < (dl as usize) {
        return Err(CodecError::Truncated);
    }
    Ok(
        WriteRequest {
            offset: read_u64(b, 72),
            file_id: FileId(read_bytes(b, 80, 16)),
            channel: read_u32(b, 96),
            remaining_bytes: read_u32(b, 100),
            flags: read_u32(b, 108),
            data: read_bytes(b, data_offset as usize, dl as usize),
        },
    )
}

/// Decoding an encoded write request, behind any 64-byte header, yields the
/// request back.
pub proof fn lemma_write_request_roundtrip(hdr: Seq<u8>, m: WriteRequestV)
    requires
        hdr.len() == 64,
        wf_write_request(m),
    ensures
        spec_dec_write_request(hdr + spec_enc_write_request(m)) == Ok::<
            WriteRequestV,
            CodecError,
        >(m),
{
    broadcast use lemma_le16_combine;
    broadcast use lemma_le32_combine;
    broadcast use lemma_le64_combine;

    let body = spec_enc_write_request(m);
    let b = hdr + body;
    let dl = m.data.len() as int;
    assert(u16_at(b, 66) == 112);
    assert(u32_at(b, 68) == m.data.len() as u32);
    assert(m.data.len() as u32 as int == dl);
    assert(u64_at(b, 72) == m.offset);
    assert(b.subrange(80, 96) =~= m.file_id);
    assert(u32_at(b, 96) == m.channel);
    assert(u32_at(b, 100) == m.remaining_bytes);
    assert(u32_at(b, 108) == m.flags);
    assert(b.subrange(112, 112 + dl) =~= m.data);
}

/// A write response: how much was written.
#[derive(Clone, Copy, Debug, PartialEq, Eq)]
pub struct WriteResponse {
    pub count: u32,
    pub remaining: u32,
}

impl View for WriteResponse {
    type V = WriteResponse;

    open spec fn view(&self) -> WriteResponse {
        *self
    }
}

/// The byte layout of a write response body.
pub open spec fn spec_enc_write_response(m: WriteResponse) -> Seq<u8> {
    spec_le16(17) + spec_le16(0) + spec_le32(m.count) + spec_le32(m.remaining) + spec_le16(0)
        + spec_le16(0)
}

/// The write response denoted by the frame `b`.
pub open spec fn spec_dec_write_response(b: Seq<u8>) -> Result<WriteResponse, CodecError> {
    if b.len() < 80 {
        Err(CodecError::Truncated)
    } else {
        Ok(WriteResponse { count: u32_at(b, 68), remaining: u32_at(b, 72) })
    }
}

/// Appends the encoding of a write response body.
pub fn encode_write_response(out: &mut Vec<u8>, m: &WriteResponse)
    ensures
        final(out)@ == old(out)@ + spec_enc_write_response(*m),
{
    put_u16(out, 17);
    put_u16(out, 0);
    put_u32(out, m.count);
    put_u32(out, m.remaining);
    put_u16(out, 0);
    put_u16(out, 0);
    assert(out@ =~= old(out)@ + spec_enc_write_response(*m));
}

/// Decodes the write response carried by the frame `b`.
pub fn decode_write_response(b: &Vec<u8>) -> (r: Result<WriteResponse, CodecError>)
    ensures
        match r {
            Ok(m) => spec_dec_write_response(b@) == Ok::<WriteResponse, CodecError>(m),
            Err(e) => spec_dec_write_response(b@) == Err::<WriteResponse, CodecError>(e),
        },
{
    if b.len() < 80 {
        return Err(CodecError::Truncated);
    }
    Ok(WriteResponse { count: read_u32(b, 68), remaining: read_u32(b, 72) })
}

/// Decoding an encoded write response, behind any 64-byte header, yields the
/// response back.
pub proof fn lemma_write_response_roundtrip(hdr: Seq<u8>, m: WriteResponse)
    requires
        hdr.len() == 64,
    ensures
        spec_dec_write_response(hdr + spec_enc_write_response(m)) == Ok::<
            WriteResponse,
            CodecError,
        >(m),
{
    broadcast use lemma_le16_combine;
    broadcast use lemma_le32_combine;

    let body = spec_enc_write_response(m);
    let b = hdr + body;
    assert(b.len() == 80);
    assert(u32_at(b, 68) == m.count);
    assert(u32_at(b, 72) == m.remaining);
}

/// A close request: gives an open handle back.
#[derive(Clone, Debug, PartialEq, Eq)]
pub struct CloseRequest {
    pub flags: u16,
    pub file_id: FileId,
}

/// The mathematical value of a [`CloseRequest`].
pub struct CloseRequestV {
    pub flags: u16,
    pub file_id: Seq<u8>,
}

impl View for CloseRequest {
    type V = CloseRequestV;

    open spec fn view(&self) -> CloseRequestV {
        CloseRequestV { flags: self.flags, file_id: self.file_id@ }
    }
}

/// A representable close request.
pub open spec fn wf_close_request(m: CloseRequestV) -> bool {
    wf_file_id(m.file_id)
}

/// The byte layout of a close request body.
pub open spec fn spec_enc_close_request(m: CloseRequestV) -> Seq<u8> {
    spec_le16(24) + spec_le16(m.flags) + spec_le32(0) + m.file_id
}

/// The close request denoted by the frame `b`.
pub open spec fn spec_dec_close_request(b: Seq<u8>) -> Result<CloseRequestV, CodecError> {
    if b.len() < 88 {
        Err(CodecError::Truncated)
    } else {
        Ok(CloseRequestV { flags: u16_at(b, 66), file_id: b.subrange(72, 88) })
    }
}

/// Appends the encoding of a close request body.
pub fn encode_close_request(out: &mut Vec<u8>, m: &CloseRequest)
    requires
        wf_close_request(m@),
    ensures
        final(out)@ == old(out)@ + spec_enc_close_request(m@),
{
    put_u16(out, 24);
    put_u16(out, m.flags);
    put_u32(out, 0);
    put_bytes(out, &m.file_id.0);
    assert(out@ =~= old(out)@ + spec_enc_close_request(m@));
}

/// Decodes the close request carried by the frame `b`.
pub fn decode_close_request(b: &Vec<u8>) -> (r: Result<CloseRequest, CodecError>)
    ensures
        match r {
            Ok(m) => spec_dec_close_request(b@) == Ok::<CloseRequestV, CodecError>(m@),
            Err(e) => spec_dec_close_request(b@) == Err::<CloseRequestV, CodecError>(e),
        },
{
    if b.len() < 88 {
        return Err(CodecError::Truncated);
    }
    Ok(CloseRequest { flags: read_u16(b, 66), file_id: FileId(read_bytes(b, 72, 16)) })
}

/// Decoding an encoded close request, behind any 64-byte header, yields the
/// request back.
pub proof fn lemma_close_request_roundtrip(hdr: Seq<u8>, m: CloseRequestV)
    requires
        hdr.len() == 64,
        wf_close_request(m),
    ensures
        spec_dec_close_request(hdr + spec_enc_close_request(m)) == Ok::<
            CloseRequestV,
            CodecError,
        >(m),
{
    broadcast use lemma_le16_combine;

    let body = spec_enc_close_request(m);
    let b = hdr + body;
    assert(u16_at(b, 66) == m.flags);
    assert(b.subrange(72, 88) =~= m.file_id);
}

/// A close response: the closed file's final metadata.
#[derive(Clone, Debug, PartialEq, Eq)]
pub struct CloseResponse {
    pub flags: u16,
    pub creation_time: Vec<u8>,
    pub last_access_time: Vec<u8>,
    pub last_write_time: Vec<u8>,
    pub change_time: Vec<u8>,
    pub allocation_size: u64,
    pub end_of_file: u64,
    pub file_attributes: u32,
}

/// The mathematical value of a [`CloseResponse`].
pub struct CloseResponseV {
    pub flags: u16,
    pub creation_time: Seq<u8>,
    pub last_access_time: Seq<u8>,
    pub last_write_time: Seq<u8>,
    pub change_time: Seq<u8>,
    pub allocation_size: u64,
    pub end_of_file: u64,
    pub file_attributes: u32,
}

impl View for CloseResponse {
    type V = CloseResponseV;

    open spec fn view(&self) -> CloseResponseV {
        CloseResponseV {
            flags: self.flags,
            creation_time: self.creation_time@,
            last_access_time: self.last_access_time@,
            last_write_time: self.last_write_time@,
            change_time: self.change_time@,
            allocation_size: self.allocation_size,
            end_of_file: self.end_of_file,
            file_attributes: self.file_attributes,
        }
    }
}

/// A representable close response: raw timestamps are eight bytes.
pub open spec fn wf_close_response(m: CloseResponseV) -> bool {
    &&& m.creation_time.len() == 8
    &&& m.last_access_time.len() == 8
    &&& m.last_write_time.len() == 8
    &&& m.change_time.len() == 8
}

/// The byte layout of a close response body.
pub open spec fn spec_enc_close_response(m: CloseResponseV) -> Seq<u8> {
    spec_le16(60) + spec_le16(m.flags) + spec_le32(0) + m.creation_time + m.last_access_time
        + m.last_write_time + m.change_time + spec_le64(m.allocation_size) + spec_le64(
        m.end_of_file,
    ) + spec_le32(m.file_attributes)
}

/// The close response denoted by the frame `b`.
pub open spec fn spec_dec_close_response(b: Seq<u8>) -> Result<CloseResponseV, CodecError> {
    if b.len() < 124 {
        Err(CodecError::Truncated)
    } else {
        Ok(
            CloseResponseV {
                flags: u16_at(b, 66),
                creation_time: b.subrange(72, 80),
                last_access_time: b.subrange(80, 88),
                last_write_time: b.subrange(88, 96),
                change_time: b.subrange(96, 104),
                allocation_size: u64_at(b, 104),
                end_of_file: u64_at(b, 112),
                file_attributes: u32_at(b, 120),
            },
        )
    }
}

/// Appends the encoding of a close response body.
pub fn encode_close_response(out: &mut Vec<u8>, m: &CloseResponse)
    requires
        wf_close_response(m@),
    ensures
        final(out)@ == old(out)@ + spec_enc_close_response(m@),
{
    put_u16(out, 60);
    put_u16(out, m.flags);
    put_u32(out, 0);
    put_bytes(out, &m.creation_time);
    put_bytes(out, &m.last_access_time);
    put_bytes(out, &m.last_write_time);
    put_bytes(out, &m.change_time);
    put_u64(out, m.allocation_size);
    put_u64(out, m.end_of_file);
    put_u32(out, m.file_attributes);
    assert(out@ =~= old(out)@ + spec_enc_close_response(m@));
}

/// Decodes the close response carried by the frame `b`.
pub fn decode_close_response(b: &Vec<u8>) -> (r: Result<CloseResponse, CodecError>)
    ensures
        match r {
            Ok(m) => spec_dec_close_response(b@) == Ok::<CloseResponseV, CodecError>(m@),
            Err(e) => spec_dec_close_response(b@) == Err::<CloseResponseV, CodecError>(e),
        },
{
    if b.len() < 124 {
        return Err(CodecError::Truncated);
    }
    Ok(
        CloseResponse {
            flags: read_u16(b, 66),
            creation_time: read_bytes(b, 72, 8),
            last_access_time: read_bytes(b, 80, 8),
            last_write_time: read_bytes(b, 88, 8),
            change_time: read_bytes(b, 96, 8),
            allocation_size: read_u64(b, 104),
            end_of_file: read_u64(b, 112),
            file_attributes: read_u32(b, 120),
        },
    )
}

/// Decoding an encoded close response, behind any 64-byte header, yields the
/// response back.
pub proof fn lemma_close_response_roundtrip(hdr: Seq<u8>, m: CloseResponseV)
    requires
        hdr.len() == 64,
        wf_close_response(m),
    ensures
        spec_dec_close_response(hdr + spec_enc_close_response(m)) == Ok::<
            CloseResponseV,
            CodecError,
        >(m),
{
    broadcast use lemma_le16_combine;
    broadcast use lemma_le32_combine;
    broadcast use lemma_le64_combine;

    let body = spec_enc_close_response(m);
    let b = hdr + body;
    assert(u16_at(b, 66) == m.flags);
    assert(b.subrange(72, 80) =~= m.creation_time);
    assert(b.subrange(80, 88) =~= m.last_access_time);
    assert(b.subrange(88, 96) =~= m.last_write_time);
    assert(b.subrange(96, 104) =~= m.change_time);
    assert(u64_at(b, 104) == m.allocation_size);
    assert(u64_at(b, 112) == m.end_of_file);
    assert(u32_at(b, 120) == m.file_attributes);
}

/// A flush request: asks the peer to persist an open handle's state.
#[derive(Clone, Debug, PartialEq, Eq)]
pub struct FlushRequest {
    pub file_id: FileId,
}

/// The mathematical value of a [`FlushRequest`].
pub struct FlushRequestV {
    pub file_id: Seq<u8>,
}

impl View for FlushRequest {
    type V = FlushRequestV;

    open spec fn view(&self) -> FlushRequestV {
        FlushRequestV { file_id: self.file_id@ }
    }
}

/// A representable flush request.
pub open spec fn wf_flush_request(m: FlushRequestV) -> bool {
    wf_file_id(m.file_id)
}

/// The byte layout of a flush request body.
pub open spec fn spec_enc_flush_request(m: FlushRequestV) -> Seq<u8> {
    spec_le16(24) + spec_le16(0) + spec_le32(0) + m.file_id
}

/// The flush request denoted by the frame `b`.
pub open spec fn spec_dec_flush_request(b: Seq<u8>) -> Result<FlushRequestV, CodecError> {
    if b.len() < 88 {
        Err(CodecError::Truncated)
    } else {
        Ok(FlushRequestV { file_id: b.subrange(72, 88) })
    }
}

/// Appends the encoding of a flush request body.
pub fn encode_flush_request(out: &mut Vec<u8>, m: &FlushRequest)
    requires
        wf_flush_request(m@),
    ensures
        final(out)@ == old(out)@ + spec_enc_flush_request(m@),
{
    put_u16(out, 24);
    put_u16(out, 0);
    put_u32(out, 0);
    put_bytes(out, &m.file_id.0);
    assert(out@ =~= old(out)@ + spec_enc_flush_request(m@));
}

/// Decodes the flush request carried by the frame `b`.
pub fn decode_flush_request(b: &Vec<u8>) -> (r: Result<FlushRequest, CodecError>)
    ensures
        match r {
            Ok(m) => spec_dec_flush_request(b@) == Ok::<FlushRequestV, CodecError>(m@),
            Err(e) => spec_dec_flush_request(b@) == Err::<FlushRequestV, CodecError>(e),
        },
{
    if b.len() < 88 {
        return Err(CodecError::Truncated);
    }
    Ok(FlushRequest { file_id: FileId(read_bytes(b, 72, 16)) })
}

/// Decoding an encoded flush request, behind any 64-byte header, yields the
/// request back.
pub proof fn lemma_flush_request_roundtrip(hdr: Seq<u8>, m: FlushRequestV)
    requires
        hdr.len() == 64,
        wf_flush_request(m),
    ensures
        spec_dec_flush_request(hdr + spec_enc_flush_request(m)) == Ok::<
            FlushRequestV,
            CodecError,
        >(m),
{
    let body = spec_enc_flush_request(m);
    let b = hdr + body;
    assert(b.subrange(72, 88) =~= m.file_id);
}

/// A flush response: an acknowledgement with no content.
#[derive(Clone, Copy, Debug, PartialEq, Eq, Structural)]
pub struct FlushResponse {}

impl View for FlushResponse {
    type V = FlushResponse;

    open spec fn view(&self) -> FlushResponse {
        *self
    }
}

/// The byte layout of a flush response body.
pub open spec fn spec_enc_flush_response(m: FlushResponse) -> Seq<u8> {
    spec_le16(4) + spec_le16(0)
}

/// The flush response denoted by the frame `b`.
pub open spec fn spec_dec_flush_response(b: Seq<u8>) -> Result<FlushResponse, CodecError> {
    if b.len() < 68 {
        Err(CodecError::Truncated)
    } else {
        Ok(FlushResponse {  })
    }
}

/// Appends the encoding of a flush response body.
pub fn encode_flush_response(out: &mut Vec<u8>, m: &FlushResponse)
    ensures
        final(out)@ == old(out)@ + spec_enc_flush_response(*m),
{
    put_u16(out, 4);
    put_u16(out, 0);
    assert(out@ =~= old(out)@ + spec_enc_flush_response(*m));
}

/// Decodes the flush response carried by the frame `b`.
pub fn decode_flush_response(b: &Vec<u8>) -> (r: Result<FlushResponse, CodecError>)
    ensures
        match r {
            Ok(m) => spec_dec_flush_response(b@) == Ok::<FlushResponse, CodecError>(m),
            Err(e) => spec_dec_flush_response(b@) == Err::<FlushResponse, CodecError>(e),
        },
{
    if b.len() < 68 {
        return Err(CodecError::Truncated);
    }
    Ok(FlushResponse {  })
}

/// Decoding an encoded flush response, behind any 64-byte header, yields the
/// response back.
pub proof fn lemma_flush_response_roundtrip(hdr: Seq<u8>, m: FlushResponse)
    requires
        hdr.len() == 64,
    ensures
        spec_dec_flush_response(hdr + spec_enc_flush_response(m)) == Ok::<
            FlushResponse,
            CodecError,
        >(m),
{
}

} // verus!
