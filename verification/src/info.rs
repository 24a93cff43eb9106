//! Query-info and set-info: parametrized envelopes that carry an explicit
//! information-class discriminant alongside a raw payload, plus the two
//! concrete payload schemas the client writes (rename, resize).

use vstd::prelude::*;
use crate::bytes::{
    lemma_le16_combine, lemma_le32_combine, lemma_le64_combine, put_bytes, put_u16, put_u32,
    put_u64, put_u8, put_zeros, read_bytes, read_u16, read_u32, read_u64, read_u8, spec_le16,
    spec_le32, spec_le64, u16_at, u32_at, u64_at, zeros,
};
use crate::lists::{
    decode_utf16_into, encode_utf16_from, lemma_enc_utf16_len, lemma_utf16_roundtrip,
    spec_dec_utf16, spec_enc_utf16,
};
use crate::types::{CodecError, FileId, wf_file_id};

verus! {

/// A query-info request: asks for a typed metadata payload of an open
/// handle, selected by info type and information class.
#[derive(Clone, Debug, PartialEq, Eq)]
pub struct QueryInfoRequest {
    pub info_type: u8,
    pub file_info_class: u8,
    pub output_buffer_length: u32,
    pub additional_information: u32,
    pub flags: u32,
    pub file_id: FileId,
    pub buffer: Vec<u8>,
}

/// The mathematical value of a [`QueryInfoRequest`].
pub struct QueryInfoRequestV {
    pub info_type: u8,
    pub file_info_class: u8,
    pub output_buffer_length: u32,
    pub additional_information: u32,
    pub flags: u32,
    pub file_id: Seq<u8>,
    pub buffer: Seq<u8>,
}

impl View for QueryInfoRequest {
    type V = QueryInfoRequestV;

    open spec fn view(&self) -> QueryInfoRequestV {
        QueryInfoRequestV {
            info_type: self.info_type,
            file_info_class: self.file_info_class,
            output_buffer_length: self.output_buffer_length,
            additional_information: self.additional_information,
            flags: self.flags,
            file_id: self.file_id@,
            buffer: self.buffer@,
        }
    }
}

/// A representable query-info request.
pub open spec fn wf_query_info_request(m: QueryInfoRequestV) -> bool {
    &&& wf_file_id(m.file_id)
    &&& m.buffer.len() <= 0xffff_ffff
}

/// The byte layout of a query-info request body: fixed fields, then the
/// input buffer, if any, at absolute offset 104.
pub open spec fn spec_enc_query_info_request(m: QueryInfoRequestV) -> Seq<u8> {
    spec_le16(41) + seq![m.info_type, m.file_info_class] + spec_le32(m.output_buffer_length)
        + spec_le16(
        if m.buffer.len() == 0 {
            0
        } else {
            104
        },
    ) + spec_le16(0) + spec_le32(m.buffer.len() as u32) + spec_le32(m.additional_information)
        + spec_le32(m.flags) + m.file_id + m.buffer
}

/// The query-info request denoted by the frame `b`.
pub open spec fn spec_dec_query_info_request(b: Seq<u8>) -> Result<QueryInfoRequestV, CodecError> {
    if b.len() < 104 {
        Err(CodecError::Truncated)
    } else {
        let io = u16_at(b, 72) as int;
        let il = u32_at(b, 76) as int;
        if il != 0 && io + il > b.len() {
            Err(CodecError::Truncated)
        } else {
            Ok(
                QueryInfoRequestV {
                    info_type: b[66],
                    file_info_class: b[67],
                    output_buffer_length: u32_at(b, 68),
                    additional_information: u32_at(b, 80),
                    flags: u32_at(b, 84),
                    file_id: b.subrange(88, 104),
                    buffer: if il == 0 {
                        Seq::empty()
                    } else {
                        b.subrange(io, io + il)
                    },
                },
            )
        }
    }
}

/// Appends the encoding of a query-info request body.
pub fn encode_query_info_request(out: &mut Vec<u8>, m: &QueryInfoRequest)
    requires
        wf_query_info_request(m@),
    ensures
        final(out)@ == old(out)@ + spec_enc_query_info_request(m@),
{
    put_u16(out, 41);
    put_u8(out, m.info_type);
    put_u8(out, m.file_info_class);
    put_u32(out, m.output_buffer_length);
    if m.buffer.len() == 0 {
        put_u16(out, 0);
    } else {
        put_u16(out, 104);
    }
    put_u16(out, 0);
    put_u32(out, m.buffer.len() as u32);
    put_u32(out, m.additional_information);
    put_u32(out, m.flags);
    put_bytes(out, &m.file_id.0);
    put_bytes(out, &m.buffer);
    assert(out@ =~= old(out)@ + spec_enc_query_info_request(m@));
}

/// Decodes the query-info request carried by the frame `b`.
pub fn decode_query_info_request(b: &Vec<u8>) -> (r: Result<QueryInfoRequest, CodecError>)
    ensures
        match r {
            Ok(m) => spec_dec_query_info_request(b@) == Ok::<QueryInfoRequestV, CodecError>(m@),
            Err(e) => spec_dec_query_info_request(b@) == Err::<QueryInfoRequestV, CodecError>(e),
        },
{
    if b.len() < 104 {
        return Err(CodecError::Truncated);
    }
    let io = read_u16(b, 72);
    let il = read_u32(b, 76);
    let mut buffer: Vec<u8> = Vec::new();
    if il != 0 {
        if io as usize > b.len() || (b.len() - io as usize) < (il as usize) {
            return Err(CodecError::Truncated);
        }
        buffer = read_bytes(b, io as usize, il as usize);
    }
    Ok(
        QueryInfoRequest {
            info_type: read_u8(b, 66),
            file_info_class: read_u8(b, 67),
            output_buffer_length: read_u32(b, 68),
            additional_information: read_u32(b, 80),
            flags: read_u32(b, 84),
            file_id: FileId(read_bytes(b, 88, 16)),
            buffer,
        },
    )
}

/// Decoding an encoded query-info request, behind any 64-byte header, yields
/// the request back.
pub proof fn lemma_query_info_request_roundtrip(hdr: Seq<u8>, m: QueryInfoRequestV)
    requires
        hdr.len() == 64,
        wf_query_info_request(m),
    ensures
        spec_dec_query_info_request(hdr + spec_enc_query_info_request(m)) == Ok::<
            QueryInfoRequestV,
            CodecError,
        >(m),
{
    broadcast use lemma_le16_combine;
    broadcast use lemma_le32_combine;

    let body = spec_enc_query_info_request(m);
    let b = hdr + body;
    let il = m.buffer.len() as int;
    assert(b[66] == m.info_type);
    assert(b[67] == m.file_info_class);
    assert(u32_at(b, 68) == m.output_buffer_length);
    assert(u16_at(b, 72) == (if m.buffer.len() == 0 {
        0u16
    } else {
        104u16
    }));
    assert(u32_at(b, 76) == m.buffer.len() as u32);
    assert(m.buffer.len() as u32 as int == il);
    assert(u32_at(b, 80) == m.additional_information);
    assert(u32_at(b, 84) == m.flags);
    assert(b.subrange(88, 104) =~= m.file_id);
    if il == 0 {
        assert(m.buffer =~= Seq::<u8>::empty());
    } else {
        assert(b.subrange(104, 104 + il) =~= m.buffer);
    }
}

/// A query-info response: the requested payload, raw; its schema is resolved
/// by the information class the caller asked under.
#[derive(Clone, Debug, PartialEq, Eq)]
pub struct QueryInfoResponse {
    pub buffer: Vec<u8>,
}

/// The mathematical value of a [`QueryInfoResponse`].
pub struct QueryInfoResponseV {
    pub buffer: Seq<u8>,
}

impl View for QueryInfoResponse {
    type V = QueryInfoResponseV;

    open spec fn view(&self) -> QueryInfoResponseV {
        QueryInfoResponseV { buffer: self.buffer@ }
    }
}

/// A representable query-info response.
pub open spec fn wf_query_info_response(m: QueryInfoResponseV) -> bool {
    m.buffer.len() <= 0xffff_ffff
}

/// The byte layout of a query-info response body: fixed fields, then the
/// payload at absolute offset 72.
pub open spec fn spec_enc_query_info_response(m: QueryInfoResponseV) -> Seq<u8> {
    spec_le16(9) + spec_le16(72) + spec_le32(m.buffer.len() as u32) + m.buffer
}

/// The query-info response denoted by the frame `b`.
pub open spec fn spec_dec_query_info_response(b: Seq<u8>) -> Result<
    QueryInfoResponseV,
    CodecError,
> {
    if b.len() < 72 {
        Err(CodecError::Truncated)
    } else {
        let bo = u16_at(b, 66) as int;
        let bl = u32_at(b, 68) as int;
        if bo + bl > b.len() {
            Err(CodecError::Truncated)
        } else {
            Ok(QueryInfoResponseV { buffer: b.subrange(bo, bo + bl) })
        }
    }
}

/// Appends the encoding of a query-info response body.
pub fn encode_query_info_response(out: &mut Vec<u8>, m: &QueryInfoResponse)
    requires
        wf_query_info_response(m@),
    ensures
        final(out)@ == old(out)@ + spec_enc_query_info_response(m@),
{
    put_u16(out, 9);
    put_u16(out, 72);
    put_u32(out, m.buffer.len() as u32);
    put_bytes(out, &m.buffer);
    assert(out@ =~= old(out)@ + spec_enc_query_info_response(m@));
}

/// Decodes the query-info response carried by the frame `b`.
pub fn decode_query_info_response(b: &Vec<u8>) -> (r: Result<QueryInfoResponse, CodecError>)
    ensures
        match r {
            Ok(m) => spec_dec_query_info_response(b@) == Ok::<QueryInfoResponseV, CodecError>(m@),
            Err(e) => spec_dec_query_info_response(b@) == Err::<QueryInfoResponseV, CodecError>(
                e,
            ),
        },
{
    if b.len() < 72 {
        return Err(CodecError::Truncated);
    }
    let bo = read_u16(b, 66);
    let bl = read_u32(b, 68);
    if bo as usize > b.len() || (b.len() - bo as usize) < (bl as usize) {
        return Err(CodecError::Truncated);
    }
    Ok(QueryInfoResponse { buffer: read_bytes(b, bo as usize, bl as usize) })
}

/// Decoding an encoded query-info response, behind any 64-byte header,
/// yields the response back.
pub proof fn lemma_query_info_response_roundtrip(hdr: Seq<u8>, m: QueryInfoResponseV)
    requires
        hdr.len() == 64,
        wf_query_info_response(m),
    ensures
        spec_dec_query_info_response(hdr + spec_enc_query_info_response(m)) == Ok::<
            QueryInfoResponseV,
            CodecError,
        >(m),
{
    broadcast use lemma_le16_combine;
    broadcast use lemma_le32_combine;

    let body = spec_enc_query_info_response(m);
    let b = hdr + body;
    let bl = m.buffer.len() as int;
    assert(u16_at(b, 66) == 72);
    assert(u32_at(b, 68) == m.buffer.len() as u32);
    assert(m.buffer.len() as u32 as int == bl);
    assert(b.subrange(72, 72 + bl) =~= m.buffer);
}

/// A set-info request: a typed metadata payload for an open handle.
#[derive(Clone, Debug, PartialEq, Eq)]
pub struct SetInfoRequest {
    pub info_type: u8,
    pub file_info_class: u8,
    pub additional_information: u32,
    pub file_id: FileId,
    pub buffer: Vec<u8>,
}

/// The mathematical value of a [`SetInfoRequest`].
pub struct SetInfoRequestV {
    pub info_type: u8,
    pub file_info_class: u8,
    pub additional_information: u32,
    pub file_id: Seq<u8>,
    pub buffer: Seq<u8>,
}

impl View for SetInfoRequest {
    type V = SetInfoRequestV;

    open spec fn view(&self) -> SetInfoRequestV {
        SetInfoRequestV {
            info_type: self.info_type,
            file_info_class: self.file_info_class,
            additional_information: self.additional_information,
            file_id: self.file_id@,
            buffer: self.buffer@,
        }
    }
}

/// A representable set-info request.
pub open spec fn wf_set_info_request(m: SetInfoRequestV) -> bool {
    &&& wf_file_id(m.file_id)
    &&& m.buffer.len() <= 0xffff_ffff
}

/// The byte layout of a set-info request body: fixed fields, then the
/// payload at absolute offset 96.
pub open spec fn spec_enc_set_info_request(m: SetInfoRequestV) -> Seq<u8> {
    spec_le16(33) + seq![m.info_type, m.file_info_class] + spec_le32(m.buffer.len() as u32)
        + spec_le16(96) + spec_le16(0) + spec_le32(m.additional_information) + m.file_id + m.buffer
}

/// The set-info request denoted by the frame `b`.
pub open spec fn spec_dec_set_info_request(b: Seq<u8>) -> Result<SetInfoRequestV, CodecError> {
    if b.len() < 96 {
        Err(CodecError::Truncated)
    } else {
        let bo = u16_at(b, 72) as int;
        let bl = u32_at(b, 68) as int;
        if bl != 0 && bo + bl > b.len() {
            Err(CodecError::Truncated)
        } else {
            Ok(
                SetInfoRequestV {
                    info_type: b[66],
                    file_info_class: b[67],
                    additional_information: u32_at(b, 76),
                    file_id: b.subrange(80, 96),
                    buffer: if bl == 0 {
                        Seq::empty()
                    } else {
                        b.subrange(bo, bo + bl)
                    },
                },
            )
        }
    }
}

/// Appends the encoding of a set-info request body.
pub fn encode_set_info_request(out: &mut Vec<u8>, m: &SetInfoRequest)
    requires
        wf_set_info_request(m@),
    ensures
        final(out)@ == old(out)@ + spec_enc_set_info_request(m@),
{
    put_u16(out, 33);
    put_u8(out, m.info_type);
    put_u8(out, m.file_info_class);
    put_u32(out, m.buffer.len() as u32);
    put_u16(out, 96);
    put_u16(out, 0);
    put_u32(out, m.additional_information);
    put_bytes(out, &m.file_id.0);
    put_bytes(out, &m.buffer);
    assert(out@ =~= old(out)@ + spec_enc_set_info_request(m@));
}

/// Decodes the set-info request carried by the frame `b`.
pub fn decode_set_info_request(b: &Vec<u8>) -> (r: Result<SetInfoRequest, CodecError>)
    ensures
        match r {
            Ok(m) => spec_dec_set_info_request(b@) == Ok::<SetInfoRequestV, CodecError>(m@),
            Err(e) => spec_dec_set_info_request(b@) == Err::<SetInfoRequestV, CodecError>(e),
        },
{
    if b.len() < 96 {
        return Err(CodecError::Truncated);
    }
    let bo = read_u16(b, 72);
    let bl = read_u32(b, 68);
    let mut buffer: Vec<u8> = Vec::new();
    if bl != 0 {
        if bo as usize > b.len() || (b.len() - bo as usize) < (bl as usize) {
            return Err(CodecError::Truncated);
        }
        buffer = read_bytes(b, bo as usize, bl as usize);
    }
    Ok(
        SetInfoRequest {
            info_type: read_u8(b, 66),
            file_info_class: read_u8(b, 67),
            additional_information: read_u32(b, 76),
            file_id: FileId(read_bytes(b, 80, 16)),
            buffer,
        },
    )
}

/// Decoding an encoded set-info request, behind any 64-byte header, yields
/// the request back.
pub proof fn lemma_set_info_request_roundtrip(hdr: Seq<u8>, m: SetInfoRequestV)
    requires
        hdr.len() == 64,
        wf_set_info_request(m),
    ensures
        spec_dec_set_info_request(hdr + spec_enc_set_info_request(m)) == Ok::<
            SetInfoRequestV,
            CodecError,
        >(m),
{
    broadcast use lemma_le16_combine;
    broadcast use lemma_le32_combine;

    let body = spec_enc_set_info_request(m);
    let b = hdr + body;
    let bl = m.buffer.len() as int;
    assert(b[66] == m.info_type);
    assert(b[67] == m.file_info_class);
    assert(u32_at(b, 68) == m.buffer.len() as u32);
    assert(m.buffer.len() as u32 as int == bl);
    assert(u16_at(b, 72) == 96);
    assert(u32_at(b, 76) == m.additional_information);
    assert(b.subrange(80, 96) =~= m.file_id);
    if bl == 0 {
        assert(m.buffer =~= Seq::<u8>::empty());
    } else {
        assert(b.subrange(96, 96 + bl) =~= m.buffer);
    }
}

/// A set-info response: an acknowledgement with no content.
#[derive(Clone, Copy, Debug, PartialEq, Eq, Structural)]
pub struct SetInfoResponse {}

impl View for SetInfoResponse {
    type V = SetInfoResponse;

    open spec fn view(&self) -> SetInfoResponse {
        *self
    }
}

/// The byte layout of a set-info response body.
pub open spec fn spec_enc_set_info_response(m: SetInfoResponse) -> Seq<u8> {
    spec_le16(2)
}

/// The set-info response denoted by the frame `b`.
pub open spec fn spec_dec_set_info_response(b: Seq<u8>) -> Result<SetInfoResponse, CodecError> {
    if b.len() < 66 {
        Err(CodecError::Truncated)
    } else {
        Ok(SetInfoResponse {  })
    }
}

/// Appends the encoding of a set-info response body.
pub fn encode_set_info_response(out: &mut Vec<u8>, m: &SetInfoResponse)
    ensures
        final(out)@ == old(out)@ + spec_enc_set_info_response(*m),
{
    put_u16(out, 2);
    assert(out@ =~= old(out)@ + spec_enc_set_info_response(*m));
}

/// Decodes the set-info response carried by the frame `b`.
pub fn decode_set_info_response(b: &Vec<u8>) -> (r: Result<SetInfoResponse, CodecError>)
    ensures
        match r {
            Ok(m) => spec_dec_set_info_response(b@) == Ok::<SetInfoResponse, CodecError>(m),
            Err(e) => spec_dec_set_info_response(b@) == Err::<SetInfoResponse, CodecError>(e),
        },
{
    if b.len() < 66 {
        return Err(CodecError::Truncated);
    }
    Ok(SetInfoResponse {  })
}

/// Decoding an encoded set-info response, behind any 64-byte header, yields
/// the response back.
pub proof fn lemma_set_info_response_roundtrip(hdr: Seq<u8>, m: SetInfoResponse)
    requires
        hdr.len() == 64,
    ensures
        spec_dec_set_info_response(hdr + spec_enc_set_info_response(m)) == Ok::<
            SetInfoResponse,
            CodecError,
        >(m),
{
}

/// A rename payload: the new path, and whether an existing file may be
/// replaced.
#[derive(Clone, Debug, PartialEq, Eq)]
pub struct FileRenameInformation {
    pub replace_if_exists: bool,
    pub path: Vec<u16>,
}

/// The mathematical value of a [`FileRenameInformation`].
pub struct FileRenameInformationV {
    pub replace_if_exists: bool,
    pub path: Seq<u16>,
}

impl View for FileRenameInformation {
    type V = FileRenameInformationV;

    open spec fn view(&self) -> FileRenameInformationV {
        FileRenameInformationV { replace_if_exists: self.replace_if_exists, path: self.path@ }
    }
}

/// A representable rename payload.
pub open spec fn wf_file_rename_information(m: FileRenameInformationV) -> bool {
    2 * m.path.len() <= 0xffff_ffff
}

/// The byte layout of a rename payload, from its own start: the replace
/// flag, reserved bytes, a root-directory slot, then the length-prefixed
/// name.
pub open spec fn spec_enc_file_rename_information(m: FileRenameInformationV) -> Seq<u8> {
    seq![
        if m.replace_if_exists {
            1u8
        } else {
            0u8
        },
    ] + zeros(7) + spec_le64(0) + spec_le32((2 * m.path.len()) as u32) + spec_enc_utf16(m.path)
}

/// The rename payload denoted by `b` from its own start.
pub open spec fn spec_dec_file_rename_information(b: Seq<u8>) -> Result<
    FileRenameInformationV,
    CodecError,
> {
    if b.len() < 20 {
        Err(CodecError::Truncated)
    } else {
        let nl = u32_at(b, 16) as int;
        match spec_dec_utf16(b, 20, (nl / 2) as nat) {
            Err(e) => Err(e),
            Ok(p) => Ok(FileRenameInformationV { replace_if_exists: b[0] != 0, path: p }),
        }
    }
}

/// Appends the encoding of a rename payload.
pub fn encode_file_rename_information(out: &mut Vec<u8>, m: &FileRenameInformation)
    requires
        wf_file_rename_information(m@),
    ensures
        final(out)@ == old(out)@ + spec_enc_file_rename_information(m@),
{
    if m.replace_if_exists {
        put_u8(out, 1);
    } else {
        put_u8(out, 0);
    }
    put_zeros(out, 7);
    put_u64(out, 0);
    put_u32(out, (2 * m.path.len()) as u32);
    encode_utf16_from(out, &m.path, 0);
    assert(m.path@.skip(0) =~= m.path@);
    assert(out@ =~= old(out)@ + spec_enc_file_rename_information(m@));
}

/// Decodes a rename payload from the start of `b`.
pub fn decode_file_rename_information(b: &Vec<u8>) -> (r: Result<
    FileRenameInformation,
    CodecError,
>)
    ensures
        match r {
            Ok(m) => spec_dec_file_rename_information(b@) == Ok::<
                FileRenameInformationV,
                CodecError,
            >(m@),
            Err(e) => spec_dec_file_rename_information(b@) == Err::<
                FileRenameInformationV,
                CodecError,
            >(e),
        },
{
    if b.len() < 20 {
        return Err(CodecError::Truncated);
    }
    let nl = read_u32(b, 16);
    let mut path: Vec<u16> = Vec::new();
    match decode_utf16_into(b, 20, (nl as usize) / 2, &mut path) {
        Err(e) => {
            return Err(e);
        },
        Ok(_) => {},
    }
    assert(path@ =~= Seq::<u16>::empty() + spec_dec_utf16(
        b@,
        20,
        ((nl as int) / 2) as nat,
    )->Ok_0);
    Ok(FileRenameInformation { replace_if_exists: read_u8(b, 0) != 0, path })
}

/// Decoding an encoded rename payload yields the payload back.
pub proof fn lemma_file_rename_information_roundtrip(m: FileRenameInformationV)
    requires
        wf_file_rename_information(m),
    ensures
        spec_dec_file_rename_information(spec_enc_file_rename_information(m)) == Ok::<
            FileRenameInformationV,
            CodecError,
        >(m),
{
    broadcast use lemma_le32_combine;

    let b = spec_enc_file_rename_information(m);
    let pl = m.path.len() as int;
    lemma_enc_utf16_len(m.path);
    assert(b[0] == (if m.replace_if_exists {
        1u8
    } else {
        0u8
    }));
    assert(u32_at(b, 16) == (2 * m.path.len()) as u32);
    assert((2 * m.path.len()) as u32 as int == 2 * pl);
    assert(b.subrange(20, 20 + 2 * pl) =~= spec_enc_utf16(m.path));
    lemma_utf16_roundtrip(b, 20, m.path);
}

/// A resize payload: the file's new end-of-file position.
#[derive(Clone, Copy, Debug, PartialEq, Eq, Structural)]
pub struct FileEndOfFileInformation {
    pub end_of_file: i64,
}

impl View for FileEndOfFileInformation {
    type V = FileEndOfFileInformation;

    open spec fn view(&self) -> FileEndOfFileInformation {
        *self
    }
}

/// The byte layout of a resize payload: the position, little-endian, in
/// two's complement.
pub open spec fn spec_enc_file_end_of_file_information(m: FileEndOfFileInformation) -> Seq<u8> {
    spec_le64(m.end_of_file as u64)
}

/// The resize payload denoted by `b` from its own start.
pub open spec fn spec_dec_file_end_of_file_information(b: Seq<u8>) -> Result<
    FileEndOfFileInformation,
    CodecError,
> {
    if b.len() < 8 {
        Err(CodecError::Truncated)
    } else {
        Ok(FileEndOfFileInformation { end_of_file: u64_at(b, 0) as i64 })
    }
}

/// Appends the encoding of a resize payload.
pub fn encode_file_end_of_file_information(out: &mut Vec<u8>, m: &FileEndOfFileInformation)
    ensures
        final(out)@ == old(out)@ + spec_enc_file_end_of_file_information(*m),
{
    put_u64(out, m.end_of_file as u64);
}

/// Decodes a resize payload from the start of `b`.
pub fn decode_file_end_of_file_information(b: &Vec<u8>) -> (r: Result<
    FileEndOfFileInformation,
    CodecError,
>)
    ensures
        match r {
            Ok(m) => spec_dec_file_end_of_file_information(b@) == Ok::<
                FileEndOfFileInformation,
                CodecError,
            >(m),
            Err(e) => spec_dec_file_end_of_file_information(b@) == Err::<
                FileEndOfFileInformation,
                CodecError,
            >(e),
        },
{
    if b.len() < 8 {
        return Err(CodecError::Truncated);
    }
    Ok(FileEndOfFileInformation { end_of_file: read_u64(b, 0) as i64 })
}

/// Decoding an encoded resize payload yields the payload back.
pub proof fn lemma_file_end_of_file_information_roundtrip(m: FileEndOfFileInformation)
    ensures
        spec_dec_file_end_of_file_information(spec_enc_file_end_of_file_information(m)) == Ok::<
            FileEndOfFileInformation,
            CodecError,
        >(m),
{
    broadcast use lemma_le64_combine;

    let b = spec_enc_file_end_of_file_information(m);
    let v = m.end_of_file;
    assert(u64_at(b, 0) == m.end_of_file as u64);
    assert((v as u64) as i64 == v) by (bit_vector);
}

} // verus!
