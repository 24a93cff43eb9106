//! Session setup (the authentication carrier messages) and tree connect.
//! Session-setup messages carry an opaque, offset-addressed security blob
//! whose internal structure the engine never interprets.

use vstd::prelude::*;
use crate::bytes::{
    lemma_le16_combine, lemma_le32_combine, lemma_le64_combine, put_bytes, put_u16, put_u32,
    put_u64, put_u8, read_bytes, read_u16, read_u32, read_u64, read_u8, spec_le16, spec_le32,
    spec_le64, u16_at, u32_at, u64_at,
};
use crate::lists::{
    decode_utf16_into, encode_utf16_from, lemma_enc_utf16_len, lemma_utf16_roundtrip,
    spec_dec_utf16, spec_enc_utf16,
};
use crate::types::CodecError;

verus! {

/// A session-setup request: one round of the authentication conversation.
#[derive(Clone, Debug, PartialEq, Eq)]
pub struct SessionSetupRequest {
    pub session_binding_request: bool,
    pub security_mode: u8,
    pub capabilities: u32,
    pub channel: u32,
    pub previous_session_id: u64,
    pub security_blob: Vec<u8>,
}

/// The mathematical value of a [`SessionSetupRequest`].
pub struct SessionSetupRequestV {
    pub session_binding_request: bool,
    pub security_mode: u8,
    pub capabilities: u32,
    pub channel: u32,
    pub previous_session_id: u64,
    pub security_blob: Seq<u8>,
}

impl View for SessionSetupRequest {
    type V = SessionSetupRequestV;

    open spec fn view(&self) -> SessionSetupRequestV {
        SessionSetupRequestV {
            session_binding_request: self.session_binding_request,
            security_mode: self.security_mode,
            capabilities: self.capabilities,
            channel: self.channel,
            previous_session_id: self.previous_session_id,
            security_blob: self.security_blob@,
        }
    }
}

/// A representable session-setup request: its blob length fits the 16-bit
/// length field.
pub open spec fn wf_session_setup_request(m: SessionSetupRequestV) -> bool {
    m.security_blob.len() <= 0xffff
}

/// The byte layout of a session-setup request body: fixed fields, then the
/// blob at absolute offset 88.
pub open spec fn spec_enc_session_setup_request(m: SessionSetupRequestV) -> Seq<u8> {
    spec_le16(25) + seq![
        if m.session_binding_request {
            1u8
        } else {
            0u8
        },
        m.security_mode,
    ] + spec_le32(m.capabilities) + spec_le32(m.channel) + spec_le16(88) + spec_le16(
        m.security_blob.len() as u16,
    ) + spec_le64(m.previous_session_id) + m.security_blob
}

/// The session-setup request denoted by the frame `b`.
pub open spec fn spec_dec_session_setup_request(b: Seq<u8>) -> Result<
    SessionSetupRequestV,
    CodecError,
> {
    if b.len() < 88 {
        Err(CodecError::Truncated)
    } else {
        let bo = u16_at(b, 76) as int;
        let bl = u16_at(b, 78) as int;
        if bo + bl > b.len() {
            Err(CodecError::Truncated)
        } else {
            Ok(
                SessionSetupRequestV {
                    session_binding_request: b[66] != 0,
                    security_mode: b[67],
                    capabilities: u32_at(b, 68),
                    channel: u32_at(b, 72),
                    previous_session_id: u64_at(b, 80),
                    security_blob: b.subrange(bo, bo + bl),
                },
            )
        }
    }
}

/// Appends the encoding of a session-setup request body.
pub fn encode_session_setup_request(out: &mut Vec<u8>, m: &SessionSetupRequest)
    requires
        wf_session_setup_request(m@),
    ensures
        final(out)@ == old(out)@ + spec_enc_session_setup_request(m@),
{
    put_u16(out, 25);
    if m.session_binding_request {
        put_u8(out, 1);
    } else {
        put_u8(out, 0);
    }
    put_u8(out, m.security_mode);
    put_u32(out, m.capabilities);
    put_u32(out, m.channel);
    put_u16(out, 88);
    put_u16(out, m.security_blob.len() as u16);
    put_u64(out, m.previous_session_id);
    put_bytes(out, &m.security_blob);
    assert(out@ =~= old(out)@ + spec_enc_session_setup_request(m@));
}

/// Decodes the session-setup request carried by the frame `b`.
pub fn decode_session_setup_request(b: &Vec<u8>) -> (r: Result<SessionSetupRequest, CodecError>)
    ensures
        match r {
            Ok(m) => spec_dec_session_setup_request(b@) == Ok::<
                SessionSetupRequestV,
                CodecError,
            >(m@),
            Err(e) => spec_dec_session_setup_request(b@) == Err::<
                SessionSetupRequestV,
                CodecError,
            >(e),
        },
{
    if b.len() < 88 {
        return Err(CodecError::Truncated);
    }
    let bo = read_u16(b, 76);
    let bl = read_u16(b, 78);
    if bo as usize > b.len() || (b.len() - bo as usize) < (bl as usize) {
        return Err(CodecError::Truncated);
    }
    Ok(
        SessionSetupRequest {
            session_binding_request: read_u8(b, 66) != 0,
            security_mode: read_u8(b, 67),
            capabilities: read_u32(b, 68),
            channel: read_u32(b, 72),
            previous_session_id: read_u64(b, 80),
            security_blob: read_bytes(b, bo as usize, bl as usize),
        },
    )
}

/// Decoding an encoded session-setup request, behind any 64-byte header,
/// yields the request back.
pub proof fn lemma_session_setup_request_roundtrip(hdr: Seq<u8>, m: SessionSetupRequestV)
    requires
        hdr.len() == 64,
        wf_session_setup_request(m),
    ensures
        spec_dec_session_setup_request(hdr + spec_enc_session_setup_request(m)) == Ok::<
            SessionSetupRequestV,
            CodecError,
        >(m),
{
    broadcast use lemma_le16_combine;
    broadcast use lemma_le32_combine;
    broadcast use lemma_le64_combine;

    let body = spec_enc_session_setup_request(m);
    let b = hdr + body;
    let bl = m.security_blob.len() as int;
    assert(b[66] == (if m.session_binding_request {
        1u8
    } else {
        0u8
    }));
    assert(b[67] == m.security_mode);
    assert(u32_at(b, 68) == m.capabilities);
    assert(u32_at(b, 72) == m.channel);
    assert(u16_at(b, 76) == 88);
    assert(u16_at(b, 78) == m.security_blob.len() as u16);
    assert(m.security_blob.len() as u16 as int == bl);
    assert(u64_at(b, 80) == m.previous_session_id);
    assert(b.subrange(88, 88 + bl) =~= m.security_blob);
}

/// A session-setup response: the server's session flags and the next
/// authentication token.
#[derive(Clone, Debug, PartialEq, Eq)]
pub struct SessionSetupResponse {
    pub session_flags: u16,
    pub security_blob: Vec<u8>,
}

/// The mathematical value of a [`SessionSetupResponse`].
pub struct SessionSetupResponseV {
    pub session_flags: u16,
    pub security_blob: Seq<u8>,
}

impl View for SessionSetupResponse {
    type V = SessionSetupResponseV;

    open spec fn view(&self) -> SessionSetupResponseV {
        SessionSetupResponseV {
            session_flags: self.session_flags,
            security_blob: self.security_blob@,
        }
    }
}

/// A representable session-setup response.
pub open spec fn wf_session_setup_response(m: SessionSetupResponseV) -> bool {
    m.security_blob.len() <= 0xffff
}

/// The byte layout of a session-setup response body: fixed fields, then the
/// blob at absolute offset 72.
pub open spec fn spec_enc_session_setup_response(m: SessionSetupResponseV) -> Seq<u8> {
    spec_le16(9) + spec_le16(m.session_flags) + spec_le16(72) + spec_le16(
        m.security_blob.len() as u16,
    ) + m.security_blob
}

/// The session-setup response denoted by the frame `b`.
pub open spec fn spec_dec_session_setup_response(b: Seq<u8>) -> Result<
    SessionSetupResponseV,
    CodecError,
> {
    if b.len() < 72 {
        Err(CodecError::Truncated)
    } else {
        let bo = u16_at(b, 68) as int;
        let bl = u16_at(b, 70) as int;
        if bo + bl > b.len() {
            Err(CodecError::Truncated)
        } else {
            Ok(
                SessionSetupResponseV {
                    session_flags: u16_at(b, 66),
                    security_blob: b.subrange(bo, bo + bl),
                },
            )
        }
    }
}

/// Appends the encoding of a session-setup response body.
pub fn encode_session_setup_response(out: &mut Vec<u8>, m: &SessionSetupResponse)
    requires
        wf_session_setup_response(m@),
    ensures
        final(out)@ == old(out)@ + spec_enc_session_setup_response(m@),
{
    put_u16(out, 9);
    put_u16(out, m.session_flags);
    put_u16(out, 72);
    put_u16(out, m.security_blob.len() as u16);
    put_bytes(out, &m.security_blob);
    assert(out@ =~= old(out)@ + spec_enc_session_setup_response(m@));
}

/// Decodes the session-setup response carried by the frame `b`.
pub fn decode_session_setup_response(b: &Vec<u8>) -> (r: Result<SessionSetupResponse, CodecError>)
    ensures
        match r {
            Ok(m) => spec_dec_session_setup_response(b@) == Ok::<
                SessionSetupResponseV,
                CodecError,
            >(m@),
            Err(e) => spec_dec_session_setup_response(b@) == Err::<
                SessionSetupResponseV,
                CodecError,
            >(e),
        },
{
    if b.len() < 72 {
        return Err(CodecError::Truncated);
    }
    let bo = read_u16(b, 68);
    let bl = read_u16(b, 70);
    if bo as usize > b.len() || (b.len() - bo as usize) < (bl as usize) {
        return Err(CodecError::Truncated);
    }
    Ok(
        SessionSetupResponse {
            session_flags: read_u16(b, 66),
            security_blob: read_bytes(b, bo as usize, bl as usize),
        },
    )
}

/// Decoding an encoded session-setup response, behind any 64-byte header,
/// yields the response back.
pub proof fn lemma_session_setup_response_roundtrip(hdr: Seq<u8>, m: SessionSetupResponseV)
    requires
        hdr.len() == 64,
        wf_session_setup_response(m),
    ensures
        spec_dec_session_setup_response(hdr + spec_enc_session_setup_response(m)) == Ok::<
            SessionSetupResponseV,
            CodecError,
        >(m),
{
    broadcast use lemma_le16_combine;

    let body = spec_enc_session_setup_response(m);
    let b = hdr + body;
    let bl = m.security_blob.len() as int;
    assert(u16_at(b, 66) == m.session_flags);
    assert(u16_at(b, 68) == 72);
    assert(u16_at(b, 70) == m.security_blob.len() as u16);
    assert(m.security_blob.len() as u16 as int == bl);
    assert(b.subrange(72, 72 + bl) =~= m.security_blob);
}

/// A tree-connect request: the share path, in the protocol's 16-bit text.
#[derive(Clone, Debug, PartialEq, Eq)]
pub struct TreeConnectRequest {
    pub flags: u16,
    pub path: Vec<u16>,
}

/// The mathematical value of a [`TreeConnectRequest`].
pub struct TreeConnectRequestV {
    pub flags: u16,
    pub path: Seq<u16>,
}

impl View for TreeConnectRequest {
    type V = TreeConnectRequestV;

    open spec fn view(&self) -> TreeConnectRequestV {
        TreeConnectRequestV { flags: self.flags, path: self.path@ }
    }
}

/// A representable tree-connect request: the encoded path length fits its
/// 16-bit length field.
pub open spec fn wf_tree_connect_request(m: TreeConnectRequestV) -> bool {
    2 * m.path.len() <= 0xffff
}

/// The byte layout of a tree-connect request body: fixed fields, then the
/// path at absolute offset 72.
pub open spec fn spec_enc_tree_connect_request(m: TreeConnectRequestV) -> Seq<u8> {
    spec_le16(9) + spec_le16(m.flags) + spec_le16(72) + spec_le16((2 * m.path.len()) as u16)
        + spec_enc_utf16(m.path)
}

/// The tree-connect request denoted by the frame `b`.
pub open spec fn spec_dec_tree_connect_request(b: Seq<u8>) -> Result<
    TreeConnectRequestV,
    CodecError,
> {
    if b.len() < 72 {
        Err(CodecError::Truncated)
    } else {
        let po = u16_at(b, 68) as int;
        let pl = u16_at(b, 70) as int;
        match spec_dec_utf16(b, po, (pl / 2) as nat) {
            Err(e) => Err(e),
            Ok(p) => Ok(TreeConnectRequestV { flags: u16_at(b, 66), path: p }),
        }
    }
}

/// Appends the encoding of a tree-connect request body.
pub fn encode_tree_connect_request(out: &mut Vec<u8>, m: &TreeConnectRequest)
    requires
        wf_tree_connect_request(m@),
    ensures
        final(out)@ == old(out)@ + spec_enc_tree_connect_request(m@),
{
    put_u16(out, 9);
    put_u16(out, m.flags);
    put_u16(out, 72);
    put_u16(out, (2 * m.path.len()) as u16);
    encode_utf16_from(out, &m.path, 0);
    assert(m.path@.skip(0) =~= m.path@);
    assert(out@ =~= old(out)@ + spec_enc_tree_connect_request(m@));
}

/// Decodes the tree-connect request carried by the frame `b`.
pub fn decode_tree_connect_request(b: &Vec<u8>) -> (r: Result<TreeConnectRequest, CodecError>)
    ensures
        match r {
            Ok(m) => spec_dec_tree_connect_request(b@) == Ok::<TreeConnectRequestV, CodecError>(
                m@,
            ),
            Err(e) => spec_dec_tree_connect_request(b@) == Err::<TreeConnectRequestV, CodecError>(
                e,
            ),
        },
{
    if b.len() < 72 {
        return Err(CodecError::Truncated);
    }
    let po = read_u16(b, 68);
    let pl = read_u16(b, 70);
    let mut path: Vec<u16> = Vec::new();
    if po as usize > b.len() {
        // The text decoder demands an in-range start; an offset past the end
        // can hold no element, so it can only be empty or truncated.
        if pl / 2 == 0 {
            assert(path@ =~= spec_dec_utf16(b@, po as int, (pl / 2) as nat)->Ok_0);
            return Ok(TreeConnectRequest { flags: read_u16(b, 66), path });
        }
        return Err(CodecError::Truncated);
    }
    match decode_utf16_into(b, po as usize, (pl / 2) as usize, &mut path) {
        Err(e) => {
            return Err(e);
        },
        Ok(_) => {},
    }
    assert(path@ =~= Seq::<u16>::empty() + spec_dec_utf16(b@, po as int, (pl / 2) as nat)->Ok_0);
    Ok(TreeConnectRequest { flags: read_u16(b, 66), path })
}

/// Decoding an encoded tree-connect request, behind any 64-byte header,
/// yields the request back.
pub proof fn lemma_tree_connect_request_roundtrip(hdr: Seq<u8>, m: TreeConnectRequestV)
    requires
        hdr.len() == 64,
        wf_tree_connect_request(m),
    ensures
        spec_dec_tree_connect_request(hdr + spec_enc_tree_connect_request(m)) == Ok::<
            TreeConnectRequestV,
            CodecError,
        >(m),
{
    broadcast use lemma_le16_combine;

    let body = spec_enc_tree_connect_request(m);
    let b = hdr + body;
    let pl = m.path.len() as int;
    lemma_enc_utf16_len(m.path);
    assert(u16_at(b, 66) == m.flags);
    assert(u16_at(b, 68) == 72);
    assert(u16_at(b, 70) == (2 * m.path.len()) as u16);
    assert((2 * m.path.len()) as u16 as int == 2 * pl);
    assert(b.subrange(72, 72 + 2 * pl) =~= spec_enc_utf16(m.path));
    lemma_utf16_roundtrip(b, 72, m.path);
}

/// A tree-connect response: the connected share's type, flags and access.
#[derive(Clone, Copy, Debug, PartialEq, Eq)]
pub struct TreeConnectResponse {
    pub share_type: u8,
    pub share_flags: u32,
    pub capabilities: u32,
    pub maximal_access: u32,
}

impl View for TreeConnectResponse {
    type V = TreeConnectResponse;

    open spec fn view(&self) -> TreeConnectResponse {
        *self
    }
}

/// The byte layout of a tree-connect response body.
pub open spec fn spec_enc_tree_connect_response(m: TreeConnectResponse) -> Seq<u8> {
    spec_le16(16) + seq![m.share_type, 0u8] + spec_le32(m.share_flags) + spec_le32(m.capabilities)
        + spec_le32(m.maximal_access)
}

/// The tree-connect response denoted by the frame `b`.
pub open spec fn spec_dec_tree_connect_response(b: Seq<u8>) -> Result<
    TreeConnectResponse,
    CodecError,
> {
    if b.len() < 80 {
        Err(CodecError::Truncated)
    } else {
        Ok(
            TreeConnectResponse {
                share_type: b[66],
                share_flags: u32_at(b, 68),
                capabilities: u32_at(b, 72),
                maximal_access: u32_at(b, 76),
            },
        )
    }
}

/// Appends the encoding of a tree-connect response body.
pub fn encode_tree_connect_response(out: &mut Vec<u8>, m: &TreeConnectResponse)
    ensures
        final(out)@ == old(out)@ + spec_enc_tree_connect_response(*m),
{
    put_u16(out, 16);
    put_u8(out, m.share_type);
    put_u8(out, 0);
    put_u32(out, m.share_flags);
    put_u32(out, m.capabilities);
    put_u32(out, m.maximal_access);
    assert(out@ =~= old(out)@ + spec_enc_tree_connect_response(*m));
}

/// Decodes the tree-connect response carried by the frame `b`.
pub fn decode_tree_connect_response(b: &Vec<u8>) -> (r: Result<TreeConnectResponse, CodecError>)
    ensures
        match r {
            Ok(m) => spec_dec_tree_connect_response(b@) == Ok::<TreeConnectResponse, CodecError>(
                m,
            ),
            Err(e) => spec_dec_tree_connect_response(b@) == Err::<TreeConnectResponse, CodecError>(
                e,
            ),
        },
{
    if b.len() < 80 {
        return Err(CodecError::Truncated);
    }
    Ok(
        TreeConnectResponse {
            share_type: read_u8(b, 66),
            share_flags: read_u32(b, 68),
            capabilities: read_u32(b, 72),
            maximal_access: read_u32(b, 76),
        },
    )
}

/// Decoding an encoded tree-connect response, behind any 64-byte header,
/// yields the response back.
pub proof fn lemma_tree_connect_response_roundtrip(hdr: Seq<u8>, m: TreeConnectResponse)
    requires
        hdr.len() == 64,
    ensures
        spec_dec_tree_connect_response(hdr + spec_enc_tree_connect_response(m)) == Ok::<
            TreeConnectResponse,
            CodecError,
        >(m),
{
    broadcast use lemma_le16_combine;
    broadcast use lemma_le32_combine;

    let body = spec_enc_tree_connect_response(m);
    let b = hdr + body;
    assert(b.len() == 80);
    assert(b[66] == m.share_type);
    assert(u32_at(b, 68) == m.share_flags);
    assert(u32_at(b, 72) == m.capabilities);
    assert(u32_at(b, 76) == m.maximal_access);
}

} // verus!
