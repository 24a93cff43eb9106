//! The connection engine's state: the monotonic message-id counter, the
//! rolling preauthentication hash, request framing and signing, response
//! classification (pending responses are never surfaced as final), the
//! authentication state machine, the signing-key derivation, and the
//! loop-termination rules of the two bulk operations.

use vstd::prelude::*;
use crate::bytes::{put_bytes, put_zeros, zeros};
use crate::crypto::{
    cmac_aes128, cmac_aes128_of, derive_label, sha512_of, sha512_pair, sp800_108_counter_kdf,
    spec_signing_label, spec_sp800_108_kdf,
};
use crate::header::{
    RequestHeader, RequestHeaderV, ResponseHeader, decode_response_header, encode_request_header,
    spec_dec_response_header, spec_enc_request_header,
};
use crate::types::{
    CodecError, Command, Error, HEADER_FLAG_SIGNED, NT_STATUS_MORE_PROCESSING_REQUIRED,
    NT_STATUS_PENDING, NT_STATUS_SUCCESS,
};

verus! {

/// The preauthentication hash denoted by a transcript: 64 zero bytes folded
/// left by hashing the running value with each message, in order.
pub open spec fn fold_preauth(msgs: Seq<Seq<u8>>) -> Seq<u8>
    decreases msgs.len(),
{
    if msgs.len() == 0 {
        zeros(64)
    } else {
        sha512_of(fold_preauth(msgs.drop_last()) + msgs.last())
    }
}

/// The frame of an outgoing request before signing: its header, carrying
/// the given message id and an all-zero signature field, then the body.
pub open spec fn spec_request_frame(
    command: Command,
    credit_charge: u16,
    credits_requested: u16,
    session_id: u64,
    tree_id: u32,
    signed: bool,
    message_id: u64,
    body: Seq<u8>,
) -> Seq<u8> {
    spec_enc_request_header(
        RequestHeaderV {
            credit_charge,
            channel_sequence: 0,
            command,
            credits_requested,
            flags: if signed {
                HEADER_FLAG_SIGNED
            } else {
                0
            },
            chain_offset: 0,
            message_id,
            process_id: 0,
            tree_id,
            session_id,
            signature: zeros(16),
        },
    ) + body
}

/// A frame with its signature field (bytes 48 to 63) replaced.
pub open spec fn spec_patch_signature(frame: Seq<u8>, sig: Seq<u8>) -> Seq<u8>
    recommends
        frame.len() >= 64,
        sig.len() == 16,
{
    frame.take(48) + sig + frame.skip(64)
}

/// Replaces a frame's signature field.
fn patch_signature(frame: &mut Vec<u8>, sig: &Vec<u8>)
    requires
        old(frame)@.len() >= 64,
        sig@.len() == 16,
    ensures
        final(frame)@ == spec_patch_signature(old(frame)@, sig@),
{
    let mut i: usize = 0;
    while i < 16
        invariant
            i <= 16,
            sig@.len() == 16,
            frame@.len() == old(frame)@.len(),
            old(frame)@.len() >= 64,
            forall|k: int|
                0 <= k < frame@.len() && !(48 <= k < 48 + i) ==> frame@[k] == old(frame)@[k],
            forall|k: int| 0 <= k < i ==> frame@[48 + k] == sig@[k],
        decreases 16 - i,
    {
        frame.set(48 + i, sig[i]);
        i = i + 1;
    }
    assert(frame@ =~= spec_patch_signature(old(frame)@, sig@));
}

/// The engine-internal state of one connection: the next message id and the
/// rolling preauthentication hash, together with the ghost transcript of the
/// messages folded into it.
pub struct Connection {
    pub next_message_id: u64,
    pub pre_auth_hash: Vec<u8>,
    pub transcript: Ghost<Seq<Seq<u8>>>,
}

impl Connection {
    /// The connection invariant: the hash is exactly the fold of the
    /// transcript — the unsigned messages seen so far, in send/receive
    /// order.
    pub open spec fn wf(self) -> bool {
        self.pre_auth_hash@ == fold_preauth(self.transcript@)
    }

    /// A fresh connection: message ids start at zero and the hash at 64
    /// zero bytes.
    pub fn new() -> (r: Connection)
        ensures
            r.wf(),
            r.next_message_id == 0,
            r.transcript@ == Seq::<Seq<u8>>::empty(),
            r.pre_auth_hash@ == zeros(64),
    {
        let mut h: Vec<u8> = Vec::new();
        put_zeros(&mut h, 64);
        assert(h@ =~= zeros(64));
        Connection { next_message_id: 0, pre_auth_hash: h, transcript: Ghost(Seq::empty()) }
    }

    /// Builds the frame of the next request: stamps the next message id
    /// (which then increments by exactly one), and either signs the frame
    /// with CMAC-AES-128 over the signing key — leaving the hash alone — or
    /// folds the unsigned frame into the rolling hash.
    pub fn prepare_request(
        &mut self,
        command: Command,
        credit_charge: u16,
        credits_requested: u16,
        session_id: u64,
        tree_id: u32,
        signing_key: Option<&Vec<u8>>,
        body: &Vec<u8>,
    ) -> (r: Vec<u8>)
        requires
            old(self).wf(),
            old(self).next_message_id < u64::MAX,
            old(self).signing_key_ok(signing_key),
        ensures
            final(self).wf(),
            final(self).next_message_id == old(self).next_message_id + 1,
            signing_key is None ==> r@ == spec_request_frame(
                command,
                credit_charge,
                credits_requested,
                session_id,
                tree_id,
                false,
                old(self).next_message_id,
                body@,
            ),
            signing_key is None ==> final(self).transcript@ == old(self).transcript@.push(r@)
                && final(self).pre_auth_hash@ == sha512_of(old(self).pre_auth_hash@ + r@),
            signing_key matches Some(k) ==> r@ == spec_patch_signature(
                spec_request_frame(
                    command,
                    credit_charge,
                    credits_requested,
                    session_id,
                    tree_id,
                    true,
                    old(self).next_message_id,
                    body@,
                ),
                cmac_aes128_of(
                    k@,
                    spec_request_frame(
                        command,
                        credit_charge,
                        credits_requested,
                        session_id,
                        tree_id,
                        true,
                        old(self).next_message_id,
                        body@,
                    ),
                ),
            ),
            signing_key is Some ==> final(self).transcript@ == old(self).transcript@ && final(self).pre_auth_hash@ == old(self).pre_auth_hash@,
    {
        let mut sig_field: Vec<u8> = Vec::new();
        put_zeros(&mut sig_field, 16);
        assert(sig_field@ =~= zeros(16));
        let header = RequestHeader {
            credit_charge,
            channel_sequence: 0,
            command,
            credits_requested,
            flags: if signing_key.is_some() {
                HEADER_FLAG_SIGNED
            } else {
                0
            },
            chain_offset: 0,
            message_id: self.next_message_id,
            process_id: 0,
            tree_id,
            session_id,
            signature: sig_field,
        };
        let mut frame: Vec<u8> = Vec::new();
        encode_request_header(&mut frame, &header);
        put_bytes(&mut frame, body);
        self.next_message_id = self.next_message_id + 1;
        match signing_key {
            Option::None => {
                let nh = sha512_pair(&self.pre_auth_hash, &frame);
                let ghost old_t = self.transcript@;
                self.pre_auth_hash = nh;
                self.transcript = Ghost(old_t.push(frame@));
                proof {
                    assert(old_t.push(frame@).drop_last() =~= old_t);
                    assert(old_t.push(frame@).last() == frame@);
                }
                frame
            },
            Option::Some(key) => {
                let sig = cmac_aes128(key, &frame);
                patch_signature(&mut frame, &sig);
                frame
            },
        }
    }

    /// Whether a prospective signing key is usable: absent, or 16 bytes.
    pub open spec fn signing_key_ok(self, signing_key: Option<&Vec<u8>>) -> bool {
        match signing_key {
            Option::None => true,
            Option::Some(k) => k@.len() == 16,
        }
    }

    /// Takes one received frame. A frame whose header does not decode is
    /// malformed. Otherwise, a frame whose signature field is all zero is
    /// folded into the rolling hash, whatever its status; then a pending
    /// status asks the caller to keep reading — it is never surfaced as a
    /// final outcome — while success and more-processing-required hand the
    /// header back for the body to be decoded, and every other status is the
    /// exchange's terminal failure.
    pub fn accept_frame(&mut self, frame: &Vec<u8>) -> (r: FrameOutcome)
        requires
            old(self).wf(),
        ensures
            final(self).wf(),
            final(self).next_message_id == old(self).next_message_id,
            match spec_dec_response_header(frame@) {
                Err(e) => r == FrameOutcome::Malformed(e) && final(self).transcript@ == old(self).transcript@ && final(self).pre_auth_hash@ == old(self).pre_auth_hash@,
                Ok(h) => {
                    &&& (h.signature == zeros(16) ==> final(self).transcript@ == old(self).transcript@.push(frame@) && final(self).pre_auth_hash@ == sha512_of(
                        old(self).pre_auth_hash@ + frame@,
                    ))
                    &&& (h.signature != zeros(16) ==> final(self).transcript@ == old(self).transcript@ && final(self).pre_auth_hash@ == old(self).pre_auth_hash@)
                    &&& (r == FrameOutcome::Pending <==> h.nt_status == NT_STATUS_PENDING)
                    &&& ((r is Accepted) <==> (h.nt_status != NT_STATUS_PENDING && (h.nt_status
                        == NT_STATUS_SUCCESS || h.nt_status == NT_STATUS_MORE_PROCESSING_REQUIRED)))
                    &&& ((r is Failed) <==> (h.nt_status != NT_STATUS_PENDING && h.nt_status
                        != NT_STATUS_SUCCESS && h.nt_status != NT_STATUS_MORE_PROCESSING_REQUIRED))
                    &&& (r matches FrameOutcome::Accepted(hh) ==> hh@ == h)
                    &&& (r matches FrameOutcome::Failed(hh) ==> hh@ == h)
                },
            },
    {
        let header = match decode_response_header(frame) {
            Err(e) => {
                return FrameOutcome::Malformed(e);
            },
            Ok(h) => h,
        };
        if is_all_zero(&header.signature) {
            assert(header.signature@ =~= zeros(header.signature@.len()));
            let nh = sha512_pair(&self.pre_auth_hash, frame);
            let ghost old_t = self.transcript@;
            self.pre_auth_hash = nh;
            self.transcript = Ghost(old_t.push(frame@));
            proof {
                assert(old_t.push(frame@).drop_last() =~= old_t);
                assert(old_t.push(frame@).last() == frame@);
                assert(header.signature@ =~= zeros(16));
            }
        } else {
            proof {
                assert(header.signature@.len() == 16);
                assert(header.signature@ != zeros(16));
            }
        }
        if header.nt_status == NT_STATUS_PENDING {
            FrameOutcome::Pending
        } else if header.nt_status == NT_STATUS_SUCCESS || header.nt_status
            == NT_STATUS_MORE_PROCESSING_REQUIRED {
            FrameOutcome::Accepted(header)
        } else {
            FrameOutcome::Failed(header)
        }
    }
}

/// What the engine makes of one received frame.
#[derive(Clone, Debug, PartialEq, Eq)]
pub enum FrameOutcome {
    /// An interim notice: keep reading; this is never a final result.
    Pending,
    /// A terminal status under which the body is decoded and returned.
    Accepted(ResponseHeader),
    /// Any other terminal status: the exchange failed with it.
    Failed(ResponseHeader),
    /// The frame's header did not decode.
    Malformed(CodecError),
}

/// True exactly when every byte of `v` is zero.
pub fn is_all_zero(v: &Vec<u8>) -> (r: bool)
    ensures
        r <==> v@ == zeros(v@.len()),
{
    let mut i: usize = 0;
    while i < v.len()
        invariant
            i <= v@.len(),
            forall|k: int| 0 <= k < i ==> v@[k] == 0,
        decreases v@.len() - i,
    {
        if v[i] != 0 {
            assert(v@[i as int] != zeros(v@.len())[i as int]);
            return false;
        }
        i = i + 1;
    }
    assert(v@ =~= zeros(v@.len()));
    true
}

/// The authentication conversation's explicit states: before the initial
/// token is answered, continuing with a server-assigned session id, and
/// complete.
#[derive(Clone, Copy, Debug, PartialEq, Eq, Structural)]
pub enum AuthState {
    InitialToken,
    Continuing { session_id: u64 },
    Complete { session_id: u64 },
}

/// The session id a state has learned; the first response's id before one is
/// learned.
pub open spec fn auth_session_id(state: AuthState, resp_session_id: u64) -> u64 {
    match state {
        AuthState::InitialToken => resp_session_id,
        AuthState::Continuing { session_id } => session_id,
        AuthState::Complete { session_id } => session_id,
    }
}

/// Advances the authentication conversation on one session-setup response:
/// more-processing-required continues it (capturing the session id the first
/// time), success completes it, and every other status aborts it with that
/// status — there is no retry.
pub fn auth_transition(state: AuthState, resp_session_id: u64, nt_status: u32) -> (r: Result<
    AuthState,
    Error,
>)
    requires
        !(state matches AuthState::Complete { .. }),
    ensures
        (r == Ok::<AuthState, Error>(
            AuthState::Continuing { session_id: auth_session_id(state, resp_session_id) },
        )) <==> nt_status == NT_STATUS_MORE_PROCESSING_REQUIRED,
        (r == Ok::<AuthState, Error>(
            AuthState::Complete { session_id: auth_session_id(state, resp_session_id) },
        )) <==> nt_status == NT_STATUS_SUCCESS,
        (r is Err) <==> (nt_status != NT_STATUS_SUCCESS && nt_status
            != NT_STATUS_MORE_PROCESSING_REQUIRED),
        r matches Err(e) ==> e == Error::NtStatus(nt_status),
{
    let sid = match state {
        AuthState::InitialToken => resp_session_id,
        AuthState::Continuing { session_id } => session_id,
        AuthState::Complete { session_id } => session_id,
    };
    if nt_status == NT_STATUS_MORE_PROCESSING_REQUIRED {
        Ok(AuthState::Continuing { session_id: sid })
    } else if nt_status == NT_STATUS_SUCCESS {
        Ok(AuthState::Complete { session_id: sid })
    } else {
        Err(Error::NtStatus(nt_status))
    }
}

/// The signing key derived for a connection: the counter-mode derivation of
/// 16 bytes from the session secret under the protocol's signing label, with
/// the preauthentication hash as context. A function of the secret and the
/// hash alone.
pub open spec fn spec_signing_key(secret: Seq<u8>, preauth_hash: Seq<u8>) -> Seq<u8> {
    spec_sp800_108_kdf(16, secret, spec_signing_label(), preauth_hash)
}

/// Derives the connection's 16-byte signing key from the authentication
/// mechanism's session secret and the preauthentication hash at completion.
pub fn derive_signing_key(secret: &Vec<u8>, preauth_hash: &Vec<u8>) -> (r: Vec<u8>)
    ensures
        r@ == spec_signing_key(secret@, preauth_hash@),
        r@.len() == 16,
{
    let label = derive_label();
    sp800_108_counter_kdf(16, secret, &label, preauth_hash)
}

/// The derived signing key is deterministic: identical session secrets and
/// preauthentication hashes yield the identical key.
pub proof fn lemma_signing_key_deterministic(s1: Seq<u8>, h1: Seq<u8>, s2: Seq<u8>, h2: Seq<u8>)
    requires
        s1 == s2,
        h1 == h2,
    ensures
        spec_signing_key(s1, h1) == spec_signing_key(s2, h2),
{
}

/// How a bulk loop proceeds after one exchange's terminal status.
#[derive(Clone, Copy, Debug, PartialEq, Eq, Structural)]
pub enum LoopControl {
    /// The exchange succeeded: take its payload and issue the next request.
    Continue,
    /// The expected end-of-iteration status: stop cleanly, with no error.
    Finish,
    /// Any other status: surface it as the loop's error.
    Fail(u32),
}

/// Classifies a directory-listing exchange's terminal status against the
/// status that ends the listing cleanly: the listing goes on exactly on
/// success, ends cleanly exactly on the end status, and fails with every
/// other status.
pub fn classify_loop_status(nt_status: u32, end_status: u32) -> (r: LoopControl)
    requires
        end_status != NT_STATUS_SUCCESS,
    ensures
        (r == LoopControl::Continue) <==> nt_status == NT_STATUS_SUCCESS,
        (r == LoopControl::Finish) <==> nt_status == end_status,
        (r is Fail) <==> (nt_status != NT_STATUS_SUCCESS && nt_status != end_status),
        r matches LoopControl::Fail(s) ==> s == nt_status,
{
    if nt_status == NT_STATUS_SUCCESS {
        LoopControl::Continue
    } else if nt_status == end_status {
        LoopControl::Finish
    } else {
        LoopControl::Fail(nt_status)
    }
}

} // verus!
