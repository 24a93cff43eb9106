// The connection engine's observable behaviour: message-id sequencing, the
// rolling preauthentication hash (cross-checked against the hash crate
// directly), signing, pending classification, the authentication state
// machine, and the bulk-loop termination rules.

use cmac::Mac as _;
use sha2::Digest as _;
use smb3_client::engine::{
    auth_transition, classify_loop_status, derive_signing_key, AuthState, Connection,
    FrameOutcome, LoopControl,
};
use smb3_client::header::{encode_response_header, ResponseHeader};
use smb3_client::types::{
    Command, Error, NT_STATUS_END_OF_FILE, NT_STATUS_MORE_PROCESSING_REQUIRED,
    NT_STATUS_NO_MORE_FILES, NT_STATUS_PENDING, NT_STATUS_SUCCESS,
};

fn response_frame(nt_status: u32, signature: Vec<u8>) -> Vec<u8> {
    let header = ResponseHeader {
        credit_charge: 0,
        nt_status,
        command: Command::Negotiate,
        credits_granted: 1,
        flags: 0x1,
        chain_offset: 0,
        message_id: 0,
        process_id: 0,
        tree_id: 0,
        session_id: 0,
        signature,
    };
    let mut frame: Vec<u8> = Vec::new();
    encode_response_header(&mut frame, &header);
    frame
}

#[test]
fn message_id_increments_per_request() {
    let mut conn = Connection::new();
    assert_eq!(conn.next_message_id, 0);
    let body: Vec<u8> = vec![1, 2, 3];
    let f0 = conn.prepare_request(Command::Negotiate, 0, 10, 0, 0, None, &body);
    assert_eq!(&f0[24..32], &0u64.to_le_bytes());
    assert_eq!(conn.next_message_id, 1);

    // An intervening pending response must not disturb the counter.
    let pending = response_frame(NT_STATUS_PENDING, vec![0; 16]);
    assert!(matches!(conn.accept_frame(&pending), FrameOutcome::Pending));
    assert_eq!(conn.next_message_id, 1);

    let f1 = conn.prepare_request(Command::Negotiate, 0, 10, 0, 0, None, &body);
    assert_eq!(&f1[24..32], &1u64.to_le_bytes());
    assert_eq!(conn.next_message_id, 2);
}

#[test]
fn preauth_hash_folds_unsigned_messages_only() {
    let mut conn = Connection::new();
    assert_eq!(conn.pre_auth_hash, vec![0u8; 64]);

    let body: Vec<u8> = vec![0xaa, 0xbb];
    let f0 = conn.prepare_request(Command::Negotiate, 0, 10, 0, 0, None, &body);
    let mut h = sha2::Sha512::new();
    h.update(&[0u8; 64]);
    h.update(&f0);
    let expected_1: Vec<u8> = h.finalize().to_vec();
    assert_eq!(conn.pre_auth_hash, expected_1);

    // An unsigned response folds in; a signed one must not.
    let resp = response_frame(NT_STATUS_SUCCESS, vec![0; 16]);
    conn.accept_frame(&resp);
    let mut h = sha2::Sha512::new();
    h.update(&expected_1);
    h.update(&resp);
    let expected_2: Vec<u8> = h.finalize().to_vec();
    assert_eq!(conn.pre_auth_hash, expected_2);

    let signed_resp = response_frame(NT_STATUS_SUCCESS, vec![7; 16]);
    conn.accept_frame(&signed_resp);
    assert_eq!(conn.pre_auth_hash, expected_2);

    // A signed request must not perturb the hash either.
    let key: Vec<u8> = vec![0x11; 16];
    let _ = conn.prepare_request(Command::Write, 1, 64, 5, 9, Some(&key), &body);
    assert_eq!(conn.pre_auth_hash, expected_2);
}

#[test]
fn signed_request_carries_cmac_signature() {
    let mut conn = Connection::new();
    let key: Vec<u8> = vec![0x42; 16];
    let body: Vec<u8> = vec![1, 2, 3, 4];
    let frame = conn.prepare_request(Command::Write, 1, 64, 77, 5, Some(&key), &body);

    // The signature is the CMAC of the frame with its signature field
    // zeroed, recomputed here with the cipher crates directly.
    let mut unsigned = frame.clone();
    for b in unsigned[48..64].iter_mut() {
        *b = 0;
    }
    let mut mac = cmac::Cmac::<aes::Aes128>::new_from_slice(&key).unwrap();
    mac.update(&unsigned);
    let tag: Vec<u8> = mac.finalize().into_bytes().to_vec();
    assert_eq!(&frame[48..64], &tag[..]);
    // The signing bit is set in the header flags.
    assert_eq!(frame[16] & 0x8, 0x8);
}

#[test]
fn pending_is_never_a_final_outcome() {
    let mut conn = Connection::new();
    let pending = response_frame(NT_STATUS_PENDING, vec![0; 16]);
    assert!(matches!(conn.accept_frame(&pending), FrameOutcome::Pending));

    let ok = response_frame(NT_STATUS_SUCCESS, vec![0; 16]);
    assert!(matches!(conn.accept_frame(&ok), FrameOutcome::Accepted(_)));

    let more = response_frame(NT_STATUS_MORE_PROCESSING_REQUIRED, vec![0; 16]);
    assert!(matches!(conn.accept_frame(&more), FrameOutcome::Accepted(_)));

    let denied = response_frame(0xC000_0022, vec![0; 16]);
    match conn.accept_frame(&denied) {
        FrameOutcome::Failed(h) => assert_eq!(h.nt_status, 0xC000_0022),
        other => panic!("expected a failure, got {other:?}"),
    }

    let garbage: Vec<u8> = vec![1, 2, 3];
    assert!(matches!(
        conn.accept_frame(&garbage),
        FrameOutcome::Malformed(_)
    ));
}

#[test]
fn auth_state_machine_transitions() {
    let s = auth_transition(AuthState::InitialToken, 555, NT_STATUS_MORE_PROCESSING_REQUIRED);
    assert_eq!(s, Ok(AuthState::Continuing { session_id: 555 }));

    // The session id learned first is kept on later rounds.
    let s = auth_transition(
        AuthState::Continuing { session_id: 555 },
        999,
        NT_STATUS_MORE_PROCESSING_REQUIRED,
    );
    assert_eq!(s, Ok(AuthState::Continuing { session_id: 555 }));

    let s = auth_transition(AuthState::Continuing { session_id: 555 }, 999, NT_STATUS_SUCCESS);
    assert_eq!(s, Ok(AuthState::Complete { session_id: 555 }));

    let s = auth_transition(AuthState::InitialToken, 1, 0xC000_006D);
    assert_eq!(s, Err(Error::NtStatus(0xC000_006D)));
}

#[test]
fn directory_loop_ends_exactly_on_no_more_files() {
    assert_eq!(
        classify_loop_status(NT_STATUS_SUCCESS, NT_STATUS_NO_MORE_FILES),
        LoopControl::Continue
    );
    assert_eq!(
        classify_loop_status(NT_STATUS_NO_MORE_FILES, NT_STATUS_NO_MORE_FILES),
        LoopControl::Finish
    );
    assert_eq!(
        classify_loop_status(0xC000_0022, NT_STATUS_NO_MORE_FILES),
        LoopControl::Fail(0xC000_0022)
    );
    // End-of-file is an ordinary failure for the directory loop.
    assert_eq!(
        classify_loop_status(NT_STATUS_END_OF_FILE, NT_STATUS_NO_MORE_FILES),
        LoopControl::Fail(NT_STATUS_END_OF_FILE)
    );
}

#[test]
fn bulk_read_ends_exactly_on_end_of_file() {
    assert_eq!(
        classify_loop_status(NT_STATUS_SUCCESS, NT_STATUS_END_OF_FILE),
        LoopControl::Continue
    );
    assert_eq!(
        classify_loop_status(NT_STATUS_END_OF_FILE, NT_STATUS_END_OF_FILE),
        LoopControl::Finish
    );
    assert_eq!(
        classify_loop_status(NT_STATUS_NO_MORE_FILES, NT_STATUS_END_OF_FILE),
        LoopControl::Fail(NT_STATUS_NO_MORE_FILES)
    );
}

#[test]
fn signing_key_is_deterministic() {
    let secret: Vec<u8> = vec![0x5a; 16];
    let hash: Vec<u8> = vec![0x33; 64];
    let k1 = derive_signing_key(&secret, &hash);
    let k2 = derive_signing_key(&secret, &hash);
    assert_eq!(k1, k2);
    assert_eq!(k1.len(), 16);

    // A different hash yields a different key in practice.
    let other_hash: Vec<u8> = vec![0x34; 64];
    let k3 = derive_signing_key(&secret, &other_hash);
    assert!(k1 != k3);
}

#[test]
fn signing_key_matches_direct_derivation() {
    // One derivation block suffices for 16 bytes: the key is the first half
    // of HMAC-SHA256(secret, be32(1) || label || 0 || hash || be32(128)),
    // recomputed here with the mac crates directly.
    let secret: Vec<u8> = vec![0x5a; 16];
    let hash: Vec<u8> = vec![0x33; 64];
    let key = derive_signing_key(&secret, &hash);

    let mut input: Vec<u8> = Vec::new();
    input.extend_from_slice(&1u32.to_be_bytes());
    input.extend_from_slice(b"SMBSigningKey\0");
    input.push(0);
    input.extend_from_slice(&hash);
    input.extend_from_slice(&128u32.to_be_bytes());
    let mut mac = hmac::Hmac::<sha2::Sha256>::new_from_slice(&secret).unwrap();
    hmac::Mac::update(&mut mac, &input);
    let block: Vec<u8> = hmac::Mac::finalize(mac).into_bytes().to_vec();
    assert_eq!(&key[..], &block[..16]);
}
