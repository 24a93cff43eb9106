// The wire-format reference vectors: encoding each literal message must
// produce the reference bytes exactly, and decoding the reference bytes must
// reproduce the literal message.

use smb3_client::contexts::NegotiateContext;
use smb3_client::header::{
    decode_request_header, decode_response_header, encode_request_header, encode_response_header,
    RequestHeader, ResponseHeader,
};
use smb3_client::negotiate::{
    decode_negotiate_request, decode_negotiate_response, encode_negotiate_request,
    encode_negotiate_response, NegotiateRequest, NegotiateResponse,
};
use smb3_client::session::{
    decode_session_setup_request, encode_session_setup_request, SessionSetupRequest,
};
use smb3_client::types::{CipherId, Command, Dialect, HashAlgorithm, Uuid};

#[test]
fn negotiate_request() {
    let header = RequestHeader {
        credit_charge: 0,
        channel_sequence: 0,
        command: Command::Negotiate,
        credits_requested: 10,
        flags: 0,
        chain_offset: 0,
        message_id: 0,
        process_id: 0xb75,
        tree_id: 0,
        session_id: 0,
        signature: vec![0; 16],
    };
    let req = NegotiateRequest {
        security_mode: 1,
        capabilities: 0x7f,
        client_guid: Uuid {
            data1: u32::from_le_bytes([0xb2, 0x4b, 0xdf, 0xa8]),
            data2: u16::from_le_bytes([0x77, 0x93]),
            data3: u16::from_le_bytes([0xe6, 0x11]),
            data4: vec![0xa0, 0x1d, 0x00, 0x0c, 0x29, 0x61, 0xf5, 0x5f],
        },
        dialects: vec![
            Dialect::Smb2_0_2,
            Dialect::Smb2_1,
            Dialect::Smb3_0,
            Dialect::Smb3_0_2,
            Dialect::Smb3_1_1,
        ],
        negotiate_contexts: vec![
            NegotiateContext::PreauthIntegrity {
                hash_algorithms: vec![HashAlgorithm::Sha512],
                salt: vec![
                    0xd3, 0xe0, 0xee, 0xb4, 0xd9, 0xee, 0xe0, 0x3b, 0xc8, 0x5d, 0x56, 0xc6, 0x1b,
                    0x56, 0x7f, 0xf6, 0x6c, 0x56, 0x7e, 0x86, 0x82, 0xd1, 0x38, 0xcb, 0x24, 0x8b,
                    0x87, 0x73, 0x8f, 0xab, 0x80, 0xb4,
                ],
            },
            NegotiateContext::Encryption {
                ciphers: vec![CipherId::Aes128Gcm, CipherId::Aes128Ccm],
            },
        ],
    };

    let mut actual: Vec<u8> = Vec::new();
    encode_request_header(&mut actual, &header);
    encode_negotiate_request(&mut actual, &req);

    let expected = [
        0xfe, 0x53, 0x4d, 0x42, 0x40, 0x00, 0x00, 0x00, 0x00, 0x00, 0x00, 0x00, 0x00, 0x00, 0x0a,
        0x00, 0x00, 0x00, 0x00, 0x00, 0x00, 0x00, 0x00, 0x00, 0x00, 0x00, 0x00, 0x00, 0x00, 0x00,
        0x00, 0x00, 0x75, 0x0b, 0x00, 0x00, 0x00, 0x00, 0x00, 0x00, 0x00, 0x00, 0x00, 0x00, 0x00,
        0x00, 0x00, 0x00, 0x00, 0x00, 0x00, 0x00, 0x00, 0x00, 0x00, 0x00, 0x00, 0x00, 0x00, 0x00,
        0x00, 0x00, 0x00, 0x00, 0x24, 0x00, 0x05, 0x00, 0x01, 0x00, 0x00, 0x00, 0x7f, 0x00, 0x00,
        0x00, 0xb2, 0x4b, 0xdf, 0xa8, 0x77, 0x93, 0xe6, 0x11, 0xa0, 0x1d, 0x00, 0x0c, 0x29, 0x61,
        0xf5, 0x5f, 0x70, 0x00, 0x00, 0x00, 0x02, 0x00, 0x00, 0x00, 0x02, 0x02, 0x10, 0x02, 0x00,
        0x03, 0x02, 0x03, 0x11, 0x03, 0x00, 0x00, 0x01, 0x00, 0x26, 0x00, 0x00, 0x00, 0x00, 0x00,
        0x01, 0x00, 0x20, 0x00, 0x01, 0x00, 0xd3, 0xe0, 0xee, 0xb4, 0xd9, 0xee, 0xe0, 0x3b, 0xc8,
        0x5d, 0x56, 0xc6, 0x1b, 0x56, 0x7f, 0xf6, 0x6c, 0x56, 0x7e, 0x86, 0x82, 0xd1, 0x38, 0xcb,
        0x24, 0x8b, 0x87, 0x73, 0x8f, 0xab, 0x80, 0xb4, 0x00, 0x00, 0x02, 0x00, 0x06, 0x00, 0x00,
        0x00, 0x00, 0x00, 0x02, 0x00, 0x02, 0x00, 0x01, 0x00,
    ];
    assert!(
        &expected[..] == &actual[..],
        "\nexpected = {expected:x?}\nactual   = {actual:x?}"
    );

    let frame: Vec<u8> = expected.to_vec();
    let header_back = decode_request_header(&frame).unwrap();
    let req_back = decode_negotiate_request(&frame).unwrap();
    assert_eq!((header_back, req_back), (header, req));
}

#[test]
fn negotiate_response() {
    let header = ResponseHeader {
        credit_charge: 0,
        nt_status: 0,
        command: Command::Negotiate,
        credits_granted: 1,
        flags: 0x1,
        chain_offset: 0,
        message_id: 0,
        process_id: 0,
        tree_id: 0,
        session_id: 0,
        signature: vec![0; 16],
    };
    let req = NegotiateResponse {
        security_mode: 1,
        dialect: Dialect::Smb3_1_1,
        server_guid: Uuid {
            data1: u32::from_le_bytes([0x6e, 0x61, 0x73, 0x75]),
            data2: 0,
            data3: 0,
            data4: vec![0x00, 0x00, 0x00, 0x00, 0x00, 0x00, 0x00, 0x00],
        },
        capabilities: 0x7,
        max_transaction_size: 8388608,
        max_read_size: 8388608,
        max_write_size: 8388608,
        current_time: vec![0xd8, 0x68, 0x92, 0x79, 0x17, 0xed, 0xd9, 0x01],
        boot_time: vec![0; 8],
        security_blob: vec![
            0x60, 0x48, 0x06, 0x06, 0x2b, 0x06, 0x01, 0x05, 0x05, 0x02, 0xa0, 0x3e, 0x30, 0x3c,
            0xa0, 0x0e, 0x30, 0x0c, 0x06, 0x0a, 0x2b, 0x06, 0x01, 0x04, 0x01, 0x82, 0x37, 0x02,
            0x02, 0x0a, 0xa3, 0x2a, 0x30, 0x28, 0xa0, 0x26, 0x1b, 0x24, 0x6e, 0x6f, 0x74, 0x5f,
            0x64, 0x65, 0x66, 0x69, 0x6e, 0x65, 0x64, 0x5f, 0x69, 0x6e, 0x5f, 0x52, 0x46, 0x43,
            0x34, 0x31, 0x37, 0x38, 0x40, 0x70, 0x6c, 0x65, 0x61, 0x73, 0x65, 0x5f, 0x69, 0x67,
            0x6e, 0x6f, 0x72, 0x65,
        ],
        negotiate_contexts: vec![NegotiateContext::PreauthIntegrity {
            hash_algorithms: vec![HashAlgorithm::Sha512],
            salt: vec![
                0x80, 0x13, 0x36, 0x10, 0xa3, 0xb5, 0xab, 0xb5, 0xe4, 0x02, 0xd7, 0xc8, 0x3f,
                0x4e, 0xb6, 0x02, 0x06, 0x6c, 0x11, 0xd6, 0xe7, 0x4d, 0x72, 0xb3, 0x25, 0xe9,
                0x29, 0x2e, 0xee, 0x82, 0x40, 0xab,
            ],
        }],
    };

    let mut actual: Vec<u8> = Vec::new();
    encode_response_header(&mut actual, &header);
    encode_negotiate_response(&mut actual, &req);

    let expected = [
        0xfe, 0x53, 0x4d, 0x42, 0x40, 0x00, 0x00, 0x00, 0x00, 0x00, 0x00, 0x00, 0x00, 0x00, 0x01,
        0x00, 0x01, 0x00, 0x00, 0x00, 0x00, 0x00, 0x00, 0x00, 0x00, 0x00, 0x00, 0x00, 0x00, 0x00,
        0x00, 0x00, 0x00, 0x00, 0x00, 0x00, 0x00, 0x00, 0x00, 0x00, 0x00, 0x00, 0x00, 0x00, 0x00,
        0x00, 0x00, 0x00, 0x00, 0x00, 0x00, 0x00, 0x00, 0x00, 0x00, 0x00, 0x00, 0x00, 0x00, 0x00,
        0x00, 0x00, 0x00, 0x00, 0x41, 0x00, 0x01, 0x00, 0x11, 0x03, 0x01, 0x00, 0x6e, 0x61, 0x73,
        0x75, 0x00, 0x00, 0x00, 0x00, 0x00, 0x00, 0x00, 0x00, 0x00, 0x00, 0x00, 0x00, 0x07, 0x00,
        0x00, 0x00, 0x00, 0x00, 0x80, 0x00, 0x00, 0x00, 0x80, 0x00, 0x00, 0x00, 0x80, 0x00, 0xd8,
        0x68, 0x92, 0x79, 0x17, 0xed, 0xd9, 0x01, 0x00, 0x00, 0x00, 0x00, 0x00, 0x00, 0x00, 0x00,
        0x80, 0x00, 0x4a, 0x00, 0xd0, 0x00, 0x00, 0x00, 0x60, 0x48, 0x06, 0x06, 0x2b, 0x06, 0x01,
        0x05, 0x05, 0x02, 0xa0, 0x3e, 0x30, 0x3c, 0xa0, 0x0e, 0x30, 0x0c, 0x06, 0x0a, 0x2b, 0x06,
        0x01, 0x04, 0x01, 0x82, 0x37, 0x02, 0x02, 0x0a, 0xa3, 0x2a, 0x30, 0x28, 0xa0, 0x26, 0x1b,
        0x24, 0x6e, 0x6f, 0x74, 0x5f, 0x64, 0x65, 0x66, 0x69, 0x6e, 0x65, 0x64, 0x5f, 0x69, 0x6e,
        0x5f, 0x52, 0x46, 0x43, 0x34, 0x31, 0x37, 0x38, 0x40, 0x70, 0x6c, 0x65, 0x61, 0x73, 0x65,
        0x5f, 0x69, 0x67, 0x6e, 0x6f, 0x72, 0x65, 0x00, 0x00, 0x00, 0x00, 0x00, 0x00, 0x01, 0x00,
        0x26, 0x00, 0x00, 0x00, 0x00, 0x00, 0x01, 0x00, 0x20, 0x00, 0x01, 0x00, 0x80, 0x13, 0x36,
        0x10, 0xa3, 0xb5, 0xab, 0xb5, 0xe4, 0x02, 0xd7, 0xc8, 0x3f, 0x4e, 0xb6, 0x02, 0x06, 0x6c,
        0x11, 0xd6, 0xe7, 0x4d, 0x72, 0xb3, 0x25, 0xe9, 0x29, 0x2e, 0xee, 0x82, 0x40, 0xab,
    ];
    assert!(
        &expected[..] == &actual[..],
        "\nexpected = {expected:x?}\nactual   = {actual:x?}"
    );

    let frame: Vec<u8> = expected.to_vec();
    let header_back = decode_response_header(&frame).unwrap();
    let resp_back = decode_negotiate_response(&frame).unwrap();
    assert_eq!((header_back, resp_back), (header, req));
}

#[test]
fn session_setup_request() {
    let header = RequestHeader {
        credit_charge: 0,
        channel_sequence: 0,
        command: Command::SessionSetup,
        credits_requested: 130,
        flags: 0,
        chain_offset: 0,
        message_id: 1,
        process_id: 0xb75,
        tree_id: 0,
        session_id: 0,
        signature: vec![0; 16],
    };
    let req = SessionSetupRequest {
        session_binding_request: false,
        security_mode: 1,
        capabilities: 1,
        channel: 0,
        previous_session_id: 0,
        security_blob: vec![
            0x4e, 0x54, 0x4c, 0x4d, 0x53, 0x53, 0x50, 0x00, 0x01, 0x00, 0x00, 0x00, 0x25, 0x02,
            0x08, 0xe0, 0x00, 0x00, 0x00, 0x00, 0x00, 0x00, 0x00, 0x00, 0x00, 0x00, 0x00, 0x00,
            0x00, 0x00, 0x00, 0x00,
        ],
    };

    let mut actual: Vec<u8> = Vec::new();
    encode_request_header(&mut actual, &header);
    encode_session_setup_request(&mut actual, &req);

    let expected = [
        0xfe, 0x53, 0x4d, 0x42, 0x40, 0x00, 0x00, 0x00, 0x00, 0x00, 0x00, 0x00, 0x01, 0x00, 0x82,
        0x00, 0x00, 0x00, 0x00, 0x00, 0x00, 0x00, 0x00, 0x00, 0x01, 0x00, 0x00, 0x00, 0x00, 0x00,
        0x00, 0x00, 0x75, 0x0b, 0x00, 0x00, 0x00, 0x00, 0x00, 0x00, 0x00, 0x00, 0x00, 0x00, 0x00,
        0x00, 0x00, 0x00, 0x00, 0x00, 0x00, 0x00, 0x00, 0x00, 0x00, 0x00, 0x00, 0x00, 0x00, 0x00,
        0x00, 0x00, 0x00, 0x00, 0x19, 0x00, 0x00, 0x01, 0x01, 0x00, 0x00, 0x00, 0x00, 0x00, 0x00,
        0x00, 0x58, 0x00, 0x20, 0x00, 0x00, 0x00, 0x00, 0x00, 0x00, 0x00, 0x00, 0x00, 0x4e, 0x54,
        0x4c, 0x4d, 0x53, 0x53, 0x50, 0x00, 0x01, 0x00, 0x00, 0x00, 0x25, 0x02, 0x08, 0xe0, 0x00,
        0x00, 0x00, 0x00, 0x00, 0x00, 0x00, 0x00, 0x00, 0x00, 0x00, 0x00, 0x00, 0x00, 0x00, 0x00,
    ];
    assert!(
        &expected[..] == &actual[..],
        "\nexpected = {expected:x?}\nactual   = {actual:x?}"
    );

    let frame: Vec<u8> = expected.to_vec();
    let header_back = decode_request_header(&frame).unwrap();
    let req_back = decode_session_setup_request(&frame).unwrap();
    assert_eq!((header_back, req_back), (header, req));
}
