// Decode-of-encode checks on concrete values for each message type, the
// forward-compatible skip of unknown-tagged contexts, and the codec's error
// classification.

use smb3_client::contexts::NegotiateContext;
use smb3_client::create::{
    decode_create_request, decode_create_response, encode_create_request, encode_create_response,
    CreateRequest, CreateResponse,
};
use smb3_client::fileops::{
    decode_close_request, decode_close_response, decode_flush_request, decode_flush_response,
    decode_read_request, decode_read_response, decode_write_request, decode_write_response,
    encode_close_request, encode_close_response, encode_flush_request, encode_flush_response,
    encode_read_request, encode_read_response, encode_write_request, encode_write_response,
    CloseRequest, CloseResponse, FlushRequest, FlushResponse, ReadRequest, ReadResponse,
    WriteRequest, WriteResponse,
};
use smb3_client::header::{decode_request_header, encode_request_header, RequestHeader};
use smb3_client::info::{
    decode_file_end_of_file_information, decode_file_rename_information,
    decode_query_info_request, decode_query_info_response, decode_set_info_request,
    decode_set_info_response, encode_file_end_of_file_information,
    encode_file_rename_information, encode_query_info_request, encode_query_info_response,
    encode_set_info_request, encode_set_info_response, FileEndOfFileInformation,
    FileRenameInformation, QueryInfoRequest, QueryInfoResponse, SetInfoRequest, SetInfoResponse,
};
use smb3_client::negotiate::{
    decode_negotiate_request, encode_negotiate_request, NegotiateRequest,
};
use smb3_client::querydir::{
    decode_query_directory_request, decode_query_directory_response,
    encode_query_directory_request, encode_query_directory_response,
    FileIdBothDirectoryInformation, QueryDirectoryRequest, QueryDirectoryResponse,
};
use smb3_client::session::{
    decode_session_setup_response, decode_tree_connect_request, decode_tree_connect_response,
    encode_session_setup_response, encode_tree_connect_request, encode_tree_connect_response,
    SessionSetupResponse, TreeConnectRequest, TreeConnectResponse,
};
use smb3_client::types::{CipherId, CodecError, Command, Dialect, FileId, HashAlgorithm, Uuid};

fn with_header(command: Command, body_encoder: impl Fn(&mut Vec<u8>)) -> Vec<u8> {
    let header = RequestHeader {
        credit_charge: 1,
        channel_sequence: 0,
        command,
        credits_requested: 64,
        flags: 0,
        chain_offset: 0,
        message_id: 7,
        process_id: 0,
        tree_id: 3,
        session_id: 0x1122334455667788,
        signature: vec![0; 16],
    };
    let mut frame: Vec<u8> = Vec::new();
    encode_request_header(&mut frame, &header);
    body_encoder(&mut frame);
    frame
}

fn sample_file_id() -> FileId {
    FileId(vec![
        1, 2, 3, 4, 5, 6, 7, 8, 9, 10, 11, 12, 13, 14, 15, 16,
    ])
}

#[test]
fn unknown_context_is_skipped() {
    // An element with an unassigned tag sits in front of a known one; the
    // decoder must carry it verbatim and still decode what follows.
    let req = NegotiateRequest {
        security_mode: 1,
        capabilities: 0,
        client_guid: Uuid { data1: 9, data2: 8, data3: 7, data4: vec![0; 8] },
        dialects: vec![Dialect::Smb3_1_1],
        negotiate_contexts: vec![
            NegotiateContext::Unknown { tag: 0x99, data: vec![0xaa, 0xbb, 0xcc] },
            NegotiateContext::Encryption { ciphers: vec![CipherId::Aes128Ccm] },
        ],
    };
    let frame = with_header(Command::Negotiate, |out| encode_negotiate_request(out, &req));
    let back = decode_negotiate_request(&frame).unwrap();
    assert_eq!(back, req);
    assert!(matches!(
        back.negotiate_contexts[1],
        NegotiateContext::Encryption { .. }
    ));
}

#[test]
fn tree_connect_roundtrip() {
    let req = TreeConnectRequest { flags: 0, path: vec![0x5c, 0x5c, 0x73, 0x76] };
    let frame = with_header(Command::TreeConnect, |out| encode_tree_connect_request(out, &req));
    assert_eq!(decode_tree_connect_request(&frame).unwrap(), req);

    let resp = TreeConnectResponse {
        share_type: 1,
        share_flags: 0x30,
        capabilities: 0,
        maximal_access: 0x1f01ff,
    };
    let frame = with_header(Command::TreeConnect, |out| encode_tree_connect_response(out, &resp));
    assert_eq!(decode_tree_connect_response(&frame).unwrap(), resp);
}

#[test]
fn session_setup_response_roundtrip() {
    let resp = SessionSetupResponse { session_flags: 0, security_blob: vec![1, 2, 3, 4, 5] };
    let frame = with_header(Command::SessionSetup, |out| {
        encode_session_setup_response(out, &resp)
    });
    assert_eq!(decode_session_setup_response(&frame).unwrap(), resp);
}

#[test]
fn create_roundtrip() {
    let req = CreateRequest {
        requested_oplock_level: 0,
        impersonation_level: 2,
        desired_access: 0x8000_0080,
        file_attributes: 0,
        share_access: 7,
        create_disposition: 1,
        create_options: 0,
        name: vec![0x66, 0x6f, 0x6f],
        create_contexts: vec![],
    };
    let frame = with_header(Command::Create, |out| encode_create_request(out, &req));
    assert_eq!(decode_create_request(&frame).unwrap(), req);

    let resp = CreateResponse {
        oplock_level: 0,
        flags: 0,
        create_action: 1,
        creation_time: vec![1; 8],
        last_access_time: vec![2; 8],
        last_write_time: vec![3; 8],
        change_time: vec![4; 8],
        allocation_size: 4096,
        end_of_file: 123,
        file_attributes: 0x20,
        file_id: sample_file_id(),
        create_contexts: vec![],
    };
    let frame = with_header(Command::Create, |out| encode_create_response(out, &resp));
    assert_eq!(decode_create_response(&frame).unwrap(), resp);
}

#[test]
fn read_write_roundtrip() {
    let req = ReadRequest {
        padding: 0,
        flags: 0,
        length: 65536,
        offset: 8192,
        file_id: sample_file_id(),
        minimum_bytes: 0,
        channel: 0,
        remaining_bytes: 0,
        channel_data: vec![0],
    };
    let frame = with_header(Command::Read, |out| encode_read_request(out, &req));
    assert_eq!(decode_read_request(&frame).unwrap(), req);

    let resp = ReadResponse { data_remaining: 0, data: vec![9, 8, 7, 6] };
    let frame = with_header(Command::Read, |out| encode_read_response(out, &resp));
    assert_eq!(decode_read_response(&frame).unwrap(), resp);

    let wreq = WriteRequest {
        offset: 0,
        file_id: sample_file_id(),
        channel: 0,
        remaining_bytes: 0,
        flags: 0,
        data: vec![0xde, 0xad, 0xbe, 0xef],
    };
    let frame = with_header(Command::Write, |out| encode_write_request(out, &wreq));
    assert_eq!(decode_write_request(&frame).unwrap(), wreq);

    let wresp = WriteResponse { count: 4, remaining: 0 };
    let frame = with_header(Command::Write, |out| encode_write_response(out, &wresp));
    assert_eq!(decode_write_response(&frame).unwrap(), wresp);
}

#[test]
fn close_flush_roundtrip() {
    let req = CloseRequest { flags: 0, file_id: sample_file_id() };
    let frame = with_header(Command::Close, |out| encode_close_request(out, &req));
    assert_eq!(decode_close_request(&frame).unwrap(), req);

    let resp = CloseResponse {
        flags: 0,
        creation_time: vec![0; 8],
        last_access_time: vec![0; 8],
        last_write_time: vec![0; 8],
        change_time: vec![0; 8],
        allocation_size: 0,
        end_of_file: 0,
        file_attributes: 0,
    };
    let frame = with_header(Command::Close, |out| encode_close_response(out, &resp));
    assert_eq!(decode_close_response(&frame).unwrap(), resp);

    let freq = FlushRequest { file_id: sample_file_id() };
    let frame = with_header(Command::Flush, |out| encode_flush_request(out, &freq));
    assert_eq!(decode_flush_request(&frame).unwrap(), freq);

    let fresp = FlushResponse {};
    let frame = with_header(Command::Flush, |out| encode_flush_response(out, &fresp));
    assert_eq!(decode_flush_response(&frame).unwrap(), fresp);
}

fn sample_entry(name: Vec<u16>, size: u64) -> FileIdBothDirectoryInformation {
    FileIdBothDirectoryInformation {
        file_index: 0,
        creation_time: vec![1; 8],
        last_access_time: vec![2; 8],
        last_write_time: vec![3; 8],
        change_time: vec![4; 8],
        end_of_file: size,
        allocation_size: size,
        file_attributes: 0x20,
        ea_size: 0,
        short_name_length: 0,
        short_name: vec![0; 24],
        file_id: 42,
        file_name: name,
    }
}

#[test]
fn query_directory_roundtrip() {
    let req = QueryDirectoryRequest {
        file_information_class: 38,
        flags: 0,
        file_index: 0,
        file_id: sample_file_id(),
        output_buffer_length: 15380,
        search_pattern: vec![0x2a],
    };
    let frame = with_header(Command::QueryDirectory, |out| {
        encode_query_directory_request(out, &req)
    });
    assert_eq!(decode_query_directory_request(&frame).unwrap(), req);

    // Two chained entries exercise the next-entry-offset step and its
    // padding; an odd-length name forces a nonzero pad.
    let resp = QueryDirectoryResponse {
        entries: vec![
            sample_entry(vec![0x2e], 0),
            sample_entry(vec![0x66, 0x6f, 0x6f, 0x2e, 0x74], 77),
        ],
    };
    let frame = with_header(Command::QueryDirectory, |out| {
        encode_query_directory_response(out, &resp)
    });
    assert_eq!(decode_query_directory_response(&frame).unwrap(), resp);

    let empty = QueryDirectoryResponse { entries: vec![] };
    let frame = with_header(Command::QueryDirectory, |out| {
        encode_query_directory_response(out, &empty)
    });
    assert_eq!(decode_query_directory_response(&frame).unwrap(), empty);
}

#[test]
fn info_roundtrip() {
    let req = QueryInfoRequest {
        info_type: 1,
        file_info_class: 5,
        output_buffer_length: 8293,
        additional_information: 0,
        flags: 0,
        file_id: sample_file_id(),
        buffer: vec![],
    };
    let frame = with_header(Command::QueryInfo, |out| encode_query_info_request(out, &req));
    assert_eq!(decode_query_info_request(&frame).unwrap(), req);

    let resp = QueryInfoResponse { buffer: vec![1, 2, 3] };
    let frame = with_header(Command::QueryInfo, |out| encode_query_info_response(out, &resp));
    assert_eq!(decode_query_info_response(&frame).unwrap(), resp);

    let sreq = SetInfoRequest {
        info_type: 1,
        file_info_class: 10,
        additional_information: 0,
        file_id: sample_file_id(),
        buffer: vec![4, 5, 6],
    };
    let frame = with_header(Command::SetInfo, |out| encode_set_info_request(out, &sreq));
    assert_eq!(decode_set_info_request(&frame).unwrap(), sreq);

    let sresp = SetInfoResponse {};
    let frame = with_header(Command::SetInfo, |out| encode_set_info_response(out, &sresp));
    assert_eq!(decode_set_info_response(&frame).unwrap(), sresp);
}

#[test]
fn info_payload_roundtrip() {
    let rename = FileRenameInformation {
        replace_if_exists: false,
        path: vec![0x62, 0x61, 0x72],
    };
    let mut bytes: Vec<u8> = Vec::new();
    encode_file_rename_information(&mut bytes, &rename);
    assert_eq!(decode_file_rename_information(&bytes).unwrap(), rename);

    let eof = FileEndOfFileInformation { end_of_file: -5 };
    let mut bytes: Vec<u8> = Vec::new();
    encode_file_end_of_file_information(&mut bytes, &eof);
    assert_eq!(decode_file_end_of_file_information(&bytes).unwrap(), eof);
}

#[test]
fn decode_errors() {
    // Too short for a header.
    let short: Vec<u8> = vec![0xfe, 0x53, 0x4d];
    assert_eq!(decode_request_header(&short), Err(CodecError::Truncated));

    // A command value with no name.
    let mut frame: Vec<u8> = with_header(Command::Negotiate, |_| {});
    frame[12] = 0xff;
    frame[13] = 0xff;
    assert_eq!(decode_request_header(&frame), Err(CodecError::UnknownVariant));

    // A preauth-integrity context whose declared length disagrees with its
    // own counts.
    let good = NegotiateRequest {
        security_mode: 1,
        capabilities: 0,
        client_guid: Uuid { data1: 0, data2: 0, data3: 0, data4: vec![0; 8] },
        dialects: vec![Dialect::Smb3_1_1],
        negotiate_contexts: vec![NegotiateContext::PreauthIntegrity {
            hash_algorithms: vec![HashAlgorithm::Sha512],
            salt: vec![0; 4],
        }],
    };
    let mut frame = with_header(Command::Negotiate, |out| encode_negotiate_request(out, &good));
    // The context sits at offset 104; corrupt its salt-length field.
    frame[104 + 8 + 2] = 0xff;
    assert_eq!(
        decode_negotiate_request(&frame),
        Err(CodecError::MalformedContext)
    );

    // A dialect list running past the end of the frame.
    let frame = with_header(Command::Negotiate, |out| {
        // A fixed section announcing five dialects, with none following.
        out.extend_from_slice(&[0x24, 0x00, 0x05, 0x00, 0x01, 0x00, 0x00, 0x00]);
        out.extend_from_slice(&[0; 28]);
    });
    assert_eq!(decode_negotiate_request(&frame), Err(CodecError::Truncated));
}
