//! Builders for the concrete requests the client issues: each file
//! operation is one generic signed exchange whose request these functions
//! pin down field by field, with the fixed credit parameters each operation
//! uses.

use vstd::prelude::*;
use crate::contexts::{NegotiateContext, NegotiateContextV};
use crate::create::{CreateRequest, CreateRequestV};
use crate::crypto::os_random_bytes;
use crate::fileops::{CloseRequest, CloseRequestV, FlushRequest, FlushRequestV, ReadRequest, ReadRequestV, WriteRequest, WriteRequestV};
use crate::info::{
    FileEndOfFileInformation, FileRenameInformation, FileRenameInformationV, QueryInfoRequest,
    QueryInfoRequestV, SetInfoRequest, SetInfoRequestV,
};
use crate::negotiate::{NegotiateRequest, NegotiateRequestV};
use crate::querydir::{QueryDirectoryRequest, QueryDirectoryRequestV};
use crate::session::{SessionSetupRequest, SessionSetupRequestV, TreeConnectRequest, TreeConnectRequestV};
use crate::types::{
    ACCESS_DELETE, ACCESS_FILE_READ_ATTRIBUTES, ACCESS_GENERIC_READ, ACCESS_GENERIC_WRITE,
    CHANNEL_NONE, CREATE_DISPOSITION_CREATE, CREATE_DISPOSITION_OPEN,
    CREATE_OPTION_DELETE_ON_CLOSE, CREATE_OPTION_NON_DIRECTORY_FILE, Dialect, FileId,
    FILE_INFO_CLASS_END_OF_FILE, FILE_INFO_CLASS_ID_FULL_DIRECTORY, FILE_INFO_CLASS_RENAME,
    HashAlgorithm, IMPERSONATION_IMPERSONATION, INFO_TYPE_FILE, OPLOCK_LEVEL_NONE,
    SECURITY_MODE_SIGNING_ENABLED, SHARE_DELETE, SHARE_READ, SHARE_WRITE, Uuid, wf_file_id,
    wf_uuid,
};

verus! {

// The fixed credit parameters each operation passes to the engine.
pub const NEGOTIATE_CREDIT_CHARGE: u16 = 0;
pub const NEGOTIATE_CREDITS_REQUESTED: u16 = 10;
pub const SESSION_SETUP_CREDIT_CHARGE: u16 = 0;
pub const SESSION_SETUP_CREDITS_REQUESTED: u16 = 130;
pub const FILE_OP_CREDIT_CHARGE: u16 = 1;
pub const FILE_OP_CREDITS_REQUESTED: u16 = 64;
pub const READ_CREDITS_REQUESTED: u16 = 9;

/// The buffer size the directory listing asks the peer to fill.
pub const QUERY_DIRECTORY_BUFFER_LENGTH: u32 = 15380;

/// The buffer size a metadata query asks the peer to fill.
pub const QUERY_INFO_BUFFER_LENGTH: u32 = 8293;

/// Builds the one negotiate request the engine sends: the supported dialect
/// alone, signing advertised, no capability bits, and one
/// preauthentication-integrity context carrying the salt.
pub fn negotiate_request_message(salt: Vec<u8>, client_guid: Uuid) -> (r: NegotiateRequest)
    requires
        salt@.len() == 32,
        wf_uuid(client_guid@),
    ensures
        r@ == (NegotiateRequestV {
            security_mode: SECURITY_MODE_SIGNING_ENABLED,
            capabilities: 0,
            client_guid: client_guid@,
            dialects: seq![Dialect::Smb3_1_1],
            negotiate_contexts: seq![
                NegotiateContextV::PreauthIntegrity {
                    hash_algorithms: seq![HashAlgorithm::Sha512],
                    salt: salt@,
                },
            ],
        }),
{
    let mut dialects: Vec<Dialect> = Vec::new();
    dialects.push(Dialect::Smb3_1_1);
    let mut algorithms: Vec<HashAlgorithm> = Vec::new();
    algorithms.push(HashAlgorithm::Sha512);
    let ghost salt_view = salt@;
    let context = NegotiateContext::PreauthIntegrity { hash_algorithms: algorithms, salt };
    let mut contexts: Vec<NegotiateContext> = Vec::new();
    contexts.push(context);
    let r = NegotiateRequest {
        security_mode: SECURITY_MODE_SIGNING_ENABLED,
        capabilities: 0,
        client_guid,
        dialects,
        negotiate_contexts: contexts,
    };
    assert(r@.dialects =~= seq![Dialect::Smb3_1_1]);
    assert(r@.negotiate_contexts =~= seq![
        NegotiateContextV::PreauthIntegrity {
            hash_algorithms: seq![HashAlgorithm::Sha512],
            salt: salt_view,
        },
    ]);
    r
}

/// Draws the negotiate request's random material — a 32-byte salt and a
/// client GUID — and builds the request around it. The random bytes
/// themselves are unspecified; everything else is pinned.
pub fn fresh_negotiate_request() -> (r: Option<NegotiateRequest>)
    ensures
        r matches Some(m) ==> {
            &&& m@.security_mode == SECURITY_MODE_SIGNING_ENABLED
            &&& m@.capabilities == 0
            &&& wf_uuid(m@.client_guid)
            &&& m@.dialects == seq![Dialect::Smb3_1_1]
            &&& m@.negotiate_contexts.len() == 1
            &&& m@.negotiate_contexts[0] matches NegotiateContextV::PreauthIntegrity {
                hash_algorithms,
                salt,
            } && hash_algorithms == seq![HashAlgorithm::Sha512] && salt.len() == 32
        },
{
    let salt = match os_random_bytes(32) {
        Option::None => {
            return Option::None;
        },
        Option::Some(v) => v,
    };
    let guid_bytes = match os_random_bytes(16) {
        Option::None => {
            return Option::None;
        },
        Option::Some(v) => v,
    };
    let client_guid = Uuid {
        data1: crate::bytes::read_u32(&guid_bytes, 0),
        data2: crate::bytes::read_u16(&guid_bytes, 4),
        data3: crate::bytes::read_u16(&guid_bytes, 6),
        data4: crate::bytes::read_bytes(&guid_bytes, 8, 8),
    };
    Option::Some(negotiate_request_message(salt, client_guid))
}

/// Builds one round of the authentication conversation: a session-setup
/// request carrying the token, never a binding request, signing advertised.
pub fn session_setup_request_message(security_blob: Vec<u8>) -> (r: SessionSetupRequest)
    requires
        security_blob@.len() <= 0xffff,
    ensures
        r@ == (SessionSetupRequestV {
            session_binding_request: false,
            security_mode: SECURITY_MODE_SIGNING_ENABLED as u8,
            capabilities: 0,
            channel: 0,
            previous_session_id: 0,
            security_blob: security_blob@,
        }),
{
    SessionSetupRequest {
        session_binding_request: false,
        security_mode: SECURITY_MODE_SIGNING_ENABLED as u8,
        capabilities: 0,
        channel: 0,
        previous_session_id: 0,
        security_blob,
    }
}

/// Builds the tree-connect request for a share path.
pub fn tree_connect_request_message(path: Vec<u16>) -> (r: TreeConnectRequest)
    requires
        2 * path@.len() <= 0xffff,
    ensures
        r@ == (TreeConnectRequestV { flags: 0, path: path@ }),
{
    TreeConnectRequest { flags: 0, path }
}

/// Builds the create request that opens an existing file for reading and
/// writing.
pub fn look_up_request(name: Vec<u16>) -> (r: CreateRequest)
    requires
        2 * name@.len() <= 0xffff,
    ensures
        r@ == (CreateRequestV {
            requested_oplock_level: OPLOCK_LEVEL_NONE,
            impersonation_level: IMPERSONATION_IMPERSONATION,
            desired_access: ACCESS_GENERIC_READ | ACCESS_GENERIC_WRITE
                | ACCESS_FILE_READ_ATTRIBUTES,
            file_attributes: 0,
            share_access: SHARE_READ | SHARE_WRITE | SHARE_DELETE,
            create_disposition: CREATE_DISPOSITION_OPEN,
            create_options: 0,
            name: name@,
            create_contexts: Seq::empty(),
        }),
{
    let r = CreateRequest {
        requested_oplock_level: OPLOCK_LEVEL_NONE,
        impersonation_level: IMPERSONATION_IMPERSONATION,
        desired_access: ACCESS_GENERIC_READ | ACCESS_GENERIC_WRITE | ACCESS_FILE_READ_ATTRIBUTES,
        file_attributes: 0,
        share_access: SHARE_READ | SHARE_WRITE | SHARE_DELETE,
        create_disposition: CREATE_DISPOSITION_OPEN,
        create_options: 0,
        name,
        create_contexts: Vec::new(),
    };
    assert(r@.create_contexts =~= Seq::<u8>::empty());
    r
}

/// Builds the create request that makes a new non-directory file for
/// writing.
pub fn create_file_request(name: Vec<u16>) -> (r: CreateRequest)
    requires
        2 * name@.len() <= 0xffff,
    ensures
        r@ == (CreateRequestV {
            requested_oplock_level: OPLOCK_LEVEL_NONE,
            impersonation_level: IMPERSONATION_IMPERSONATION,
            desired_access: ACCESS_GENERIC_WRITE | ACCESS_FILE_READ_ATTRIBUTES,
            file_attributes: 0,
            share_access: SHARE_READ | SHARE_WRITE | SHARE_DELETE,
            create_disposition: CREATE_DISPOSITION_CREATE,
            create_options: CREATE_OPTION_NON_DIRECTORY_FILE,
            name: name@,
            create_contexts: Seq::empty(),
        }),
{
    let r = CreateRequest {
        requested_oplock_level: OPLOCK_LEVEL_NONE,
        impersonation_level: IMPERSONATION_IMPERSONATION,
        desired_access: ACCESS_GENERIC_WRITE | ACCESS_FILE_READ_ATTRIBUTES,
        file_attributes: 0,
        share_access: SHARE_READ | SHARE_WRITE | SHARE_DELETE,
        create_disposition: CREATE_DISPOSITION_CREATE,
        create_options: CREATE_OPTION_NON_DIRECTORY_FILE,
        name,
        create_contexts: Vec::new(),
    };
    assert(r@.create_contexts =~= Seq::<u8>::empty());
    r
}

/// Builds the create request that opens a file marked delete-on-close; the
/// deletion takes effect when the returned handle is closed.
pub fn delete_request(name: Vec<u16>) -> (r: CreateRequest)
    requires
        2 * name@.len() <= 0xffff,
    ensures
        r@ == (CreateRequestV {
            requested_oplock_level: OPLOCK_LEVEL_NONE,
            impersonation_level: IMPERSONATION_IMPERSONATION,
            desired_access: ACCESS_DELETE,
            file_attributes: 0,
            share_access: SHARE_READ | SHARE_WRITE | SHARE_DELETE,
            create_disposition: CREATE_DISPOSITION_OPEN,
            create_options: CREATE_OPTION_DELETE_ON_CLOSE,
            name: name@,
            create_contexts: Seq::empty(),
        }),
{
    let r = CreateRequest {
        requested_oplock_level: OPLOCK_LEVEL_NONE,
        impersonation_level: IMPERSONATION_IMPERSONATION,
        desired_access: ACCESS_DELETE,
        file_attributes: 0,
        share_access: SHARE_READ | SHARE_WRITE | SHARE_DELETE,
        create_disposition: CREATE_DISPOSITION_OPEN,
        create_options: CREATE_OPTION_DELETE_ON_CLOSE,
        name,
        create_contexts: Vec::new(),
    };
    assert(r@.create_contexts =~= Seq::<u8>::empty());
    r
}

/// Builds one round of the directory listing: full-directory-information
/// entries matching every name.
pub fn query_directory_request_message(file_id: FileId) -> (r: QueryDirectoryRequest)
    requires
        wf_file_id(file_id@),
    ensures
        r@ == (QueryDirectoryRequestV {
            file_information_class: FILE_INFO_CLASS_ID_FULL_DIRECTORY,
            flags: 0,
            file_index: 0,
            file_id: file_id@,
            output_buffer_length: QUERY_DIRECTORY_BUFFER_LENGTH,
            search_pattern: seq![0x2au16],
        }),
{
    let mut pattern: Vec<u16> = Vec::new();
    pattern.push(0x2a);
    let r = QueryDirectoryRequest {
        file_information_class: FILE_INFO_CLASS_ID_FULL_DIRECTORY,
        flags: 0,
        file_index: 0,
        file_id,
        output_buffer_length: QUERY_DIRECTORY_BUFFER_LENGTH,
        search_pattern: pattern,
    };
    assert(r@.search_pattern =~= seq![0x2au16]);
    r
}

/// Builds the write request for a byte range.
pub fn write_request_message(file_id: FileId, offset: u64, data: Vec<u8>) -> (r: WriteRequest)
    requires
        wf_file_id(file_id@),
        data@.len() <= 0xffff_ffff,
    ensures
        r@ == (WriteRequestV {
            offset,
            file_id: file_id@,
            channel: CHANNEL_NONE,
            remaining_bytes: 0,
            flags: 0,
            data: data@,
        }),
{
    WriteRequest { offset, file_id, channel: CHANNEL_NONE, remaining_bytes: 0, flags: 0, data }
}

/// Builds the read request for a byte range. Its channel information is one
/// zero byte: the peer rejects an empty slot.
pub fn read_request_message(file_id: FileId, offset: u64, count: u32) -> (r: ReadRequest)
    requires
        wf_file_id(file_id@),
    ensures
        r@ == (ReadRequestV {
            padding: 0,
            flags: 0,
            length: count,
            offset,
            file_id: file_id@,
            minimum_bytes: 0,
            channel: CHANNEL_NONE,
            remaining_bytes: 0,
            channel_data: seq![0u8],
        }),
{
    let mut channel_data: Vec<u8> = Vec::new();
    channel_data.push(0);
    let r = ReadRequest {
        padding: 0,
        flags: 0,
        length: count,
        offset,
        file_id,
        minimum_bytes: 0,
        channel: CHANNEL_NONE,
        remaining_bytes: 0,
        channel_data,
    };
    assert(r@.channel_data =~= seq![0u8]);
    r
}

/// Builds the metadata query for a file information class.
pub fn query_info_request_message(file_id: FileId, file_info_class: u8) -> (r: QueryInfoRequest)
    requires
        wf_file_id(file_id@),
    ensures
        r@ == (QueryInfoRequestV {
            info_type: INFO_TYPE_FILE,
            file_info_class,
            output_buffer_length: QUERY_INFO_BUFFER_LENGTH,
            additional_information: 0,
            flags: 0,
            file_id: file_id@,
            buffer: Seq::empty(),
        }),
{
    let r = QueryInfoRequest {
        info_type: INFO_TYPE_FILE,
        file_info_class,
        output_buffer_length: QUERY_INFO_BUFFER_LENGTH,
        additional_information: 0,
        flags: 0,
        file_id,
        buffer: Vec::new(),
    };
    assert(r@.buffer =~= Seq::<u8>::empty());
    r
}

/// Builds the close request for an open handle.
pub fn close_request_message(file_id: FileId) -> (r: CloseRequest)
    requires
        wf_file_id(file_id@),
    ensures
        r@ == (CloseRequestV { flags: 0, file_id: file_id@ }),
{
    CloseRequest { flags: 0, file_id }
}

/// Builds the flush request for an open handle.
pub fn flush_request_message(file_id: FileId) -> (r: FlushRequest)
    requires
        wf_file_id(file_id@),
    ensures
        r@ == (FlushRequestV { file_id: file_id@ }),
{
    FlushRequest { file_id }
}

/// Builds the set-info request that carries a typed payload.
pub fn set_info_request_message(file_id: FileId, file_info_class: u8, buffer: Vec<u8>) -> (r:
    SetInfoRequest)
    requires
        wf_file_id(file_id@),
        buffer@.len() <= 0xffff_ffff,
    ensures
        r@ == (SetInfoRequestV {
            info_type: INFO_TYPE_FILE,
            file_info_class,
            additional_information: 0,
            file_id: file_id@,
            buffer: buffer@,
        }),
{
    SetInfoRequest {
        info_type: INFO_TYPE_FILE,
        file_info_class,
        additional_information: 0,
        file_id,
        buffer,
    }
}

/// Builds the rename payload for a new path; an existing file is never
/// replaced.
pub fn rename_information(path: Vec<u16>) -> (r: FileRenameInformation)
    ensures
        r@ == (FileRenameInformationV { replace_if_exists: false, path: path@ }),
{
    FileRenameInformation { replace_if_exists: false, path }
}

/// Builds the resize payload for a new end-of-file position.
pub fn resize_information(size: i64) -> (r: FileEndOfFileInformation)
    ensures
        r == (FileEndOfFileInformation { end_of_file: size }),
{
    FileEndOfFileInformation { end_of_file: size }
}

} // verus!
