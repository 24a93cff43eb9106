//! Primitive wire types of the protocol: closed enumerations (commands,
//! dialects, algorithm and cipher identifiers) with their strict integer
//! codings, the open set of status codes, named flag and capability bits,
//! and the small fixed-size carriers (GUID, file handle).

use vstd::prelude::*;

verus! {

/// A failure of the wire codec.
#[derive(Clone, Copy, Debug, PartialEq, Eq, Structural)]
pub enum CodecError {
    /// A declared length or offset exceeds the remaining bytes.
    Truncated,
    /// A closed enumeration was given a value with no matching name.
    UnknownVariant,
    /// A tagged-union element's tag and length are inconsistent.
    MalformedContext,
}

/// A failure surfaced by the connection engine.
#[derive(Clone, Copy, Debug, PartialEq, Eq, Structural)]
pub enum Error {
    /// The peer answered with a terminal status that is not success.
    NtStatus(u32),
    /// A frame could not be decoded.
    Codec(CodecError),
}

// Status codes are an open set: the peer may send codes from newer servers,
// so they are carried as a raw `u32` with named constants for the subset the
// engine interprets.
pub const NT_STATUS_SUCCESS: u32 = 0;
pub const NT_STATUS_PENDING: u32 = 0x0000_0103;
pub const NT_STATUS_MORE_PROCESSING_REQUIRED: u32 = 0xC000_0016;
pub const NT_STATUS_NO_MORE_FILES: u32 = 0x8000_0006;
pub const NT_STATUS_END_OF_FILE: u32 = 0xC000_0011;

// Header flag bits.
pub const HEADER_FLAG_RESPONSE: u32 = 0x1;
pub const HEADER_FLAG_SIGNED: u32 = 0x8;

// Security mode bits of negotiate and session-setup messages.
pub const SECURITY_MODE_SIGNING_ENABLED: u16 = 0x1;

// Capability bits of negotiate messages.
pub const CAP_DFS: u32 = 0x1;
pub const CAP_LEASING: u32 = 0x2;
pub const CAP_LARGE_MTU: u32 = 0x4;
pub const CAP_MULTI_CHANNEL: u32 = 0x8;
pub const CAP_PERSISTENT_HANDLES: u32 = 0x10;
pub const CAP_DIRECTORY_LEASING: u32 = 0x20;
pub const CAP_ENCRYPTION: u32 = 0x40;

// Access mask bits.
pub const ACCESS_FILE_READ_ATTRIBUTES: u32 = 0x80;
pub const ACCESS_DELETE: u32 = 0x10000;
pub const ACCESS_GENERIC_WRITE: u32 = 0x4000_0000;
pub const ACCESS_GENERIC_READ: u32 = 0x8000_0000;

// Share access bits.
pub const SHARE_READ: u32 = 0x1;
pub const SHARE_WRITE: u32 = 0x2;
pub const SHARE_DELETE: u32 = 0x4;

// Create dispositions.
pub const CREATE_DISPOSITION_OPEN: u32 = 1;
pub const CREATE_DISPOSITION_CREATE: u32 = 2;

// Create options bits.
pub const CREATE_OPTION_NON_DIRECTORY_FILE: u32 = 0x40;
pub const CREATE_OPTION_DELETE_ON_CLOSE: u32 = 0x1000;

// Oplock levels.
pub const OPLOCK_LEVEL_NONE: u8 = 0;

// Impersonation levels.
pub const IMPERSONATION_IMPERSONATION: u32 = 2;

// Read/write channel values.
pub const CHANNEL_NONE: u32 = 0;

// Info types of query-info and set-info messages.
pub const INFO_TYPE_FILE: u8 = 1;

// Information classes.
pub const FILE_INFO_CLASS_RENAME: u8 = 10;
pub const FILE_INFO_CLASS_END_OF_FILE: u8 = 20;
pub const FILE_INFO_CLASS_ID_BOTH_DIRECTORY: u8 = 37;
pub const FILE_INFO_CLASS_ID_FULL_DIRECTORY: u8 = 38;

// Negotiate-context tags.
pub const CONTEXT_TAG_PREAUTH_INTEGRITY: u16 = 1;
pub const CONTEXT_TAG_ENCRYPTION: u16 = 2;

/// A command code: a closed enumeration; decoding an unassigned value fails.
#[derive(Clone, Copy, Debug, PartialEq, Eq, Structural)]
pub enum Command {
    Negotiate,
    SessionSetup,
    TreeConnect,
    Create,
    Close,
    Flush,
    Read,
    Write,
    QueryDirectory,
    QueryInfo,
    SetInfo,
}

/// The wire value of a command code.
pub open spec fn command_u16(c: Command) -> u16 {
    match c {
        Command::Negotiate => 0,
        Command::SessionSetup => 1,
        Command::TreeConnect => 3,
        Command::Create => 5,
        Command::Close => 6,
        Command::Flush => 7,
        Command::Read => 8,
        Command::Write => 9,
        Command::QueryDirectory => 0x0e,
        Command::QueryInfo => 0x10,
        Command::SetInfo => 0x11,
    }
}

/// The command named by a wire value, if any.
pub open spec fn command_from_u16(v: u16) -> Option<Command> {
    if v == 0 {
        Some(Command::Negotiate)
    } else if v == 1 {
        Some(Command::SessionSetup)
    } else if v == 3 {
        Some(Command::TreeConnect)
    } else if v == 5 {
        Some(Command::Create)
    } else if v == 6 {
        Some(Command::Close)
    } else if v == 7 {
        Some(Command::Flush)
    } else if v == 8 {
        Some(Command::Read)
    } else if v == 9 {
        Some(Command::Write)
    } else if v == 0x0e {
        Some(Command::QueryDirectory)
    } else if v == 0x10 {
        Some(Command::QueryInfo)
    } else if v == 0x11 {
        Some(Command::SetInfo)
    } else {
        None
    }
}

/// Decoding the wire value of a command yields the command back.
pub broadcast proof fn lemma_command_roundtrip(c: Command)
    ensures
        command_from_u16(#[trigger] command_u16(c)) == Some(c),
{
}

/// Returns the wire value of a command.
pub fn command_to_wire(c: Command) -> (r: u16)
    ensures
        r == command_u16(c),
{
    match c {
        Command::Negotiate => 0,
        Command::SessionSetup => 1,
        Command::TreeConnect => 3,
        Command::Create => 5,
        Command::Close => 6,
        Command::Flush => 7,
        Command::Read => 8,
        Command::Write => 9,
        Command::QueryDirectory => 0x0e,
        Command::QueryInfo => 0x10,
        Command::SetInfo => 0x11,
    }
}

/// Looks a command up by its wire value.
pub fn command_from_wire(v: u16) -> (r: Option<Command>)
    ensures
        r == command_from_u16(v),
{
    if v == 0 {
        Some(Command::Negotiate)
    } else if v == 1 {
        Some(Command::SessionSetup)
    } else if v == 3 {
        Some(Command::TreeConnect)
    } else if v == 5 {
        Some(Command::Create)
    } else if v == 6 {
        Some(Command::Close)
    } else if v == 7 {
        Some(Command::Flush)
    } else if v == 8 {
        Some(Command::Read)
    } else if v == 9 {
        Some(Command::Write)
    } else if v == 0x0e {
        Some(Command::QueryDirectory)
    } else if v == 0x10 {
        Some(Command::QueryInfo)
    } else if v == 0x11 {
        Some(Command::SetInfo)
    } else {
        None
    }
}

/// A protocol dialect: a closed enumeration.
#[derive(Clone, Copy, Debug, PartialEq, Eq, Structural)]
pub enum Dialect {
    Smb2_0_2,
    Smb2_1,
    Smb3_0,
    Smb3_0_2,
    Smb3_1_1,
}

/// The wire value of a dialect.
pub open spec fn dialect_u16(d: Dialect) -> u16 {
    match d {
        Dialect::Smb2_0_2 => 0x0202,
        Dialect::Smb2_1 => 0x0210,
        Dialect::Smb3_0 => 0x0300,
        Dialect::Smb3_0_2 => 0x0302,
        Dialect::Smb3_1_1 => 0x0311,
    }
}

/// The dialect named by a wire value, if any.
pub open spec fn dialect_from_u16(v: u16) -> Option<Dialect> {
    if v == 0x0202 {
        Some(Dialect::Smb2_0_2)
    } else if v == 0x0210 {
        Some(Dialect::Smb2_1)
    } else if v == 0x0300 {
        Some(Dialect::Smb3_0)
    } else if v == 0x0302 {
        Some(Dialect::Smb3_0_2)
    } else if v == 0x0311 {
        Some(Dialect::Smb3_1_1)
    } else {
        None
    }
}

/// Decoding the wire value of a dialect yields the dialect back.
pub broadcast proof fn lemma_dialect_roundtrip(d: Dialect)
    ensures
        dialect_from_u16(#[trigger] dialect_u16(d)) == Some(d),
{
}

/// Returns the wire value of a dialect.
pub fn dialect_to_wire(d: Dialect) -> (r: u16)
    ensures
        r == dialect_u16(d),
{
    match d {
        Dialect::Smb2_0_2 => 0x0202,
        Dialect::Smb2_1 => 0x0210,
        Dialect::Smb3_0 => 0x0300,
        Dialect::Smb3_0_2 => 0x0302,
        Dialect::Smb3_1_1 => 0x0311,
    }
}

/// Looks a dialect up by its wire value.
pub fn dialect_from_wire(v: u16) -> (r: Option<Dialect>)
    ensures
        r == dialect_from_u16(v),
{
    if v == 0x0202 {
        Some(Dialect::Smb2_0_2)
    } else if v == 0x0210 {
        Some(Dialect::Smb2_1)
    } else if v == 0x0300 {
        Some(Dialect::Smb3_0)
    } else if v == 0x0302 {
        Some(Dialect::Smb3_0_2)
    } else if v == 0x0311 {
        Some(Dialect::Smb3_1_1)
    } else {
        None
    }
}

/// A preauthentication-integrity hash algorithm: a closed enumeration.
#[derive(Clone, Copy, Debug, PartialEq, Eq, Structural)]
pub enum HashAlgorithm {
    Sha512,
}

/// The wire value of a hash algorithm.
pub open spec fn hash_alg_u16(h: HashAlgorithm) -> u16 {
    match h {
        HashAlgorithm::Sha512 => 1,
    }
}

/// The hash algorithm named by a wire value, if any.
pub open spec fn hash_alg_from_u16(v: u16) -> Option<HashAlgorithm> {
    if v == 1 {
        Some(HashAlgorithm::Sha512)
    } else {
        None
    }
}

/// Decoding the wire value of a hash algorithm yields the algorithm back.
pub broadcast proof fn lemma_hash_alg_roundtrip(h: HashAlgorithm)
    ensures
        hash_alg_from_u16(#[trigger] hash_alg_u16(h)) == Some(h),
{
}

/// Returns the wire value of a hash algorithm.
pub fn hash_alg_to_wire(h: HashAlgorithm) -> (r: u16)
    ensures
        r == hash_alg_u16(h),
{
    match h {
        HashAlgorithm::Sha512 => 1,
    }
}

/// Looks a hash algorithm up by its wire value.
pub fn hash_alg_from_wire(v: u16) -> (r: Option<HashAlgorithm>)
    ensures
        r == hash_alg_from_u16(v),
{
    if v == 1 {
        Some(HashAlgorithm::Sha512)
    } else {
        None
    }
}

/// An encryption cipher identifier: a closed enumeration.
#[derive(Clone, Copy, Debug, PartialEq, Eq, Structural)]
pub enum CipherId {
    Aes128Ccm,
    Aes128Gcm,
}

/// The wire value of a cipher identifier.
pub open spec fn cipher_u16(c: CipherId) -> u16 {
    match c {
        CipherId::Aes128Ccm => 1,
        CipherId::Aes128Gcm => 2,
    }
}

/// The cipher named by a wire value, if any.
pub open spec fn cipher_from_u16(v: u16) -> Option<CipherId> {
    if v == 1 {
        Some(CipherId::Aes128Ccm)
    } else if v == 2 {
        Some(CipherId::Aes128Gcm)
    } else {
        None
    }
}

/// Decoding the wire value of a cipher yields the cipher back.
pub broadcast proof fn lemma_cipher_roundtrip(c: CipherId)
    ensures
        cipher_from_u16(#[trigger] cipher_u16(c)) == Some(c),
{
}

/// Returns the wire value of a cipher.
pub fn cipher_to_wire(c: CipherId) -> (r: u16)
    ensures
        r == cipher_u16(c),
{
    match c {
        CipherId::Aes128Ccm => 1,
        CipherId::Aes128Gcm => 2,
    }
}

/// Looks a cipher up by its wire value.
pub fn cipher_from_wire(v: u16) -> (r: Option<CipherId>)
    ensures
        r == cipher_from_u16(v),
{
    if v == 1 {
        Some(CipherId::Aes128Ccm)
    } else if v == 2 {
        Some(CipherId::Aes128Gcm)
    } else {
        None
    }
}

/// A client or server GUID: three little-endian integer fields and eight raw
/// trailing bytes, 16 bytes on the wire.
#[derive(Clone, Debug, PartialEq, Eq)]
pub struct Uuid {
    pub data1: u32,
    pub data2: u16,
    pub data3: u16,
    pub data4: Vec<u8>,
}

/// The mathematical value of a [`Uuid`].
pub struct UuidV {
    pub data1: u32,
    pub data2: u16,
    pub data3: u16,
    pub data4: Seq<u8>,
}

impl View for Uuid {
    type V = UuidV;

    open spec fn view(&self) -> UuidV {
        UuidV { data1: self.data1, data2: self.data2, data3: self.data3, data4: self.data4@ }
    }
}

/// A well-formed GUID carries exactly eight trailing bytes.
pub open spec fn wf_uuid(u: UuidV) -> bool {
    u.data4.len() == 8
}

/// An opaque 16-byte handle to an open file or directory, issued by the peer
/// and never interpreted by the engine.
#[derive(Clone, Debug, PartialEq, Eq)]
pub struct FileId(pub Vec<u8>);

impl View for FileId {
    type V = Seq<u8>;

    open spec fn view(&self) -> Seq<u8> {
        self.0@
    }
}

/// A well-formed file handle is exactly 16 bytes.
pub open spec fn wf_file_id(f: Seq<u8>) -> bool {
    f.len() == 16
}

} // verus!
