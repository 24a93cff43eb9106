//! A verified client core for the SMB2/3 file-sharing protocol: a binary wire
//! codec for the protocol's offset-addressed messages, and the connection
//! engine state (message sequencing, preauthentication integrity hashing,
//! signing-key derivation, response classification) that drives a connection
//! through negotiation, authentication and signed request exchanges.

pub mod bytes;
pub mod types;
pub mod header;
pub mod lists;
pub mod contexts;
pub mod negotiate;
pub mod session;
pub mod create;
pub mod fileops;
pub mod querydir;
pub mod info;
pub mod crypto;
pub mod engine;
pub mod facade;
