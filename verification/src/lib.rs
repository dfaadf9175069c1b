//! A verified core for an OpenSSH-backed remote command model: the values that
//! cross a remote shell boundary, the wrapper protocol and its parsers, the file
//! transfer rules, the session helper programs and the schema-v2 documents.
pub mod text;
pub mod order;
pub mod shell;
pub mod base64;
pub mod session;
pub mod remote;
pub mod transport;
pub mod tunnel;
pub mod domain;
pub mod files;
pub mod fileops;
pub mod host;
pub mod hosts;
pub mod output;
pub mod signals;
