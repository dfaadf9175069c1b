//! The remote side of a session: the helper programs and their line protocol.
//!
//! These are rhost's own programs, not a foreign dialect: `scripts` holds one
//! complete shell program per operation and `protocol` parses what it prints.
pub mod list;
pub mod protocol;
pub mod scripts;

