//! `files`: move, sync and edit remote files. `ops` holds the use-case values
//! and the decisions around each remote call; `dto` is the schema-v2 view.
pub mod dto;
pub mod manifest;
pub mod ops;
pub mod patch;
pub mod trees;
