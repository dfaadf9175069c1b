//! The remote helper programs, one per session operation.
//!
//! Each script is a complete shell program: it runs under `bash -lc` through the
//! ordinary exec wrapper and reports its outcome as `RHOST_*` lines that
//! [`super::protocol`] parses. Every writer takes the session's `flock` with
//! `flock -n`, anything that types into the pane first checks that the managed
//! shell owns the foreground, and completion is evidence rather than a guess.
pub mod create;
pub mod exec;
pub mod io;
pub mod lifecycle;
pub mod shared;

pub use create::{create, integration_script};
pub use exec::exec;
pub use io::{read, send, SendKind};
pub use lifecycle::{close, list, recover};
