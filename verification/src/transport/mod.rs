//! Remote capabilities: the OpenSSH transport and its execution protocol.
//!
//! rhost orchestrates the system OpenSSH client; it never reimplements SSH,
//! authentication or host-key policy. `protocol` is the wrapper script and its
//! completion marker, `process` the bounded capture of one stream.
pub mod openssh;
pub mod process;
pub mod protocol;
