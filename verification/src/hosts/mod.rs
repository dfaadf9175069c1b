//! `hosts`: what the local OpenSSH client config names.
pub mod dto;
