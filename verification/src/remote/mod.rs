//! The shared remote execution substrate: the stable `error.code` an agent
//! branches on, plus whether an operation is safe to retry.
use vstd::prelude::*;

verus! {

/// A use-case failure: the stable code an agent branches on, plus whether the
/// operation is safe to retry.
#[derive(Debug, Clone)]
pub struct Error {
    pub code: &'static str,
    pub message: String,
    pub retryable: bool,
}

impl Error {
    pub fn new(code: &'static str, message: &str) -> (r: Self)
        ensures
            r.code@ == code@,
            r.message@ == message@,
            !r.retryable,
    {
        Self { code, message: String::from_str(message), retryable: false }
    }

    /// Marked only where retrying cannot compound a side effect.
    pub fn retryable(self) -> (r: Self)
        ensures
            r.code@ == self.code@,
            r.message@ == self.message@,
            r.retryable,
    {
        Self { code: self.code, message: self.message, retryable: true }
    }
}

/// A failure rhost cannot classify further: not a code an agent branches on.
pub fn internal(message: &str) -> (r: Error)
    ensures
        r.code@ == "INTERNAL"@,
        r.message@ == message@,
        !r.retryable,
{
    Error::new("INTERNAL", message)
}

} // verus!
