//! File transfer rules: what may cross the boundary, and how it is described.
//!
//! Two mechanisms, both borrowed from tools the user already has: `scp` moves
//! one file in either direction, and `rsync` syncs a directory tree. Neither
//! one resolves a host: the target is passed to the tool verbatim, so OpenSSH
//! stays the source of truth for alias, user, port, key and host-key policy.
//!
//! `args` judges the two operands of a single-file copy and builds scp's argv,
//! `sync` judges a directory sync and builds rsync's, and `changes` reads
//! rsync's itemized plan back. This file owns the refusal every one of them
//! reports.
pub mod args;
pub mod changes;
pub mod remote;
pub mod runner;
pub mod sync;

use vstd::prelude::*;

verus! {

/// A refusal decided before anything runs. The distinction is the error code the
/// caller sees: a path mistake is theirs to fix, while a refused request is a
/// deliberate safety decision.
#[derive(Debug, Clone, PartialEq, Eq)]
pub enum Refusal {
    InvalidPath(String),
    Rejected(String),
}

/// A refusal as characters.
pub enum RefusalView {
    InvalidPath(Seq<char>),
    Rejected(Seq<char>),
}

impl View for Refusal {
    type V = RefusalView;

    open spec fn view(&self) -> RefusalView {
        match self {
            Refusal::InvalidPath(m) => RefusalView::InvalidPath(m@),
            Refusal::Rejected(m) => RefusalView::Rejected(m@),
        }
    }
}

impl Refusal {
    /// The refusal's message, as a caller would print it.
    pub fn message(&self) -> (r: String)
        ensures
            r@ == match self@ {
                RefusalView::InvalidPath(m) => m,
                RefusalView::Rejected(m) => m,
            },
    {
        match self {
            Refusal::InvalidPath(m) => m.clone(),
            Refusal::Rejected(m) => m.clone(),
        }
    }
}

/// A check that passes or refuses, as characters.
pub open spec fn check_view(r: Result<(), Refusal>) -> Result<(), RefusalView> {
    match r {
        Ok(()) => Ok(()),
        Err(e) => Err(e@),
    }
}

/// A text result or a refusal, as characters.
pub open spec fn text_view(r: Result<String, Refusal>) -> Result<Seq<char>, RefusalView> {
    match r {
        Ok(s) => Ok(s@),
        Err(e) => Err(e@),
    }
}

/// What `format!("{s:?}")` makes of `s`: Rust's quoted, escaped debug form.
pub uninterp spec fn debug_str(s: Seq<char>) -> Seq<char>;

/// `<str as Debug>::fmt`: the quoted, escaped spelling a message shows a path
/// in. It depends on the text alone; the escaping rules are left unsaid here.
#[verifier::external_body]
pub(crate) fn debug_quoted(s: &str) -> (r: String)
    ensures
        r@ == debug_str(s@),
{
    format!("{s:?}")
}

/// `a + debug(s) + b`: a message that names a value.
pub fn naming(a: &str, s: &str, b: &str) -> (r: String)
    ensures
        r@ == a@ + debug_str(s@) + b@,
{
    let mut out = String::from_str(a);
    let d = debug_quoted(s);
    out.append(d.as_str());
    out.append(b);
    out
}

/// `a + debug(s)`: a message that ends naming a value.
pub fn named(a: &str, s: &str) -> (r: String)
    ensures
        r@ == a@ + debug_str(s@),
{
    let mut out = String::from_str(a);
    let d = debug_quoted(s);
    out.append(d.as_str());
    out
}

pub(crate) fn invalid(message: String) -> (r: Refusal)
    ensures
        r@ == RefusalView::InvalidPath(message@),
{
    Refusal::InvalidPath(message)
}

pub(crate) fn reject(message: String) -> (r: Refusal)
    ensures
        r@ == RefusalView::Rejected(message@),
{
    Refusal::Rejected(message)
}

} // verus!
