//! The typed remote filesystem-helper protocol and its one-shot bootstrap.
//!
//! One JSON request goes in, one JSON answer comes out. The helper program is
//! executed by the *remote* python3; nothing is installed there. It travels as
//! one quoted argument, so no path or file body ever has to survive a shell
//! parser, and the request goes in on stdin for the same reason. The JSON
//! itself is written and read by the program around the library.
use vstd::prelude::*;
use crate::shell::{quote, spec_quote};
use crate::text::chars_of;
use super::runner::ascii_eq;

verus! {

/// A successful edit answer is small, so this is a ceiling rather than a request
/// to read a whole file.
pub const DEFAULT_HELPER_BYTES: usize = 262144;

/// The remote command that runs a helper program.
pub open spec fn spec_command(program: Seq<char>) -> Seq<char> {
    "command -v python3 >/dev/null 2>&1 || exit 127; python3 -c "@ + spec_quote(program)
}

/// The remote command that runs the helper `program`. A host without python3
/// exits 127, which the caller reports as a missing dependency rather than a
/// tool failure.
pub fn command(program: &str) -> (r: String)
    ensures
        r@ == spec_command(program@),
{
    let mut out = String::from_str("command -v python3 >/dev/null 2>&1 || exit 127; python3 -c ");
    let q = quote(program);
    out.append(q.as_str());
    out
}

/// `min(n, usize::MAX)`.
pub open spec fn saturate(n: int) -> int {
    if n > usize::MAX {
        usize::MAX as int
    } else {
        n
    }
}

/// The transport budget for one helper answer: JSON may escape every ASCII
/// control byte as six bytes, and the document around the payload needs room.
pub fn output_budget(max_bytes: usize) -> (r: usize)
    ensures
        r == saturate(saturate(max_bytes * 6) + 65536),
{
    let scaled = if max_bytes > usize::MAX / 6 {
        usize::MAX
    } else {
        max_bytes * 6
    };
    if scaled > usize::MAX - 65536 {
        usize::MAX
    } else {
        scaled + 65536
    }
}

/// One line-range replacement in a patch request.
#[derive(Debug, Clone)]
pub struct Edit {
    pub start: u64,
    pub end: u64,
    pub text: String,
}

/// Every request shape the helper understands.
#[derive(Debug)]
pub enum Request {
    Resolve { path: String, delete: bool },
    Read { path: String, start: u64, lines: u64, max_bytes: usize },
    Write {
        path: String,
        content: String,
        if_hash: String,
        parents: bool,
        file_mode: Option<String>,
        max_bytes: usize,
    },
    Patch { path: String, edits: Vec<Edit>, if_hash: String, max_bytes: usize },
}

/// One decoded `fs read` answer. Every field is required: a partial answer is
/// not a usable page.
#[derive(Debug)]
pub struct ReadResult {
    pub path: String,
    pub sha256: String,
    pub content: String,
    pub start: u64,
    pub lines: u64,
    pub total_lines: u64,
    pub truncated: bool,
}

/// One decoded `fs write` or `fs patch` answer.
#[derive(Debug)]
pub struct WriteResult {
    pub path: String,
    pub sha256: String,
    pub bytes: u64,
}

/// One decoded destructive-sync target answer.
#[derive(Debug)]
pub struct ResolveResult {
    pub path: String,
}

/// The refusal codes the helper may use, compared without regard to ASCII
/// case. Anything else is the remote inventing an error, which the caller
/// reports as `INTERNAL` rather than a code an agent might branch on.
pub open spec fn known_codes() -> Seq<Seq<char>> {
    seq![
        "CONFIG_INVALID"@,
        "FILE_CONFLICT"@,
        "HASH_REQUIRED"@,
        "FILE_NOT_FOUND"@,
        "FILE_TOO_LARGE"@,
        "INVALID_PATCH"@,
        "INVALID_TARGET"@,
        "INVALID_TEXT"@,
        "SYNC_REJECTED"@,
        "REMOTE_DEPENDENCY_MISSING"@,
        "INTERNAL"@,
        "USAGE_ERROR"@,
    ]
}

/// The first known code equal to `code` ignoring ASCII case, from index `i`.
pub open spec fn spec_known_from(code: Seq<char>, i: int) -> Option<Seq<char>>
    decreases known_codes().len() - i,
{
    if i < 0 || i >= known_codes().len() {
        None
    } else if ascii_eq(known_codes()[i], code) {
        Some(known_codes()[i])
    } else {
        spec_known_from(code, i + 1)
    }
}

/// The canonical spelling of a helper refusal code, or `None` for a code the
/// helper may not use.
pub fn known_refusal_code(code: &str) -> (r: Option<&'static str>)
    ensures
        match r {
            Some(k) => spec_known_from(code@, 0) == Some(k@),
            None => spec_known_from(code@, 0) is None,
        },
{
    let codes: [&'static str; 12] = [
        "CONFIG_INVALID",
        "FILE_CONFLICT",
        "HASH_REQUIRED",
        "FILE_NOT_FOUND",
        "FILE_TOO_LARGE",
        "INVALID_PATCH",
        "INVALID_TARGET",
        "INVALID_TEXT",
        "SYNC_REJECTED",
        "REMOTE_DEPENDENCY_MISSING",
        "INTERNAL",
        "USAGE_ERROR",
    ];
    let c = chars_of(code);
    let mut i: usize = 0;
    while i < 12
        invariant
            i <= 12,
            c@ == code@,
            forall|k: int| 0 <= k < 12 ==> (#[trigger] codes@[k])@ == known_codes()[k],
            spec_known_from(code@, 0) == spec_known_from(code@, i as int),
        decreases 12 - i,
    {
        let known = codes[i];
        if ascii_eq_rev(known, c.as_slice()) {
            return Some(known);
        }
        i = i + 1;
    }
    None
}

/// `known` equals `code` ignoring ASCII case.
pub(crate) fn ascii_eq_rev(known: &str, code: &[char]) -> (r: bool)
    ensures
        r == ascii_eq(known@, code@),
{
    let k = chars_of(known);
    if k.len() != code.len() {
        return false;
    }
    let mut i: usize = 0;
    while i < k.len()
        invariant
            i <= k.len(),
            k.len() == code.len(),
            k@ == known@,
            forall|j: int| 0 <= j < i ==> super::runner::ascii_lower(k@[j]) == super::runner::ascii_lower(code@[j]),
        decreases k.len() - i,
    {
        let x = k[i];
        let y = code[i];
        let lx = if 'A' <= x && x <= 'Z' { ((x as u32) + 32) as u8 as char } else { x };
        let ly = if 'A' <= y && y <= 'Z' { ((y as u32) + 32) as u8 as char } else { y };
        if lx != ly {
            assert(super::runner::ascii_lower(k@[i as int]) != super::runner::ascii_lower(code@[i as int]));
            return false;
        }
        i = i + 1;
    }
    true
}

} // verus!
