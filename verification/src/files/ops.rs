//! Moving files, and editing them where they live.
//!
//! `scp` copies one file in either direction and `rsync` syncs a tree; both are
//! tools the user already has, and neither resolves a host. The editing surface
//! (`read`/`write`/`patch`) runs a helper on the remote host, because a
//! compare-and-swap replacement has to happen next to the file it guards. The
//! remote calls themselves belong to the program around the library; what is
//! asked, what is refused before asking, and what an answer means are here.
use vstd::prelude::*;
use crate::fileops::changes::{change_views, Action, Change, ChangeView};
use crate::fileops::remote::{spec_known_from, known_refusal_code, Edit, Request, ReadResult, ResolveResult, WriteResult, DEFAULT_HELPER_BYTES};
use crate::fileops::{check_view, Refusal, RefusalView};
use crate::fileops::args::{outer_quotes, validate_remote_path};
use crate::fileops::runner::first_line;
use crate::remote::{internal, Error};
use crate::session::remote::protocol::opt_view;
use crate::text::{chars_of, decimal, decimal_string, string_views, trim};

verus! {

/// The helper's editing and reading limit, in bytes.
pub const MAX_HELPER_BYTES: usize = 8388608;

/// The helper's own budget, in seconds.
pub const HELPER_TIMEOUT_SECS: u64 = 60;

/// The budget for a capability question, in seconds.
pub const PROBE_TIMEOUT_SECS: u64 = 30;

/// One single-file copy, in either direction.
#[derive(Debug)]
pub struct Transfer {
    pub source: String,
    pub destination: String,
    pub backend: &'static str,
    pub size: u64,
    pub multiplexed: bool,
    pub duration_ms: u64,
    pub checksum_verified: bool,
    pub resume_enabled: bool,
}

/// One directory sync. A dry run reports the plan and changes nothing.
#[derive(Debug)]
pub struct Sync {
    pub source: String,
    pub destination: String,
    pub dry_run: bool,
    pub delete: bool,
    pub multiplexed: bool,
    pub changes: Vec<Change>,
    pub files: u64,
    pub directories: u64,
    pub deletes: u64,
    pub notes: Vec<String>,
    pub duration_ms: u64,
}

/// One entry of a batch report: the manifest row, and what happened to it.
#[derive(Debug)]
pub struct BatchItem {
    pub operation: &'static str,
    pub source: String,
    pub destination: String,
    /// How long this entry took, whether it arrived or not.
    pub duration_ms: u64,
    pub data: Option<Transfer>,
    pub error: Option<Error>,
}

/// The whole batch, in manifest order.
#[derive(Debug)]
pub struct Batch {
    pub items: Vec<BatchItem>,
    pub succeeded: u64,
    pub failed: u64,
}

pub struct PutOptions<'a> {
    pub host: &'a str,
    pub local_path: &'a str,
    pub remote: &'a str,
    /// Seconds; `None` for the default budget.
    pub timeout_secs: Option<u64>,
    pub resume: bool,
    pub checksum: bool,
    pub parents: bool,
}

pub struct GetOptions<'a> {
    pub host: &'a str,
    pub remote: &'a str,
    pub local_path: &'a str,
    /// Seconds; `None` for the default budget.
    pub timeout_secs: Option<u64>,
    pub resume: bool,
    pub checksum: bool,
}

pub struct SyncOptions<'a> {
    pub host: &'a str,
    /// For a push this is the local tree; for a mirror it is the remote one.
    pub source: &'a str,
    /// For a push this is the remote tree; for a mirror it is the local one.
    pub destination: &'a str,
    pub delete: bool,
    pub dry_run: bool,
    pub excludes: &'a [String],
    pub checksum: bool,
    /// Seconds; `None` for the default budget.
    pub timeout_secs: Option<u64>,
}

pub struct ReadOptions<'a> {
    pub host: &'a str,
    pub path: &'a str,
    pub start: u64,
    pub lines: u64,
    pub max_bytes: usize,
    /// Seconds; `None` for the helper's own budget.
    pub timeout_secs: Option<u64>,
}

/// A bounded page of a remote text file, with the hash of the whole file.
#[derive(Debug)]
pub struct Read {
    pub path: String,
    pub sha256: String,
    pub content: String,
    pub start: u64,
    pub lines: u64,
    pub total_lines: u64,
    pub truncated: bool,
}

pub struct WriteOptions<'a> {
    pub host: &'a str,
    pub path: &'a str,
    pub content: Vec<u8>,
    /// Required to replace an existing file; a missing one is `HASH_REQUIRED`.
    pub if_hash: Option<String>,
    pub parents: bool,
    pub mode: Option<String>,
    /// Seconds; `None` for the helper's own budget.
    pub timeout_secs: Option<u64>,
}

#[derive(Debug)]
pub struct Write {
    pub path: String,
    pub sha256: String,
    pub bytes: u64,
}

// ---------------------------------------------------------------------------
// Refusals and answers
// ---------------------------------------------------------------------------

/// `e` carries exactly this code and message, not retryable.
pub open spec fn error_is(e: Error, code: Seq<char>, message: Seq<char>) -> bool {
    e.code@ == code && e.message@ == message && !e.retryable
}

/// A refusal that happened before anything ran: the caller can fix the
/// invocation rather than retry it.
pub fn validation(refusal: Refusal) -> (r: Error)
    ensures
        match refusal@ {
            RefusalView::InvalidPath(m) => error_is(r, "CONFIG_INVALID"@, m),
            RefusalView::Rejected(m) => error_is(r, "SYNC_REJECTED"@, m),
        },
{
    match refusal {
        Refusal::InvalidPath(message) => Error::new("CONFIG_INVALID", message.as_str()),
        Refusal::Rejected(message) => Error::new("SYNC_REJECTED", message.as_str()),
    }
}

/// The one place a capability probe's status becomes an answer: `command -v`
/// returns zero when it finds the command and a shell-specific non-zero status
/// when it does not.
pub fn dependency_verdict(exit: u8) -> (r: Result<(), (&'static str, &'static str)>)
    ensures
        exit == 0 ==> r is Ok,
        exit != 0 ==> (r matches Err((code, message)) && code@ == "REMOTE_DEPENDENCY_MISSING"@
            && message@ == "the remote host has no rsync, which this operation needs; fs put and fs get work without it"@),
{
    if exit == 0 {
        Ok(())
    } else {
        Err((
            "REMOTE_DEPENDENCY_MISSING",
            "the remote host has no rsync, which this operation needs; fs put and fs get work without it",
        ))
    }
}

/// One decoded helper answer: the operation's typed document, or a refusal.
pub enum Answer<T> {
    Done(T),
    Refused { error: String, message: Option<String> },
}

/// The message a helper refusal carries, or a generic one.
pub open spec fn refusal_message(message: Option<String>) -> Seq<char> {
    match message {
        Some(m) => m@,
        None => "remote file operation was refused"@,
    }
}

/// What one helper run means. A missing interpreter (126 or 127) is a missing
/// dependency; any other failure, or an answer that did not decode (`None`),
/// is internal; a refusal is trusted only when its code is one the helper may
/// use.
pub fn helper_verdict<T>(exit: i32, stderr: &str, answer: Option<Answer<T>>) -> (r: Result<T, Error>)
    ensures
        (exit == 126 || exit == 127) ==> (r matches Err(e) && error_is(e, "REMOTE_DEPENDENCY_MISSING"@,
            "this operation needs remote Python 3.5 or newer with fcntl and directory-relative filesystem support; rhost does not install it"@)),
        exit != 126 && exit != 127 && exit != 0 ==> (r matches Err(e) && error_is(e, "INTERNAL"@,
            "remote file helper exited "@ + crate::text::signed_decimal(exit as int) + ": "@ + crate::fileops::runner::first_line(stderr@))),
        exit == 0 ==> match answer {
            None => r matches Err(e) && error_is(e, "INTERNAL"@, "remote file helper returned no usable answer: "@ + crate::fileops::runner::first_line(stderr@)),
            Some(Answer::Done(value)) => r matches Ok(v) && v == value,
            Some(Answer::Refused { error, message }) => match spec_known_from(error@, 0) {
                Some(code) => r matches Err(e) && error_is(e, code, refusal_message(message)),
                None => r matches Err(e) && error_is(e, "INTERNAL"@, "unknown remote file error "@ + error@),
            },
        },
{
    if exit == 126 || exit == 127 {
        return Err(Error::new(
            "REMOTE_DEPENDENCY_MISSING",
            "this operation needs remote Python 3.5 or newer with fcntl and directory-relative filesystem support; rhost does not install it",
        ));
    }
    if exit != 0 {
        let mut m = String::from_str("remote file helper exited ");
        let d = crate::text::signed_decimal_string(exit);
        m.append(d.as_str());
        m.append(": ");
        let line = crate::fileops::runner::first_line_exec(stderr);
        m.append(line.as_str());
        return Err(internal(m.as_str()));
    }
    match answer {
        None => {
            let mut m = String::from_str("remote file helper returned no usable answer: ");
            let line = crate::fileops::runner::first_line_exec(stderr);
            m.append(line.as_str());
            Err(internal(m.as_str()))
        },
        Some(Answer::Done(value)) => Ok(value),
        Some(Answer::Refused { error, message }) => match known_refusal_code(error.as_str()) {
            Some(known) => {
                let text = match &message {
                    Some(m) => m.clone(),
                    None => String::from_str("remote file operation was refused"),
                };
                Err(Error::new(known, text.as_str()))
            },
            None => {
                let mut m = String::from_str("unknown remote file error ");
                m.append(error.as_str());
                Err(internal(m.as_str()))
            },
        },
    }
}

// ---------------------------------------------------------------------------
// Editing
// ---------------------------------------------------------------------------

/// The permission syntax the helper accepts: three or four octal digits.
pub open spec fn spec_octal_mode(mode: Seq<u8>) -> bool {
    (mode.len() == 3 || mode.len() == 4) && forall|i: int| 0 <= i < mode.len() ==> 48 <= #[trigger] mode[i] <= 55
}

/// Whether a mode is one the helper accepts.
pub fn is_octal_mode(mode: &str) -> (r: bool)
    ensures
        r == spec_octal_mode(vstd::utf8::encode_utf8(mode@)),
{
    let b = mode.as_bytes();
    if b.len() != 3 && b.len() != 4 {
        return false;
    }
    let mut i: usize = 0;
    let ghost bytes = vstd::utf8::encode_utf8(mode@);
    assert(b@ == bytes);
    while i < b.len()
        invariant
            i <= b.len(),
            b@ == bytes,
            bytes == vstd::utf8::encode_utf8(mode@),
            b.len() == 3 || b.len() == 4,
            forall|k: int| 0 <= k < i ==> 48 <= #[trigger] b@[k] <= 55,
        decreases b.len() - i,
    {
        if b[i] < 48 || b[i] > 55 {
            assert(!(48 <= b@[i as int] <= 55));
            return false;
        }
        i = i + 1;
    }
    true
}

/// What a bounded read asks the helper, or why it is refused first.
pub fn read(options: &ReadOptions) -> (r: Result<Request, Error>)
    ensures
        outer_quotes(vstd::utf8::encode_utf8(options.path@)) ==> r is Err,
        !outer_quotes(vstd::utf8::encode_utf8(options.path@)) ==> match r {
            Ok(request) => 1 <= options.max_bytes <= MAX_HELPER_BYTES && options.start >= 1 && options.lines >= 1
                && (request matches Request::Read { path, start, lines, max_bytes } && path@ == options.path@
                && start == options.start && lines == options.lines && max_bytes == options.max_bytes),
            Err(e) => if options.max_bytes == 0 || options.max_bytes > MAX_HELPER_BYTES {
                error_is(e, "CONFIG_INVALID"@, "--max-bytes must be between 1 and "@ + decimal(MAX_HELPER_BYTES as nat))
            } else {
                (options.start < 1 || options.lines < 1) && error_is(e, "CONFIG_INVALID"@, "--start and --lines must be positive"@)
            },
        },
{
    match validate_remote_path(options.path) {
        Err(refusal) => return Err(validation(refusal)),
        Ok(()) => {},
    }
    if options.max_bytes == 0 || options.max_bytes > MAX_HELPER_BYTES {
        let mut m = String::from_str("--max-bytes must be between 1 and ");
        let d = decimal_string(MAX_HELPER_BYTES as u64);
        m.append(d.as_str());
        return Err(Error::new("CONFIG_INVALID", m.as_str()));
    }
    if options.start < 1 || options.lines < 1 {
        return Err(Error::new("CONFIG_INVALID", "--start and --lines must be positive"));
    }
    Ok(Request::Read {
        path: String::from_str(options.path),
        start: options.start,
        lines: options.lines,
        max_bytes: options.max_bytes,
    })
}

/// A read answer as the use-case reports it.
pub fn read_result(page: ReadResult) -> (r: Read)
    ensures
        r.path@ == page.path@,
        r.sha256@ == page.sha256@,
        r.content@ == page.content@,
        r.start == page.start,
        r.lines == page.lines,
        r.total_lines == page.total_lines,
        r.truncated == page.truncated,
{
    Read {
        path: page.path,
        sha256: page.sha256,
        content: page.content,
        start: page.start,
        lines: page.lines,
        total_lines: page.total_lines,
        truncated: page.truncated,
    }
}

/// A write or patch answer as the use-case reports it.
pub fn write_result(answer: WriteResult) -> (r: Write)
    ensures
        r.path@ == answer.path@,
        r.sha256@ == answer.sha256@,
        r.bytes == answer.bytes,
{
    Write { path: answer.path, sha256: answer.sha256, bytes: answer.bytes }
}

/// What a write asks the helper, or why it is refused first: the body must
/// fit the editing limit and a named mode must be octal. An absent hash is
/// sent empty.
pub fn write(options: &WriteOptions) -> (r: Result<Request, Error>)
    ensures
        outer_quotes(vstd::utf8::encode_utf8(options.path@)) ==> r is Err,
        !outer_quotes(vstd::utf8::encode_utf8(options.path@)) ==> match r {
            Ok(request) => options.content.len() <= MAX_HELPER_BYTES && (options.mode matches Some(m)
                ==> spec_octal_mode(vstd::utf8::encode_utf8(m@))) && (request matches Request::Write {
                path, content, if_hash, parents, file_mode, max_bytes } && path@ == options.path@
                && content@ == crate::base64::spec_encode(options.content@)
                && if_hash@ == (match options.if_hash { Some(h) => h@, None => Seq::empty() })
                && parents == options.parents && opt_view(file_mode) == opt_view(options.mode)
                && max_bytes == DEFAULT_HELPER_BYTES),
            Err(e) => if options.content.len() > MAX_HELPER_BYTES {
                error_is(e, "FILE_TOO_LARGE"@, "input exceeds the 8 MiB editing limit"@)
            } else {
                (options.mode matches Some(m) && !spec_octal_mode(vstd::utf8::encode_utf8(m@)))
                    && error_is(e, "CONFIG_INVALID"@, "--mode must be an octal permission such as 0644"@)
            },
        },
{
    match validate_remote_path(options.path) {
        Err(refusal) => return Err(validation(refusal)),
        Ok(()) => {},
    }
    if options.content.len() > MAX_HELPER_BYTES {
        return Err(Error::new("FILE_TOO_LARGE", "input exceeds the 8 MiB editing limit"));
    }
    if let Some(mode) = &options.mode {
        if !is_octal_mode(mode.as_str()) {
            return Err(Error::new("CONFIG_INVALID", "--mode must be an octal permission such as 0644"));
        }
    }
    let if_hash = match &options.if_hash {
        Some(h) => h.clone(),
        None => String::new(),
    };
    let file_mode = match &options.mode {
        Some(m) => Some(m.clone()),
        None => None,
    };
    Ok(Request::Write {
        path: String::from_str(options.path),
        content: crate::base64::encode(options.content.as_slice()),
        if_hash,
        parents: options.parents,
        file_mode,
        max_bytes: DEFAULT_HELPER_BYTES,
    })
}

/// What a patch asks the helper, or why it is refused first: a patch needs at
/// least one edit and the hash of the file it was written against.
pub fn patch(path: &str, edits: Vec<Edit>, if_hash: Option<String>, max_bytes: usize) -> (r: Result<Request, Error>)
    ensures
        outer_quotes(vstd::utf8::encode_utf8(path@)) ==> r is Err,
        !outer_quotes(vstd::utf8::encode_utf8(path@)) ==> match r {
            Ok(request) => edits.len() > 0 && (if_hash matches Some(h) && h@.len() > 0) && (request
                matches Request::Patch { path: p, edits: e, if_hash: h, max_bytes: m } && p@ == path@
                && e@ == edits@ && h@ == if_hash->0@ && m == max_bytes),
            Err(e) => if edits.len() == 0 {
                error_is(e, "CONFIG_INVALID"@, "patch document has no edits"@)
            } else {
                !(if_hash matches Some(h) && h@.len() > 0) && error_is(e, "CONFIG_INVALID"@,
                    "patch document has no sha256: read the file first and carry its hash"@)
            },
        },
{
    match validate_remote_path(path) {
        Err(refusal) => return Err(validation(refusal)),
        Ok(()) => {},
    }
    if edits.len() == 0 {
        return Err(Error::new("CONFIG_INVALID", "patch document has no edits"));
    }
    let expected = match if_hash {
        Some(hash) => {
            if hash.as_str().is_empty() {
                return Err(Error::new(
                    "CONFIG_INVALID",
                    "patch document has no sha256: read the file first and carry its hash",
                ));
            }
            hash
        },
        None => {
            return Err(Error::new(
                "CONFIG_INVALID",
                "patch document has no sha256: read the file first and carry its hash",
            ));
        },
    };
    Ok(Request::Patch { path: String::from_str(path), edits, if_hash: expected, max_bytes })
}

// ---------------------------------------------------------------------------
// Sync summaries
// ---------------------------------------------------------------------------

/// How many planned changes carry an action `counted` accepts.
pub open spec fn count_actions(changes: Seq<ChangeView>, counted: spec_fn(Action) -> bool) -> nat
    decreases changes.len(),
{
    if changes.len() == 0 {
        0
    } else {
        count_actions(changes.drop_last(), counted) + if counted(changes.last().action) { 1nat } else { 0nat }
    }
}

pub open spec fn is_delete(a: Action) -> bool {
    a == Action::Delete
}

pub open spec fn is_file(a: Action) -> bool {
    a == Action::Create || a == Action::Update
}

pub open spec fn is_directory(a: Action) -> bool {
    a == Action::Directory
}

/// A finished rsync run read back: its plan lines, the notes beside them, and
/// how many files, directories and deletions the plan holds.
pub fn summarize(source: &str, destination: &str, multiplexed: bool, options: &SyncOptions, outcome: &crate::fileops::runner::Outcome) -> (r: Sync)
    ensures
        r.source@ == source@,
        r.destination@ == destination@,
        r.dry_run == options.dry_run,
        r.delete == options.delete,
        r.multiplexed == multiplexed,
        change_views(r.changes@) == crate::fileops::changes::changes_of(crate::fileops::changes::output_lines(crate::text::utf8_lossy(outcome.stdout@))),
        string_views(r.notes@) == crate::fileops::changes::others_of(crate::fileops::changes::output_lines(crate::text::utf8_lossy(outcome.stdout@))),
        r.files == count_actions(change_views(r.changes@), |a: Action| is_file(a)),
        r.directories == count_actions(change_views(r.changes@), |a: Action| is_directory(a)),
        r.deletes == count_actions(change_views(r.changes@), |a: Action| is_delete(a)),
        r.duration_ms == outcome.duration_ms,
{
    let text = outcome.stdout_text();
    let (changes, notes) = crate::fileops::changes::parse_changes(text.as_str());
    let ghost views = change_views(changes@);
    let mut files: u64 = 0;
    let mut directories: u64 = 0;
    let mut deletes: u64 = 0;
    let mut i: usize = 0;
    while i < changes.len()
        invariant
            i <= changes.len(),
            views == change_views(changes@),
            files == count_actions(views.take(i as int), |a: Action| is_file(a)),
            directories == count_actions(views.take(i as int), |a: Action| is_directory(a)),
            deletes == count_actions(views.take(i as int), |a: Action| is_delete(a)),
            files + directories + deletes <= i,
        decreases changes.len() - i,
    {
        proof {
            assert(views.take(i + 1).drop_last() =~= views.take(i as int));
            assert(views.take(i + 1).last() == changes@[i as int]@);
        }
        match changes[i].action {
            Action::Delete => {
                deletes = deletes + 1;
            },
            Action::Create | Action::Update => {
                files = files + 1;
            },
            Action::Directory => {
                directories = directories + 1;
            },
            Action::Skip | Action::Other => {},
        }
        i = i + 1;
    }
    assert(views.take(changes.len() as int) =~= views);
    Sync {
        source: String::from_str(source),
        destination: String::from_str(destination),
        dry_run: options.dry_run,
        delete: options.delete,
        multiplexed,
        changes,
        files,
        directories,
        deletes,
        notes,
        duration_ms: outcome.duration_ms,
    }
}

// ---------------------------------------------------------------------------
// Batches
// ---------------------------------------------------------------------------

/// One manifest row as decoded: each field present only when the document
/// gave it with the right JSON type.
pub struct ManifestRow {
    pub op: Option<String>,
    pub source: Option<String>,
    pub destination: Option<String>,
    pub resume: Option<bool>,
    pub checksum: Option<bool>,
}

/// A manifest entry: what to copy, and whether it takes the verified route.
#[derive(Debug)]
pub struct ManifestEntry {
    pub operation: &'static str,
    pub source: String,
    pub destination: String,
    pub resume: bool,
    pub checksum: bool,
}

/// The operation a row names, if it is one a batch runs.
pub open spec fn row_op(op: Option<String>) -> Option<Seq<char>> {
    match op {
        Some(o) => if o@ == "put"@ || o@ == "get"@ { Some(o@) } else { None },
        None => None,
    }
}

/// A text field, empty when absent.
pub open spec fn text_field(t: Option<String>) -> Seq<char> {
    match t {
        Some(s) => s@,
        None => Seq::empty(),
    }
}

/// Row `i` (counting from 0) is usable.
pub open spec fn row_ok(row: ManifestRow) -> bool {
    row_op(row.op) is Some && text_field(row.source).len() > 0 && text_field(row.destination).len() > 0
}

/// Why row `index` (counting from 0) is refused.
pub open spec fn row_error(row: ManifestRow, index: int) -> Seq<char> {
    if row_op(row.op) is None {
        "manifest entry "@ + decimal((index + 1) as nat) + ": op must be put or get"@
    } else {
        "manifest entry "@ + decimal((index + 1) as nat) + ": source and destination are required"@
    }
}

/// The entry a usable row becomes: absent flags are `false`.
pub open spec fn entry_is(e: ManifestEntry, row: ManifestRow) -> bool {
    &&& row_op(row.op) == Some(e.operation@)
    &&& e.source@ == text_field(row.source)
    &&& e.destination@ == text_field(row.destination)
    &&& e.resume == (row.resume == Some(true))
    &&& e.checksum == (row.checksum == Some(true))
}

fn is_word(s: &str, w: &str) -> (r: bool)
    ensures
        r == (s@ == w@),
{
    let a = chars_of(s);
    let b = chars_of(w);
    a.len() == b.len() && crate::text::chars_eq(a.as_slice(), b.as_slice())
}

/// Checks a decoded manifest: it must list something, and every row must name
/// `put` or `get` with a source and a destination. The first bad row is the
/// answer.
pub fn manifest_entries(rows: &[ManifestRow]) -> (r: Result<Vec<ManifestEntry>, Error>)
    ensures
        rows.len() == 0 ==> (r matches Err(e) && error_is(e, "CONFIG_INVALID"@, "manifest lists nothing to do"@)),
        rows.len() > 0 ==> match r {
            Ok(entries) => entries.len() == rows.len() && forall|i: int| 0 <= i < rows.len() ==> row_ok(#[trigger] rows@[i]) && entry_is(entries@[i], rows@[i]),
            Err(e) => exists|i: int| 0 <= i < rows.len() && !row_ok(#[trigger] rows@[i]) && (forall|j: int| 0 <= j < i ==> row_ok(#[trigger] rows@[j]))
                && error_is(e, "CONFIG_INVALID"@, row_error(rows@[i], i)),
        },
{
    if rows.len() == 0 {
        return Err(Error::new("CONFIG_INVALID", "manifest lists nothing to do"));
    }
    let mut entries: Vec<ManifestEntry> = Vec::new();
    let mut i: usize = 0;
    while i < rows.len()
        invariant
            i <= rows.len(),
            entries.len() == i,
            forall|k: int| 0 <= k < i ==> row_ok(#[trigger] rows@[k]) && entry_is(entries@[k], rows@[k]),
        decreases rows.len() - i,
    {
        let row = &rows[i];
        let operation: &'static str = match &row.op {
            Some(o) => if is_word(o.as_str(), "put") {
                "put"
            } else if is_word(o.as_str(), "get") {
                "get"
            } else {
                ""
            },
            None => "",
        };
        proof {
            reveal_strlit("");
            reveal_strlit("put");
            reveal_strlit("get");
        }
        if operation.is_empty() {
            let mut m = String::from_str("manifest entry ");
            let d = decimal_string((i as u64) + 1);
            m.append(d.as_str());
            m.append(": op must be put or get");
            assert(!row_ok(rows@[i as int]));
            return Err(Error::new("CONFIG_INVALID", m.as_str()));
        }
        let source = match &row.source {
            Some(s) => s.clone(),
            None => String::new(),
        };
        let destination = match &row.destination {
            Some(s) => s.clone(),
            None => String::new(),
        };
        if source.as_str().is_empty() || destination.as_str().is_empty() {
            let mut m = String::from_str("manifest entry ");
            let d = decimal_string((i as u64) + 1);
            m.append(d.as_str());
            m.append(": source and destination are required");
            assert(!row_ok(rows@[i as int]));
            return Err(Error::new("CONFIG_INVALID", m.as_str()));
        }
        entries.push(ManifestEntry {
            operation,
            source,
            destination,
            resume: row.resume == Some(true),
            checksum: row.checksum == Some(true),
        });
        i = i + 1;
    }
    Ok(entries)
}

/// How many items of a report failed.
pub open spec fn failures(items: Seq<BatchItem>) -> nat
    decreases items.len(),
{
    if items.len() == 0 {
        0
    } else {
        failures(items.drop_last()) + if items.last().error is Some { 1nat } else { 0nat }
    }
}

impl Batch {
    /// The counts agree with the items: every item is counted once, and the
    /// failed ones are those that carry an error.
    pub open spec fn wf(&self) -> bool {
        &&& self.succeeded + self.failed == self.items.len()
        &&& self.failed == failures(self.items@)
        &&& forall|i: int| 0 <= i < self.items.len() ==> ((#[trigger] self.items@[i]).error is Some) != (self.items@[i].data is Some)
    }

    /// An empty report.
    pub fn new() -> (r: Self)
        ensures
            r.wf(),
            r.items.len() == 0,
    {
        Batch { items: Vec::new(), succeeded: 0, failed: 0 }
    }

    /// Records one entry's outcome, in manifest order. A failed entry does not
    /// stop the ones after it; it is counted and kept with its error.
    pub fn record(&mut self, entry: ManifestEntry, duration_ms: u64, result: Result<Transfer, Error>)
        requires
            old(self).wf(),
            old(self).items.len() < u64::MAX,
        ensures
            final(self).wf(),
            final(self).items@.drop_last() == old(self).items@,
            final(self).items@.len() == old(self).items@.len() + 1,
            final(self).items@.last().operation == entry.operation,
            final(self).items@.last().source@ == entry.source@,
            final(self).items@.last().destination@ == entry.destination@,
            final(self).items@.last().duration_ms == duration_ms,
            result is Ok ==> final(self).succeeded == old(self).succeeded + 1 && final(self).failed == old(self).failed,
            result is Err ==> final(self).failed == old(self).failed + 1 && final(self).succeeded == old(self).succeeded,
            result matches Ok(t) ==> final(self).items@.last().data == Some(t) && final(self).items@.last().error is None,
            result matches Err(e) ==> final(self).items@.last().error == Some(e) && final(self).items@.last().data is None,
    {
        let ghost before = self.items@;
        let item = match result {
            Ok(data) => {
                self.succeeded = self.succeeded + 1;
                BatchItem {
                    operation: entry.operation,
                    source: entry.source,
                    destination: entry.destination,
                    duration_ms,
                    data: Some(data),
                    error: None,
                }
            },
            Err(error) => {
                self.failed = self.failed + 1;
                BatchItem {
                    operation: entry.operation,
                    source: entry.source,
                    destination: entry.destination,
                    duration_ms,
                    data: None,
                    error: Some(error),
                }
            },
        };
        self.items.push(item);
        assert(self.items@.drop_last() =~= before);
    }

    /// The process status a finished batch ends with: it ran to the end, but
    /// "the batch completed" and "every file arrived" are different claims,
    /// so a failed entry makes it non-zero.
    pub fn exit_status(&self) -> (r: u8)
        ensures
            r == (if self.failed > 0 {
                255u8
            } else {
                0u8
            }),
    {
        if self.failed > 0 {
            255
        } else {
            0
        }
    }
}

/// How one batch entry is written to the audit trail.
#[derive(Debug)]
pub enum AuditRecord {
    /// It arrived: `summary` says what moved, and which end it names.
    Completed { operation: &'static str, summary: String, duration_ms: u64 },
    /// It did not: the code it failed with.
    Refused { operation: &'static str, code: &'static str, duration_ms: u64 },
}

/// The operation an entry is audited as.
pub open spec fn audit_operation(op: Seq<char>) -> Seq<char> {
    if op == "get"@ {
        "fs.get"@
    } else {
        "fs.put"@
    }
}

impl BatchItem {
    /// The audit record of one entry, one per copy: a completed one names the
    /// operation and the remote end (the source of a get, the destination of a
    /// put); a failed one its code. An entry that carries neither a result nor
    /// an error says nothing worth recording.
    pub fn audit(&self) -> (r: Option<AuditRecord>)
        ensures
            match r {
                Some(AuditRecord::Completed { operation, summary, duration_ms }) => {
                    &&& self.data is Some
                    &&& operation@ == audit_operation(self.operation@)
                    &&& summary@ == self.operation@ + " "@ + (if self.operation@ == "get"@ {
                        self.source@
                    } else {
                        self.destination@
                    })
                    &&& duration_ms == self.duration_ms
                },
                Some(AuditRecord::Refused { operation, code, duration_ms }) => {
                    &&& self.data is None
                    &&& self.error matches Some(e) && code == e.code
                    &&& operation@ == audit_operation(self.operation@)
                    &&& duration_ms == self.duration_ms
                },
                None => self.data is None && self.error is None,
            },
    {
        proof {
            reveal_strlit("get");
        }
        let get = is_word(self.operation, "get");
        let operation = if get {
            "fs.get"
        } else {
            "fs.put"
        };
        if self.data.is_some() {
            let mut summary = String::from_str(self.operation);
            summary.append(" ");
            if get {
                summary.append(self.source.as_str());
            } else {
                summary.append(self.destination.as_str());
            }
            return Some(AuditRecord::Completed { operation, summary, duration_ms: self.duration_ms });
        }
        match &self.error {
            Some(e) => Some(AuditRecord::Refused { operation, code: e.code, duration_ms: self.duration_ms }),
            None => None,
        }
    }
}

} // verus!
