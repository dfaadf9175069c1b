//! What a finished local transfer tool said, and how rsync is told to keep a
//! remote path one literal. Starting and stopping the tools belongs to the
//! program around the library.
use vstd::prelude::*;
use vstd::string::StringSliceAdditionalSpecFns;
use vstd::utf8::{decode_utf8, encode_utf8, is_char_boundary};
use crate::domain::CancelSignal;
use crate::shell::path_quote;
use crate::text::{
    chars_of, find_first, is_whitespace, is_ws, lines, lossy_text, lower_text, parse_bounded,
    parse_unsigned, push_str, slice_chars, split_lines, string_of, string_views, to_lowercase,
    trim, trim_chars, utf8_lossy,
};
use crate::transport::openssh::digit_run;
use super::args::{remote_spec, spec_remote_spec, spec_split_remote, split_remote_spec};
use super::changes::{path_needs_quoting, plain_path_char, replace_crlf, replace_crlf_exec};

verus! {

/// Bound on one tool's captured output. A plan for a very large tree is a real
/// answer the caller asked for, so this is generous; exceeding it is reported
/// rather than silently truncating a plan.
pub const OUTPUT_LIMIT: usize = 67108864;

/// The budget for one transfer when the caller names none, in seconds.
pub const DEFAULT_TIMEOUT_SECS: u64 = 300;

/// The budget for the `rsync --version` probe, in seconds.
pub const VERSION_PROBE_TIMEOUT_SECS: u64 = 15;

/// The tool names rhost runs. They are fields rather than constants so a test
/// can prove argument construction against a stub.
pub struct Tools {
    pub scp: String,
    pub rsync: String,
}

impl Default for Tools {
    fn default() -> (r: Self)
        ensures
            r.scp@ == "scp"@,
            r.rsync@ == "rsync"@,
    {
        Tools { scp: String::from_str("scp"), rsync: String::from_str("rsync") }
    }
}

/// One finished tool invocation. A missing exit status is never zero.
pub struct Outcome {
    pub stdout: Vec<u8>,
    pub stderr: Vec<u8>,
    pub exit: Option<i32>,
    pub timed_out: bool,
    pub cancelled: Option<CancelSignal>,
    pub duration_ms: u64,
    /// The tool could not be started at all — typically: not installed here.
    pub spawn_error: Option<String>,
    /// The tool produced more output than the capture bound holds.
    pub overflow: bool,
}

/// The first line of `text` that is not blank once trimmed, trimmed; empty
/// when there is none.
pub open spec fn first_nonblank(ls: Seq<Seq<char>>) -> Seq<char>
    decreases ls.len(),
{
    if ls.len() == 0 {
        Seq::empty()
    } else if trim(ls[0]).len() > 0 {
        trim(ls[0])
    } else {
        first_nonblank(ls.drop_first())
    }
}

/// The first non-blank line of a tool's text, `\r\n` read as `\n`.
pub open spec fn first_line(text: Seq<char>) -> Seq<char> {
    first_nonblank(lines(replace_crlf(text)))
}

/// The last character boundary at or below `n`.
pub open spec fn boundary_below(bytes: Seq<u8>, n: int) -> int
    decreases n,
{
    if n <= 0 || is_char_boundary(bytes, n) {
        if n <= 0 {
            0
        } else {
            n
        }
    } else {
        boundary_below(bytes, n - 1)
    }
}

/// `text` bounded to `limit` bytes at a character boundary, marked with `...`
/// when cut.
pub open spec fn spec_clip(text: Seq<char>, limit: nat) -> Seq<char> {
    let bytes = encode_utf8(text);
    if bytes.len() <= limit {
        text
    } else {
        decode_utf8(bytes.take(boundary_below(bytes, limit as int))) + "..."@
    }
}

/// The words a tool's complaint is reported with: the first line of its
/// stderr, or of its stdout when stderr is silent, bounded to 300 bytes.
pub open spec fn spec_diagnostic(stdout: Seq<u8>, stderr: Seq<u8>) -> Seq<char> {
    let from_err = first_line(trim(utf8_lossy(stderr)));
    if from_err.len() > 0 {
        spec_clip(from_err, 300)
    } else {
        let from_out = first_line(utf8_lossy(stdout));
        if from_out.len() == 0 {
            "no diagnostic"@
        } else {
            spec_clip(from_out, 300)
        }
    }
}

pub fn first_line_exec(text: &str) -> (r: String)
    ensures
        r@ == first_line(text@),
{
    let chars = chars_of(text);
    let normal = replace_crlf_exec(chars.as_slice());
    let ls = split_lines(normal.as_slice());
    let ghost all = lines(replace_crlf(text@));
    let mut i: usize = 0;
    assert(all.skip(0) =~= all);
    while i < ls.len()
        invariant
            i <= ls.len(),
            ls@.len() == all.len(),
            forall|k: int| 0 <= k < ls@.len() ==> #[trigger] ls@[k]@ == all[k],
            first_nonblank(all) == first_nonblank(all.skip(i as int)),
            all == lines(replace_crlf(text@)),
        decreases ls.len() - i,
    {
        let t = trim_chars(ls[i].as_slice());
        proof {
            assert(ls@[i as int]@ == all[i as int]);
            assert(all.skip(i as int)[0] == all[i as int]);
            assert(all.skip(i as int).drop_first() =~= all.skip(i + 1));
        }
        if t.len() > 0 {
            assert(t@ == trim(all[i as int]));
            assert(first_nonblank(all.skip(i as int)) == trim(all[i as int]));
            return string_of(t.as_slice());
        }
        i = i + 1;
    }
    assert(all.skip(i as int) =~= Seq::<Seq<char>>::empty());
    String::new()
}

/// Bounds a diagnostic taken from a subprocess at a character boundary.
pub fn clip(text: &str, limit: usize) -> (r: String)
    ensures
        r@ == spec_clip(text@, limit as nat),
{
    proof {
        vstd::utf8::encode_utf8_valid_utf8(text@);
    }
    let bytes = text.as_bytes();
    if bytes.len() <= limit {
        return String::from_str(text);
    }
    let mut cut = limit;
    while cut > 0 && !text.is_char_boundary(cut)
        invariant
            cut <= limit,
            vstd::utf8::valid_utf8(encode_utf8(text@)),
            boundary_below(encode_utf8(text@), limit as int) == boundary_below(encode_utf8(text@), cut as int),
        decreases cut,
    {
        cut = cut - 1;
    }
    proof {
        if cut > 0 {
            assert(is_char_boundary(encode_utf8(text@), cut as int));
        }
        assert(is_char_boundary(encode_utf8(text@), 0));
    }
    let (head, _) = text.split_at(cut);
    proof {
        vstd::utf8::encode_utf8_decode_utf8(head@);
    }
    let mut out = String::from_str(head);
    out.append("...");
    out
}

/// The budget a transfer runs under, in milliseconds: the caller's, or the
/// default when the caller names none (zero).
pub fn transfer_budget_ms(timeout_ms: u64) -> (r: u64)
    ensures
        r == (if timeout_ms == 0 {
            DEFAULT_TIMEOUT_SECS * 1000
        } else {
            timeout_ms as int
        }),
{
    if timeout_ms == 0 {
        DEFAULT_TIMEOUT_SECS * 1000
    } else {
        timeout_ms
    }
}

/// The signal a stopped run reports: the one that was caught, or TERM when
/// the stop came without one; `None` when the run was not stopped.
pub open spec fn spec_stop_signal(cancelled: bool, signal: Option<CancelSignal>) -> Option<CancelSignal> {
    if !cancelled {
        None
    } else {
        match signal {
            Some(s) => Some(s),
            None => Some(CancelSignal::Term),
        }
    }
}

impl Outcome {
    /// What one finished tool run reports, from what the process run gave
    /// back: the kept output of both streams and how many bytes each carried,
    /// the exit status, whether the deadline fired, whether a stop was
    /// requested and with which signal, how long it ran, and why it could not
    /// start, if it could not. Output beyond [`OUTPUT_LIMIT`] on either stream
    /// is reported as overflow rather than silently cut.
    pub fn from_run(
        stdout: Vec<u8>,
        stderr: Vec<u8>,
        stdout_total: u64,
        stderr_total: u64,
        exit: Option<i32>,
        timed_out: bool,
        cancelled: bool,
        signal: Option<CancelSignal>,
        duration_ms: u64,
        spawn_error: Option<String>,
    ) -> (r: Outcome)
        ensures
            r.stdout@ == stdout@,
            r.stderr@ == stderr@,
            r.exit == exit,
            r.timed_out == timed_out,
            r.cancelled == spec_stop_signal(cancelled, signal),
            r.duration_ms == duration_ms,
            r.spawn_error == spawn_error,
            r.overflow == (stdout_total > OUTPUT_LIMIT || stderr_total > OUTPUT_LIMIT),
    {
        let stopped = if !cancelled {
            None
        } else {
            match signal {
                Some(s) => Some(s),
                None => Some(CancelSignal::Term),
            }
        };
        Outcome {
            stdout,
            stderr,
            exit,
            timed_out,
            cancelled: stopped,
            duration_ms,
            spawn_error,
            overflow: stdout_total > OUTPUT_LIMIT as u64 || stderr_total > OUTPUT_LIMIT as u64,
        }
    }

    /// The tool's stderr as text, trimmed.
    pub fn stderr_text(&self) -> (r: String)
        ensures
            r@ == trim(utf8_lossy(self.stderr@)),
    {
        let text = lossy_text(self.stderr.as_slice());
        let chars = chars_of(text.as_str());
        let t = trim_chars(chars.as_slice());
        string_of(t.as_slice())
    }

    /// The tool's stdout as text.
    pub fn stdout_text(&self) -> (r: String)
        ensures
            r@ == utf8_lossy(self.stdout@),
    {
        lossy_text(self.stdout.as_slice())
    }

    /// The first line of the tool's own complaint, or its stdout when stderr is
    /// silent: "scp exited 1" tells an agent nothing it can act on.
    pub fn diagnostic(&self) -> (r: String)
        ensures
            r@ == spec_diagnostic(self.stdout@, self.stderr@),
    {
        let err = self.stderr_text();
        let message = first_line_exec(err.as_str());
        if !message.as_str().is_empty() {
            return clip(message.as_str(), 300);
        }
        let out = self.stdout_text();
        let message = first_line_exec(out.as_str());
        if message.as_str().is_empty() {
            String::from_str("no diagnostic")
        } else {
            clip(message.as_str(), 300)
        }
    }
}

// ---------------------------------------------------------------------------
// Keeping a remote path one literal
// ---------------------------------------------------------------------------

/// How many whitespace characters begin `s`.
pub open spec fn ws_len(s: Seq<char>) -> int
    decreases s.len(),
{
    if s.len() > 0 && is_ws(s[0]) {
        1 + ws_len(s.skip(1))
    } else {
        0
    }
}

/// How many non-whitespace characters begin `s`.
pub open spec fn word_len(s: Seq<char>) -> int
    decreases s.len(),
{
    if s.len() > 0 && !is_ws(s[0]) {
        1 + word_len(s.skip(1))
    } else {
        0
    }
}

/// `split_whitespace().next()`: the first word of `s` and what follows it.
pub open spec fn next_word(s: Seq<char>) -> Option<(Seq<char>, Seq<char>)> {
    let t = s.skip(ws_len(s));
    if t.len() == 0 {
        None
    } else {
        Some((t.take(word_len(t)), t.skip(word_len(t))))
    }
}

/// ASCII lowercase of one character.
pub open spec fn ascii_lower(c: char) -> char {
    if 'A' <= c && c <= 'Z' {
        ((c as u32) + 32) as char
    } else {
        c
    }
}

/// `eq_ignore_ascii_case`.
pub open spec fn ascii_eq(a: Seq<char>, b: Seq<char>) -> bool {
    a.len() == b.len() && forall|i: int| 0 <= i < a.len() ==> ascii_lower(a[i]) == ascii_lower(b[i])
}

/// Given a `--version` banner, does this tool understand `--protect-args`?
/// Only GNU rsync 3 and later: the banner's first line reads `rsync version N`
/// with `N >= 3`, and openrsync never qualifies.
pub open spec fn spec_protect_args(stdout: Seq<char>) -> bool {
    let ls = lines(stdout);
    let first = trim(if ls.len() > 0 { ls[0] } else { Seq::empty() });
    if find_first(lower_text(first), "openrsync"@) is Some {
        false
    } else {
        match next_word(first) {
            Some((w1, r1)) => ascii_eq(w1, "rsync"@) && match next_word(r1) {
                Some((w2, r2)) => ascii_eq(w2, "version"@) && {
                    let w3 = match next_word(r2) {
                        Some((w, _)) => w,
                        None => Seq::empty(),
                    };
                    match parse_unsigned(digit_run(w3), 4294967295) {
                        Some(v) => v >= 3,
                        None => false,
                    }
                },
                None => false,
            },
            None => false,
        }
    }
}

fn skip_ws(s: &[char], from: usize) -> (r: usize)
    requires
        from <= s.len(),
    ensures
        from <= r <= s.len(),
        r - from == ws_len(s@.skip(from as int)),
        r < s.len() ==> !is_ws(s@[r as int]),
{
    let mut i = from;
    while i < s.len() && is_whitespace(s[i])
        invariant
            from <= i <= s.len(),
            ws_len(s@.skip(from as int)) == (i - from) + ws_len(s@.skip(i as int)),
        decreases s.len() - i,
    {
        assert(s@.skip(i as int).skip(1) =~= s@.skip(i + 1));
        i = i + 1;
    }
    i
}

fn skip_word(s: &[char], from: usize) -> (r: usize)
    requires
        from <= s.len(),
    ensures
        from <= r <= s.len(),
        r - from == word_len(s@.skip(from as int)),
        from < s.len() && !is_ws(s@[from as int]) ==> from < r,
{
    let mut i = from;
    while i < s.len() && !is_whitespace(s[i])
        invariant
            from <= i <= s.len(),
            word_len(s@.skip(from as int)) == (i - from) + word_len(s@.skip(i as int)),
        decreases s.len() - i,
    {
        assert(s@.skip(i as int).skip(1) =~= s@.skip(i + 1));
        i = i + 1;
    }
    i
}

/// The next word of `s` from `from`: its bounds, or `None` at the end.
pub(crate) fn word_at(s: &[char], from: usize) -> (r: Option<(usize, usize)>)
    requires
        from <= s.len(),
    ensures
        match r {
            Some((a, b)) => from <= a < b <= s.len() && next_word(s@.skip(from as int)) == Some(
                (s@.subrange(a as int, b as int), s@.skip(b as int)),
            ),
            None => next_word(s@.skip(from as int)) is None,
        },
{
    let a = skip_ws(s, from);
    let ghost t = s@.skip(from as int).skip(a - from);
    assert(t =~= s@.skip(a as int));
    if a == s.len() {
        return None;
    }
    let b = skip_word(s, a);
    proof {
        if a < s.len() {
            assert(!is_ws(s@[a as int]));
            assert(s@.skip(a as int)[0] == s@[a as int]);
            assert(s@.skip(a as int).skip(1) =~= s@.skip(a + 1));
        }
        assert(t.take(b - a) =~= s@.subrange(a as int, b as int));
        assert(t.skip(b - a) =~= s@.skip(b as int));
    }
    Some((a, b))
}

fn ascii_eq_exec(a: &[char], b: &str) -> (r: bool)
    ensures
        r == ascii_eq(a@, b@),
{
    let w = chars_of(b);
    if a.len() != w.len() {
        return false;
    }
    let mut i: usize = 0;
    while i < a.len()
        invariant
            i <= a.len(),
            a.len() == w.len(),
            w@ == b@,
            forall|k: int| 0 <= k < i ==> ascii_lower(a@[k]) == ascii_lower(w@[k]),
        decreases a.len() - i,
    {
        let x = a[i];
        let y = w[i];
        let lx = if 'A' <= x && x <= 'Z' { ((x as u32) + 32) as u8 as char } else { x };
        let ly = if 'A' <= y && y <= 'Z' { ((y as u32) + 32) as u8 as char } else { y };
        if lx != ly {
            assert(ascii_lower(a@[i as int]) != ascii_lower(w@[i as int]));
            return false;
        }
        i = i + 1;
    }
    true
}

/// Given a `--version` banner, does this tool understand `--protect-args`?
pub fn protect_args_decision(stdout: &str) -> (r: bool)
    ensures
        r == spec_protect_args(stdout@),
{
    let chars = chars_of(stdout);
    let ls = split_lines(chars.as_slice());
    let first = if ls.len() > 0 {
        trim_chars(ls[0].as_slice())
    } else {
        Vec::new()
    };
    assert(first@ == trim(if lines(stdout@).len() > 0 { lines(stdout@)[0] } else { Seq::<char>::empty() }));
    let first_text = string_of(first.as_slice());
    let lower = to_lowercase(first_text.as_str());
    let lc = chars_of(lower.as_str());
    let mark = chars_of("openrsync");
    if crate::text::find_chars(lc.as_slice(), mark.as_slice()).is_some() {
        return false;
    }
    assert(first@.skip(0) =~= first@);
    let (a1, b1) = match word_at(first.as_slice(), 0) {
        Some(w) => w,
        None => return false,
    };
    let w1 = slice_chars(first.as_slice(), a1, b1);
    if !ascii_eq_exec(w1.as_slice(), "rsync") {
        return false;
    }
    let (a2, b2) = match word_at(first.as_slice(), b1) {
        Some(w) => w,
        None => return false,
    };
    let w2 = slice_chars(first.as_slice(), a2, b2);
    if !ascii_eq_exec(w2.as_slice(), "version") {
        return false;
    }
    let w3 = match word_at(first.as_slice(), b2) {
        Some((a3, b3)) => slice_chars(first.as_slice(), a3, b3),
        None => Vec::new(),
    };
    let mut end: usize = 0;
    while end < w3.len() && '0' <= w3[end] && w3[end] <= '9'
        invariant
            end <= w3.len(),
            forall|k: int| 0 <= k < end ==> crate::text::is_digit(#[trigger] w3@[k]),
        decreases w3.len() - end,
    {
        end = end + 1;
    }
    proof {
        crate::transport::openssh::lemma_digit_run_prefix(w3@, end as int);
    }
    let run = slice_chars(w3.as_slice(), 0, end);
    assert(run@ =~= w3@.take(end as int));
    match parse_bounded(run.as_slice(), 4294967295) {
        Some(v) => v >= 3,
        None => false,
    }
}

/// Whether the remote side of argument `i` has a path the remote shell would
/// re-parse.
pub open spec fn quoting_need(arg: Seq<char>) -> bool {
    match spec_split_remote(arg) {
        Some((_, path)) => super::changes::needs_quoting(path),
        None => false,
    }
}

/// The first of the last two arguments (the endpoints) whose remote path needs
/// quoting.
pub open spec fn spec_needy_from(args: Seq<Seq<char>>, i: int) -> Option<int>
    decreases args.len() - i,
{
    if i < 0 || i >= args.len() {
        None
    } else if quoting_need(args[i]) {
        Some(i)
    } else {
        spec_needy_from(args, i + 1)
    }
}

pub open spec fn spec_needy(args: Seq<Seq<char>>) -> Option<int> {
    spec_needy_from(args, if args.len() >= 2 { args.len() - 2 } else { 0 })
}

/// Which endpoint argument needs its remote path kept literal, if any. Only
/// then is the `rsync --version` probe worth running.
pub fn needy_index(args: &[String]) -> (r: Option<usize>)
    ensures
        match r {
            Some(i) => spec_needy(string_views(args@)) == Some(i as int) && i < args.len(),
            None => spec_needy(string_views(args@)) is None,
        },
{
    let ghost views = string_views(args@);
    let mut i: usize = if args.len() >= 2 { args.len() - 2 } else { 0 };
    while i < args.len()
        invariant
            i <= args.len(),
            views == string_views(args@),
            spec_needy(views) == spec_needy_from(views, i as int),
        decreases args.len() - i,
    {
        assert(views[i as int] == args@[i as int]@);
        let need = match split_remote_spec(args[i].as_str()) {
            Some((_, path)) => {
                let n = path_needs_quoting(path.as_str());
                assert(quoting_need(views[i as int]) == n);
                n
            },
            None => false,
        };
        if need {
            return Some(i);
        }
        i = i + 1;
    }
    None
}

/// The rsync argv with its remote path kept one literal.
pub open spec fn spec_safe_rsync(args: Seq<Seq<char>>, protect_args: bool) -> Seq<Seq<char>> {
    match spec_needy(args) {
        None => args,
        Some(i) => if protect_args {
            seq!["--protect-args"@] + args
        } else {
            match spec_split_remote(args[i]) {
                Some((host, path)) => args.update(i, spec_remote_spec(host, crate::shell::spec_path_quote(path))),
                None => args,
            }
        },
    }
}

impl Tools {
    /// Prepares an rsync argv so the remote path survives the remote login
    /// shell. GNU rsync 3 understands `--protect-args` (`protect_args` is what
    /// [`protect_args_decision`] said of the installed rsync); openrsync and
    /// rsync 2 do not, and would fail the whole transfer on an unrecognised
    /// option, so the path is quoted for the remote shell by hand instead.
    pub fn safe_rsync_paths(&self, args: &[String], protect_args: bool) -> (r: Vec<String>)
        ensures
            string_views(r@) == spec_safe_rsync(string_views(args@), protect_args),
    {
        let ghost views = string_views(args@);
        let needy = needy_index(args);
        let mut out: Vec<String> = Vec::new();
        let index = match needy {
            None => {
                copy_strings(&mut out, args);
                return out;
            },
            Some(index) => index,
        };
        if protect_args {
            push_str(&mut out, "--protect-args");
            copy_strings(&mut out, args);
            assert(string_views(out@) =~= seq!["--protect-args"@] + views);
            return out;
        }
        copy_strings(&mut out, args);
        match split_remote_spec(args[index].as_str()) {
            Some((host, path)) => {
                let quoted = path_quote(path.as_str());
                let spec = remote_spec(host.as_str(), quoted.as_str());
                out.set(index, spec);
                assert(string_views(out@) =~= views.update(index as int, spec@));
            },
            None => {},
        }
        out
    }
}

fn copy_strings(out: &mut Vec<String>, args: &[String])
    ensures
        string_views(final(out)@) == string_views(old(out)@) + string_views(args@),
{
    let mut i: usize = 0;
    while i < args.len()
        invariant
            i <= args.len(),
            string_views(out@) == string_views(old(out)@) + string_views(args@).take(i as int),
        decreases args.len() - i,
    {
        push_str(out, args[i].as_str());
        assert(string_views(args@).take(i + 1) =~= string_views(args@).take(i as int).push(args@[i as int]@));
        i = i + 1;
    }
    assert(string_views(args@).take(i as int) =~= string_views(args@));
}

} // verus!
