//! The remote execution protocol: one wrapper script that runs a command in its
//! own session/process group, records its pid so a timed-out command can be
//! stopped remotely, and prints a nonce-bound completion marker carrying the
//! real exit status.
//!
//! The marker is *evidence*, not a handshake: it means something only because
//! the nonce is unguessable and is checked against the invocation that submitted
//! it.


pub mod stream;

use vstd::prelude::*;
use vstd::utf8::{decode_utf8, encode_utf8, valid_utf8};
use crate::base64::{encode, lemma_decode_encode, lemma_encode_alphabet, spec_decode, spec_encode};
use crate::domain::InvocationToken;
use crate::order::{chars_lt, key_lt};
use crate::shell::{path_quote, quote, quote_body, spec_path_quote, spec_quote};
use crate::text::{
    append_bytes, chars_of, find_bytes_from, find_first, find_last, find_last_bytes, slice_bytes,
    parse_i32, parse_signed, trim, trim_chars, decode_text, all_ascii,
};

verus! {

pub const MARKER_PREFIX: &'static str = "__RHOST_DONE_";

pub const BEGIN_PREFIX: &'static str = "__RHOST_BEGIN_";

/// The remote per-user state root, as a shell expression so the host can override
/// it with `RHOST_REMOTE_STATE`.
///
/// It is this major version's own directory: session records and the wrapper's
/// pid files are state, and a v4 binary must not adopt or delete what a v3
/// installation left behind.
pub const DEFAULT_REMOTE_STATE_DIR: &'static str = "$HOME/.local/state/rhost/v4";

/// How markers are separated from command output.
#[derive(Debug, Clone, Copy, PartialEq, Eq, Structural)]
pub enum Separator {
    /// A captured run: the marker is the last line, so a newline boundary is
    /// enough.
    Newline,
    /// A streamed run: a NUL boundary means the parser never has to hold back a
    /// command's final newline while deciding whether a marker follows.
    Nul,
}

impl Separator {
    /// The shell escape spelling emitted inside `printf`'s single-quoted format.
    pub open spec fn spec_printf(self) -> Seq<char> {
        match self {
            Separator::Newline => "\\n"@,
            Separator::Nul => "\\000"@,
        }
    }

    /// The byte the boundary is on the wire.
    pub open spec fn spec_byte(self) -> u8 {
        match self {
            Separator::Newline => 10,
            Separator::Nul => 0,
        }
    }

    fn printf(self) -> (r: &'static str)
        ensures
            r@ == self.spec_printf(),
    {
        match self {
            Separator::Newline => "\\n",
            Separator::Nul => "\\000",
        }
    }

    fn byte(self) -> (r: u8)
        ensures
            r == self.spec_byte(),
    {
        match self {
            Separator::Newline => 10,
            Separator::Nul => 0,
        }
    }
}

/// `__RHOST_DONE_<nonce>__`.
pub open spec fn spec_marker_token(nonce: Seq<char>) -> Seq<char> {
    MARKER_PREFIX@ + nonce + "__"@
}

/// `__RHOST_BEGIN_<nonce>__`.
pub open spec fn spec_begin_token(nonce: Seq<char>) -> Seq<char> {
    BEGIN_PREFIX@ + nonce + "__"@
}

/// The completion token bound to `nonce`.
pub fn marker_token(nonce: &InvocationToken) -> (r: String)
    ensures
        r@ == spec_marker_token(nonce@),
{
    let mut out = String::from_str(MARKER_PREFIX);
    out.append(nonce.as_str());
    out.append("__");
    out
}

/// The begin token bound to `nonce`.
pub fn begin_token(nonce: &InvocationToken) -> (r: String)
    ensures
        r@ == spec_begin_token(nonce@),
{
    let mut out = String::from_str(BEGIN_PREFIX);
    out.append(nonce.as_str());
    out.append("__");
    out
}

/// Separator, completion token, and the `:` that must follow the nonce.
pub open spec fn spec_done_needle(separator: Separator, nonce: Seq<char>) -> Seq<u8> {
    seq![separator.spec_byte()] + encode_utf8(spec_marker_token(nonce)) + seq![58u8]
}

/// Separator, begin token, and the newline the wrapper prints after it.
pub open spec fn spec_begin_needle(separator: Separator, nonce: Seq<char>) -> Seq<u8> {
    seq![separator.spec_byte()] + encode_utf8(spec_begin_token(nonce)) + seq![10u8]
}

/// The byte needle a reader searches for: separator, token, and for completion
/// the `:` that must follow the nonce.
pub fn done_needle(separator: Separator, nonce: &InvocationToken) -> (r: Vec<u8>)
    ensures
        r@ == spec_done_needle(separator, nonce@),
{
    let mut needle: Vec<u8> = Vec::new();
    needle.push(separator.byte());
    let token = marker_token(nonce);
    append_bytes(&mut needle, token.as_str().as_bytes());
    needle.push(58u8);
    assert(needle@ =~= spec_done_needle(separator, nonce@));
    needle
}

/// The begin needle includes the newline the wrapper prints after it: bytes up
/// to and including this needle are login-profile noise, never command output.
pub fn begin_needle(separator: Separator, nonce: &InvocationToken) -> (r: Vec<u8>)
    ensures
        r@ == spec_begin_needle(separator, nonce@),
{
    let mut needle: Vec<u8> = Vec::new();
    needle.push(separator.byte());
    let token = begin_token(nonce);
    append_bytes(&mut needle, token.as_str().as_bytes());
    needle.push(10u8);
    assert(needle@ =~= spec_begin_needle(separator, nonce@));
    needle
}

} // verus!

verus! {

/// The login-profile noise dropped from the front of a captured body: bytes up
/// to and including the first begin needle, when there is one.
pub open spec fn strip_noise(body: Seq<u8>, begin: Seq<u8>) -> Seq<u8> {
    match find_first(body, begin) {
        Some(noise) => body.subrange(noise + begin.len(), body.len() as int),
        None => body,
    }
}

/// The status a completion marker carries: the text up to the next newline,
/// valid UTF-8, trimmed, read as an `i32`.
pub open spec fn spec_parse_status(rest: Seq<u8>) -> Option<int> {
    match find_first(rest, seq![10u8]) {
        None => None,
        Some(end) => if valid_utf8(rest.take(end)) {
            parse_signed(trim(decode_utf8(rest.take(end))))
        } else {
            None
        },
    }
}

/// What a captured stdout says: the command's own output (everything before the
/// *last* completion marker for `nonce`, minus login-profile noise) and the
/// status that marker carries. No marker, or no readable status, is no evidence.
pub open spec fn spec_parse_marker(stdout: Seq<u8>, nonce: Seq<char>) -> Option<(Seq<u8>, int)> {
    let needle = spec_done_needle(Separator::Newline, nonce);
    match find_last(stdout, needle) {
        None => None,
        Some(start) => match spec_parse_status(
            stdout.subrange(start + needle.len(), stdout.len() as int),
        ) {
            None => None,
            Some(code) => Some(
                (strip_noise(stdout.take(start), spec_begin_needle(Separator::Newline, nonce)), code),
            ),
        },
    }
}

/// Reads the status that follows a completion marker.
pub(crate) fn parse_status(rest: &[u8]) -> (r: Option<i32>)
    ensures
        match r {
            Some(code) => spec_parse_status(rest@) == Some(code as int),
            None => spec_parse_status(rest@) is None,
        },
{
    let newline: Vec<u8> = vec![10u8];
    assert(newline@ =~= seq![10u8]);
    let end = match find_bytes_from(rest, newline.as_slice(), 0) {
        Some(end) => end,
        None => return None,
    };
    proof {
        crate::text::lemma_find_first(rest@, seq![10u8]);
    }
    let text = slice_bytes(rest, 0, end);
    assert(text@ =~= rest@.take(end as int));
    let chars = match decode_text(text.as_slice()) {
        Some(chars) => chars,
        None => return None,
    };
    let trimmed = trim_chars(chars.as_slice());
    parse_i32(trimmed.as_slice())
}

/// Splits captured stdout into the command's own output and its completion code.
///
/// Everything up to and including the *first* begin marker is login-profile
/// noise, not the command's output. A missing or unparseable marker yields no
/// evidence: it never becomes a known exit.
pub fn parse_marker(stdout: &[u8], nonce: &InvocationToken) -> (r: Option<(Vec<u8>, i32)>)
    ensures
        match r {
            Some((body, code)) => spec_parse_marker(stdout@, nonce@) == Some((body@, code as int)),
            None => spec_parse_marker(stdout@, nonce@) is None,
        },
{
    let needle = done_needle(Separator::Newline, nonce);
    let ghost needle_view = needle@;
    let start = match find_last_bytes(stdout, needle.as_slice()) {
        Some(start) => start,
        None => return None,
    };
    proof {
        crate::text::lemma_find_before(stdout@, needle_view, stdout@.len() + 1int);
        assert(crate::text::occurs_at(stdout@, needle_view, start as int));
        assert(needle_view.len() == needle.len());
        assert(start + needle.len() <= stdout.len());
    }
    let rest = slice_bytes(stdout, start + needle.len(), stdout.len());
    let code = match parse_status(rest.as_slice()) {
        Some(code) => code,
        None => return None,
    };
    let body = slice_bytes(stdout, 0, start);
    assert(body@ =~= stdout@.take(start as int));
    let begin = begin_needle(Separator::Newline, nonce);
    match find_bytes_from(body.as_slice(), begin.as_slice(), 0) {
        Some(noise) => {
            proof {
                crate::text::lemma_find_first(body@, begin@);
            }
            let kept = slice_bytes(body.as_slice(), noise + begin.len(), body.len());
            Some((kept, code))
        },
        None => Some((body, code)),
    }
}

} // verus!

verus! {

/// One environment entry as characters: `(key, value)`.
pub type EnvEntry = (Seq<char>, Seq<char>);

/// The characters of each `(key, value)` pair.
pub open spec fn env_view(env: Seq<(String, String)>) -> Seq<EnvEntry> {
    Seq::new(env.len(), |i: int| (env[i].0@, env[i].1@))
}

/// Where a stable insertion puts an entry with key `k`: after every entry
/// whose key is not greater than `k`, scanning from the end.
pub open spec fn insert_pos(sorted: Seq<EnvEntry>, k: Seq<char>) -> int
    decreases sorted.len(),
{
    if sorted.len() == 0 {
        0
    } else if key_lt(k, sorted.last().0) {
        insert_pos(sorted.drop_last(), k)
    } else {
        sorted.len() as int
    }
}

/// `sorted` with `x` inserted at its stable position.
pub open spec fn insert_sorted(sorted: Seq<EnvEntry>, x: EnvEntry) -> Seq<EnvEntry> {
    let p = insert_pos(sorted, x.0);
    sorted.take(p).push(x) + sorted.skip(p)
}

/// The entries in key order, equal keys keeping their original order.
#[verifier::opaque]
pub open spec fn sort_env(env: Seq<EnvEntry>) -> Seq<EnvEntry>
    decreases env.len(),
{
    if env.len() == 0 {
        env
    } else {
        insert_sorted(sort_env(env.drop_last()), env.last())
    }
}

/// One `export KEY='value'` line per entry, in order.
#[verifier::opaque]
pub open spec fn env_lines(env: Seq<EnvEntry>) -> Seq<char>
    decreases env.len(),
{
    if env.len() == 0 {
        Seq::empty()
    } else {
        env_lines(env.drop_last()) + "export "@ + env.last().0 + "="@ + spec_quote(env.last().1)
            + "\n"@
    }
}

proof fn lemma_insert_pos_bound(sorted: Seq<EnvEntry>, k: Seq<char>)
    ensures
        0 <= insert_pos(sorted, k) <= sorted.len(),
    decreases sorted.len(),
{
    if sorted.len() > 0 {
        lemma_insert_pos_bound(sorted.drop_last(), k);
    }
}

/// No entry's key sorts before the key of an entry in front of it.
pub open spec fn env_sorted(s: Seq<EnvEntry>) -> bool {
    forall|i: int, j: int| 0 <= i < j < s.len() ==> !key_lt(#[trigger] s[j].0, #[trigger] s[i].0)
}

/// An entry goes after every entry whose key does not sort after its own, and
/// before every entry whose key does.
proof fn lemma_insert_pos_splits(s: Seq<EnvEntry>, k: Seq<char>)
    requires
        env_sorted(s),
    ensures
        0 <= insert_pos(s, k) <= s.len(),
        forall|i: int| 0 <= i < insert_pos(s, k) ==> !key_lt(k, #[trigger] s[i].0),
        forall|i: int| insert_pos(s, k) <= i < s.len() ==> key_lt(k, #[trigger] s[i].0),
    decreases s.len(),
{
    if s.len() > 0 {
        let d = s.drop_last();
        assert(env_sorted(d));
        lemma_insert_pos_splits(d, k);
        if !key_lt(k, s.last().0) {
            assert(insert_pos(s, k) == s.len());
            assert forall|i: int| 0 <= i < s.len() implies !key_lt(k, #[trigger] s[i].0) by {
                if i < s.len() - 1 {
                    crate::order::lemma_key_lt_weak(s[i].0, s.last().0, k);
                }
            }
        } else {
            assert(insert_pos(s, k) == insert_pos(d, k));
            assert forall|i: int| 0 <= i < insert_pos(s, k) implies !key_lt(k, #[trigger] s[i].0) by {
                assert(s[i] == d[i]);
            }
            assert forall|i: int| insert_pos(s, k) <= i < s.len() implies key_lt(k, #[trigger] s[i].0) by {
                if i < s.len() - 1 {
                    assert(s[i] == d[i]);
                }
            }
        }
    }
}

/// Inserting at [`insert_pos`] keeps the entries sorted and adds exactly the
/// new entry.
proof fn lemma_insert_sorted(s: Seq<EnvEntry>, x: EnvEntry)
    requires
        env_sorted(s),
    ensures
        env_sorted(insert_sorted(s, x)),
        insert_sorted(s, x).to_multiset() == s.to_multiset().insert(x),
{
    lemma_insert_pos_splits(s, x.0);
    let p = insert_pos(s, x.0);
    let n = insert_sorted(s, x);
    assert(n =~= s.insert(p, x));
    vstd::seq_lib::to_multiset_insert(s, p, x);
    assert forall|a: int, b: int| 0 <= a < b < n.len() implies !key_lt(#[trigger] n[b].0, #[trigger] n[a].0) by {
        if b < p {
        } else if b == p {
        } else if a < p {
            crate::order::lemma_key_lt_asymmetric(x.0, s[b - 1].0);
            crate::order::lemma_key_lt_weak(s[a].0, x.0, s[b - 1].0);
        } else if a == p {
            crate::order::lemma_key_lt_asymmetric(x.0, s[b - 1].0);
        } else {
        }
    }
}

/// The exported environment is in key order and holds exactly the entries the
/// caller gave, each as often as given: the same request produces the same
/// script however its entries were ordered.
pub proof fn lemma_env_sorted_permutation(env: Seq<EnvEntry>)
    ensures
        env_sorted(sort_env(env)),
        sort_env(env).to_multiset() == env.to_multiset(),
    decreases env.len(),
{
    reveal(sort_env);
    if env.len() == 0 {
        assert(env.to_multiset() =~= vstd::multiset::Multiset::<EnvEntry>::empty()) by {
            vstd::seq_lib::to_multiset_len(env);
        }
    } else {
        lemma_env_sorted_permutation(env.drop_last());
        lemma_insert_sorted(sort_env(env.drop_last()), env.last());
        assert(env =~= env.drop_last().push(env.last()));
        vstd::seq_lib::to_multiset_build(env.drop_last(), env.last());
    }
}

/// Appends the export lines for `env`, in stable key order.
fn push_env(out: &mut String, env: &[(String, String)])
    ensures
        final(out)@ == old(out)@ + env_lines(sort_env(env_view(env@))),
{
    reveal(sort_env);
    reveal(env_lines);
    let ghost pairs = env_view(env@);
    let mut keys: Vec<Vec<char>> = Vec::new();
    let mut k: usize = 0;
    while k < env.len()
        invariant
            k <= env.len(),
            keys.len() == k,
            forall|j: int| 0 <= j < k ==> (#[trigger] keys@[j])@ == env@[j].0@,
        decreases env.len() - k,
    {
        keys.push(chars_of(env[k].0.as_str()));
        k = k + 1;
    }
    let mut order: Vec<usize> = Vec::new();
    let mut i: usize = 0;
    while i < env.len()
        invariant
            i <= env.len(),
            pairs == env_view(env@),
            keys.len() == env.len(),
            forall|j: int| 0 <= j < env.len() ==> (#[trigger] keys@[j])@ == env@[j].0@,
            order.len() == i,
            forall|j: int| 0 <= j < order.len() ==> #[trigger] order@[j] < i,
            order@.map_values(|j: usize| pairs[j as int]) == sort_env(pairs.take(i as int)),
        decreases env.len() - i,
    {
        let ghost sorted = order@.map_values(|j: usize| pairs[j as int]);
        let mut p = order.len();
        assert(sorted.take(p as int) =~= sorted);
        while p > 0 && chars_lt(keys[i].as_slice(), keys[order[p - 1]].as_slice())
            invariant
                i < env.len(),
                p <= order.len(),
                keys.len() == env.len(),
                forall|j: int| 0 <= j < env.len() ==> (#[trigger] keys@[j])@ == env@[j].0@,
                forall|j: int| 0 <= j < order.len() ==> #[trigger] order@[j] < i,
                pairs == env_view(env@),
                sorted == order@.map_values(|j: usize| pairs[j as int]),
                insert_pos(sorted, pairs[i as int].0) == insert_pos(sorted.take(p as int), pairs[i as int].0),
            decreases p,
        {
            assert(sorted.take(p as int).drop_last() =~= sorted.take(p - 1));
            assert(sorted.take(p as int).last() == pairs[order@[p - 1] as int]);
            p = p - 1;
        }
        proof {
            if p > 0 {
                assert(sorted.take(p as int).last() == pairs[order@[p - 1] as int]);
            }
            assert(insert_pos(sorted.take(p as int), pairs[i as int].0) == p);
            assert(pairs.take(i + 1).drop_last() =~= pairs.take(i as int));
            assert(pairs.take(i + 1).last() == pairs[i as int]);
        }
        order.insert(p, i);
        proof {
            reveal(sort_env);
        }
        assert(order@.map_values(|j: usize| pairs[j as int]) =~= insert_sorted(sorted, pairs[i as int]));
        i = i + 1;
    }
    assert(pairs.take(env.len() as int) =~= pairs);
    let ghost sorted = sort_env(pairs);
    let ghost start = out@;
    let mut t: usize = 0;
    while t < order.len()
        invariant
            t <= order.len(),
            order.len() == env.len(),
            forall|j: int| 0 <= j < order.len() ==> #[trigger] order@[j] < env.len(),
            pairs == env_view(env@),
            sorted == order@.map_values(|j: usize| pairs[j as int]),
            out@ == start + env_lines(sorted.take(t as int)),
        decreases order.len() - t,
    {
        let j = order[t];
        out.append("export ");
        out.append(env[j].0.as_str());
        out.append("=");
        let q = quote(env[j].1.as_str());
        out.append(q.as_str());
        out.append("\n");
        proof {
            reveal(env_lines);
        }
        assert(sorted.take(t + 1).drop_last() =~= sorted.take(t as int));
        assert(sorted.take(t + 1).last() == pairs[j as int]);
        t = t + 1;
    }
    assert(sorted.take(order.len() as int) =~= sorted);
}

/// Whether a command's text already ends with a newline.
pub open spec fn ends_in_newline(command: Seq<char>) -> bool {
    command.len() > 0 && command.last() == '\n'
}

fn command_ends_in_newline(command: &str) -> (r: bool)
    ensures
        r == ends_in_newline(command@),
{
    let v = chars_of(command);
    v.len() > 0 && v[v.len() - 1] == '\n'
}

/// One foreground submission.
pub struct ExecSpec<'a> {
    pub command: &'a str,
    pub cwd: Option<&'a str>,
    pub env: &'a [(String, String)],
    pub nonce: &'a InvocationToken,
    pub remote_state_dir: Option<&'a str>,
}

/// The wrapper [`build_script`] writes.
pub open spec fn spec_build_script(spec: ExecSpec, separator: Separator) -> Seq<char> {
    (if spec.remote_state_dir is Some {
        "RHOST_RD="@
        + (spec_quote(spec.remote_state_dir.unwrap()@))
        + "\n"@
    } else {
        "RHOST_RD=\"${RHOST_REMOTE_STATE:-"@
        + (DEFAULT_REMOTE_STATE_DIR@)
        + "}\"\n"@
    })
    + "mkdir -p \"$RHOST_RD/run\" 2>/dev/null && RHOST_PD=\"$RHOST_RD/run\" || RHOST_PD=\"${TMPDIR:-/tmp}\"\nRHOST_PF=\"$RHOST_PD/rhost-"@
    + (spec.nonce@)
    + ".pid\"\nRHOST_PS=$(ps -o lstart= -p \"$$\" 2>/dev/null)\n[ -n \"$RHOST_PS\" ] && printf '%s\\n%s\\n' \"$$\" \"$RHOST_PS\" > \"$RHOST_PF\" 2>/dev/null || RHOST_PF=\"\"\ntrap 'rm -f \"$RHOST_PF\"' EXIT\n"@
    + (if spec.cwd is Some {
        (Seq::<char>::empty())
        + "cd -- "@
        + (spec_path_quote(spec.cwd.unwrap()@))
        + " 2>/dev/null || { printf 'rhost: cannot change directory to %s\\n' "@
        + (spec_path_quote(spec.cwd.unwrap()@))
        + " >&2; printf '"@
        + (separator.spec_printf())
        + (spec_marker_token(spec.nonce@))
        + ":%d\\n' 126; exit 0; }\n"@
    } else {
        Seq::<char>::empty()
    })
    + (env_lines(sort_env(env_view(spec.env@))))
    + "printf '"@
    + (separator.spec_printf())
    + (spec_begin_token(spec.nonce@))
    + "\\n'\n(\n"@
    + (spec.command@)
    + (if !ends_in_newline(spec.command@) {
        "\n"@
    } else {
        Seq::<char>::empty()
    })
    + ")\nRHOST_EC=$?\nprintf '"@
    + (separator.spec_printf())
    + (spec_marker_token(spec.nonce@))
    + ":%d\\n' \"$RHOST_EC\"\nexit 0\n"@
}

/// The bash script executed on the remote host.
///
/// It runs under a login shell (`bash -lc`) inside a new session (`setsid`), so
/// `$$` is the session and process-group leader and the whole command can be
/// stopped with `kill -TERM -$$`. The script always exits 0: the command's real
/// status rides in the completion marker, which keeps the ssh-level exit status
/// free to signal *transport* failure unambiguously. `env` is exported in key
/// order (a stable sort), so the same request always produces the same script.
#[verifier::rlimit(60)]
pub fn build_script(spec: &ExecSpec<'_>, separator: Separator) -> (r: String)
    ensures
        r@ == spec_build_script(*spec, separator),
{
    let marker = marker_token(spec.nonce);
    let mut out = String::new();
    if spec.remote_state_dir.is_some() {
        out.append("RHOST_RD=");
        let q = quote(spec.remote_state_dir.unwrap());
        out.append(q.as_str());
        out.append("\n");
    } else {
        out.append("RHOST_RD=\"${RHOST_REMOTE_STATE:-");
        out.append(DEFAULT_REMOTE_STATE_DIR);
        out.append("}\"\n");
    }
    out.append("mkdir -p \"$RHOST_RD/run\" 2>/dev/null && RHOST_PD=\"$RHOST_RD/run\" || RHOST_PD=\"${TMPDIR:-/tmp}\"\nRHOST_PF=\"$RHOST_PD/rhost-");
    out.append(spec.nonce.as_str());
    out.append(".pid\"\nRHOST_PS=$(ps -o lstart= -p \"$$\" 2>/dev/null)\n[ -n \"$RHOST_PS\" ] && printf '%s\\n%s\\n' \"$$\" \"$RHOST_PS\" > \"$RHOST_PF\" 2>/dev/null || RHOST_PF=\"\"\ntrap 'rm -f \"$RHOST_PF\"' EXIT\n");
    if spec.cwd.is_some() {
        let quoted = path_quote(spec.cwd.unwrap());
        out.append("cd -- ");
        out.append(quoted.as_str());
        out.append(" 2>/dev/null || { printf 'rhost: cannot change directory to %s\\n' ");
        out.append(quoted.as_str());
        out.append(" >&2; printf '");
        out.append(separator.printf());
        out.append(marker.as_str());
        out.append(":%d\\n' 126; exit 0; }\n");
    }
    push_env(&mut out, spec.env);
    out.append("printf '");
    out.append(separator.printf());
    let begin = begin_token(spec.nonce);
    out.append(begin.as_str());
    out.append("\\n'\n(\n");
    out.append(spec.command);
    if !command_ends_in_newline(spec.command) {
        out.append("\n");
    }
    out.append(")\nRHOST_EC=$?\nprintf '");
    out.append(separator.printf());
    out.append(marker.as_str());
    out.append(":%d\\n' \"$RHOST_EC\"\nexit 0\n");
    proof {
        assert(out@ =~= spec_build_script(*spec, separator));
    }
    out
}


/// The cleanup command [`kill_command`] builds.
pub open spec fn spec_kill_command(nonce: Seq<char>) -> Seq<char> {
    "f1=\"${RHOST_REMOTE_STATE:-"@
    + (DEFAULT_REMOTE_STATE_DIR@)
    + "}/run/rhost-"@
    + (nonce)
    + ".pid\"; f2=\"${TMPDIR:-/tmp}/rhost-"@
    + (nonce)
    + ".pid\"; pf=\"$f1\"; [ -f \"$pf\" ] || pf=\"$f2\"; { IFS= read -r p; IFS= read -r started; } < \"$pf\" 2>/dev/null || { echo cleanup-unknown; exit 0; }; case \"$p\" in ''|*[!0-9]*) echo cleanup-unknown; exit 0;; esac; now=$(ps -o lstart= -p \"$p\" 2>/dev/null); pg=$(ps -o pgid= -p \"$p\" 2>/dev/null | tr -d ' '); sid=$(ps -o sid= -p \"$p\" 2>/dev/null | tr -d ' '); [ -n \"$started\" ] && [ \"$now\" = \"$started\" ] && [ \"$pg\" = \"$p\" ] && [ \"$sid\" = \"$p\" ] || { echo cleanup-unknown; exit 0; }; kill -TERM -\"$p\" 2>/dev/null || { echo cleanup-unknown; exit 0; }; i=0; while [ \"$i\" -lt 10 ] && ps -eo pgid= 2>/dev/null | tr -d ' ' | grep -qx \"$p\"; do sleep 0.1; i=$((i+1)); done; if ps -eo pgid= 2>/dev/null | tr -d ' ' | grep -qx \"$p\"; then kill -KILL -\"$p\" 2>/dev/null || { echo cleanup-unknown; exit 0; }; fi; i=0; while [ \"$i\" -lt 10 ] && ps -eo pgid= 2>/dev/null | tr -d ' ' | grep -qx \"$p\"; do sleep 0.1; i=$((i+1)); done; if ps -eo pgid= 2>/dev/null | tr -d ' ' | grep -qx \"$p\"; then echo cleanup-unknown; else rm -f \"$f1\" \"$f2\"; echo cleanup-confirmed; fi"@
}

/// A remote command that stops the process group recorded for `nonce`,
/// escalating TERM then KILL, and prints exactly one verdict.
///
/// Killing the local ssh process does not stop the remote command, so cleanup is
/// a separate submission. A missing pid file, a pid that is no longer the same
/// process, or a group that survives both signals mean the same thing: rhost
/// cannot claim the command stopped.
pub fn kill_command(nonce: &InvocationToken) -> (r: String)
    ensures
        r@ == spec_kill_command(nonce@),
{
    let name = nonce.as_str();
    let mut out = String::new();
    out.append("f1=\"${RHOST_REMOTE_STATE:-");
    out.append(DEFAULT_REMOTE_STATE_DIR);
    out.append("}/run/rhost-");
    out.append(name);
    out.append(".pid\"; f2=\"${TMPDIR:-/tmp}/rhost-");
    out.append(name);
    out.append(".pid\"; pf=\"$f1\"; [ -f \"$pf\" ] || pf=\"$f2\"; { IFS= read -r p; IFS= read -r started; } < \"$pf\" 2>/dev/null || { echo cleanup-unknown; exit 0; }; case \"$p\" in ''|*[!0-9]*) echo cleanup-unknown; exit 0;; esac; now=$(ps -o lstart= -p \"$p\" 2>/dev/null); pg=$(ps -o pgid= -p \"$p\" 2>/dev/null | tr -d ' '); sid=$(ps -o sid= -p \"$p\" 2>/dev/null | tr -d ' '); [ -n \"$started\" ] && [ \"$now\" = \"$started\" ] && [ \"$pg\" = \"$p\" ] && [ \"$sid\" = \"$p\" ] || { echo cleanup-unknown; exit 0; }; kill -TERM -\"$p\" 2>/dev/null || { echo cleanup-unknown; exit 0; }; i=0; while [ \"$i\" -lt 10 ] && ps -eo pgid= 2>/dev/null | tr -d ' ' | grep -qx \"$p\"; do sleep 0.1; i=$((i+1)); done; if ps -eo pgid= 2>/dev/null | tr -d ' ' | grep -qx \"$p\"; then kill -KILL -\"$p\" 2>/dev/null || { echo cleanup-unknown; exit 0; }; fi; i=0; while [ \"$i\" -lt 10 ] && ps -eo pgid= 2>/dev/null | tr -d ' ' | grep -qx \"$p\"; do sleep 0.1; i=$((i+1)); done; if ps -eo pgid= 2>/dev/null | tr -d ' ' | grep -qx \"$p\"; then echo cleanup-unknown; else rm -f \"$f1\" \"$f2\"; echo cleanup-confirmed; fi");
    proof {
        assert(out@ =~= spec_kill_command(nonce@));
    }
    out
}


/// `exec setsid bash -lc '<eval of the base64 script>'`.
pub open spec fn spec_wrap_script(script: Seq<char>) -> Seq<char> {
    "exec setsid bash -lc "@ + spec_quote(
        "eval \"$(printf %s "@ + spec_encode(encode_utf8(script)) + " | base64 -d)\""@,
    )
}

/// The command string handed to `ssh`.
///
/// Only ASCII base64 crosses the remote account's login-shell parser: fish and
/// POSIX shells disagree about backslashes inside single quotes, and this outer
/// string is parsed by whichever shell the account uses.
pub fn wrap_script(script: &str) -> (r: String)
    ensures
        r@ == spec_wrap_script(script@),
{
    let encoded = encode(script.as_bytes());
    let mut inner = String::from_str("eval \"$(printf %s ");
    inner.append(encoded.as_str());
    inner.append(" | base64 -d)\"");
    let quoted = quote(inner.as_str());
    let mut out = String::from_str("exec setsid bash -lc ");
    out.append(quoted.as_str());
    out
}

/// Text without a single quote stands unchanged between single quotes.
proof fn lemma_quote_body_plain(s: Seq<char>)
    requires
        forall|i: int| 0 <= i < s.len() ==> s[i] != '\'',
    ensures
        quote_body(s) == s,
    decreases s.len(),
{
    if s.len() > 0 {
        lemma_quote_body_plain(s.drop_last());
        assert(s.drop_last().push(s.last()) =~= s);
    }
}

/// What crosses the remote login shell is plain ASCII, and it carries the
/// script: fixed text around the base64 of the script's UTF-8 bytes, which
/// decodes back to exactly those bytes.
#[verifier::spinoff_prover]
pub proof fn lemma_wrapped_script_carries_the_script(script: Seq<char>)
    ensures
        spec_wrap_script(script) == "exec setsid bash -lc 'eval \"$(printf %s "@ + spec_encode(
            encode_utf8(script),
        ) + " | base64 -d)\"'"@,
        all_ascii(spec_wrap_script(script)),
        spec_decode(spec_encode(encode_utf8(script))) == Some(encode_utf8(script)),
{
    let enc = spec_encode(encode_utf8(script));
    lemma_encode_alphabet(encode_utf8(script));
    lemma_decode_encode(encode_utf8(script));
    reveal_strlit("eval \"$(printf %s ");
    reveal_strlit(" | base64 -d)\"");
    reveal_strlit("exec setsid bash -lc ");
    reveal_strlit("exec setsid bash -lc 'eval \"$(printf %s ");
    reveal_strlit(" | base64 -d)\"'");
    let inner = "eval \"$(printf %s "@ + enc + " | base64 -d)\""@;
    assert forall|i: int| 0 <= i < inner.len() implies inner[i] != '\'' && (inner[i] as u32) < 128 by {
        if 18 <= i < 18 + enc.len() {
            assert(inner[i] == enc[i - 18]);
        }
    }
    lemma_quote_body_plain(inner);
    assert(spec_wrap_script(script) =~= "exec setsid bash -lc 'eval \"$(printf %s "@ + enc + " | base64 -d)\"'"@);
}

/// The shell expression both sides resolve for the remote state directory when
/// none is given: the host's `RHOST_REMOTE_STATE`, or the default.
pub open spec fn default_state_dir() -> Seq<char> {
    "${RHOST_REMOTE_STATE:-"@ + (DEFAULT_REMOTE_STATE_DIR@) + "}"@
}

/// Cleanup looks where the wrapper recorded the pid: with no state directory
/// given, the wrapper resolves its state directory from the same expression
/// the cleanup command uses, files the pid as `run/rhost-<nonce>.pid` there
/// (falling back to `$TMPDIR` or `/tmp`), and those are exactly the cleanup
/// command's two candidates, in that order.
#[verifier::spinoff_prover]
#[verifier::rlimit(60)]
pub proof fn lemma_cleanup_finds_the_wrapper_pid(spec: ExecSpec, separator: Separator)
    requires
        spec.remote_state_dir is None,
    ensures
        ("RHOST_RD=\""@ + default_state_dir()
            + "\"\nmkdir -p \"$RHOST_RD/run\" 2>/dev/null && RHOST_PD=\"$RHOST_RD/run\" || RHOST_PD=\"${TMPDIR:-/tmp}\"\nRHOST_PF=\"$RHOST_PD/rhost-"@
            + spec.nonce@ + ".pid\""@).is_prefix_of(spec_build_script(spec, separator)),
        ("f1=\""@ + default_state_dir() + "/run/rhost-"@ + spec.nonce@ + ".pid\"; f2=\"${TMPDIR:-/tmp}/rhost-"@
            + spec.nonce@ + ".pid\""@).is_prefix_of(spec_kill_command(spec.nonce@)),
{
    let n = spec.nonce@;
    let w = spec_build_script(spec, separator);
    let k = spec_kill_command(n);
    let wp = "RHOST_RD=\""@ + default_state_dir()
        + "\"\nmkdir -p \"$RHOST_RD/run\" 2>/dev/null && RHOST_PD=\"$RHOST_RD/run\" || RHOST_PD=\"${TMPDIR:-/tmp}\"\nRHOST_PF=\"$RHOST_PD/rhost-"@
        + n + ".pid\""@;
    let kp = "f1=\""@ + default_state_dir() + "/run/rhost-"@ + n + ".pid\"; f2=\"${TMPDIR:-/tmp}/rhost-"@ + n
        + ".pid\""@;
    reveal_strlit("RHOST_RD=\"");
    reveal_strlit("RHOST_RD=\"${RHOST_REMOTE_STATE:-");
    reveal_strlit("${RHOST_REMOTE_STATE:-");
    reveal_strlit("}");
    reveal_strlit("}\"\n");
    reveal_strlit("\"\nmkdir -p \"$RHOST_RD/run\" 2>/dev/null && RHOST_PD=\"$RHOST_RD/run\" || RHOST_PD=\"${TMPDIR:-/tmp}\"\nRHOST_PF=\"$RHOST_PD/rhost-");
    reveal_strlit("mkdir -p \"$RHOST_RD/run\" 2>/dev/null && RHOST_PD=\"$RHOST_RD/run\" || RHOST_PD=\"${TMPDIR:-/tmp}\"\nRHOST_PF=\"$RHOST_PD/rhost-");
    reveal_strlit(".pid\"");
    reveal_strlit(".pid\"\nRHOST_PS=$(ps -o lstart= -p \"$$\" 2>/dev/null)\n[ -n \"$RHOST_PS\" ] && printf '%s\\n%s\\n' \"$$\" \"$RHOST_PS\" > \"$RHOST_PF\" 2>/dev/null || RHOST_PF=\"\"\ntrap 'rm -f \"$RHOST_PF\"' EXIT\n");
    reveal_strlit("f1=\"");
    reveal_strlit("f1=\"${RHOST_REMOTE_STATE:-");
    reveal_strlit("/run/rhost-");
    reveal_strlit("}/run/rhost-");
    reveal_strlit(".pid\"; f2=\"${TMPDIR:-/tmp}/rhost-");
    reveal_strlit(".pid\"; pf=\"$f1\"; [ -f \"$pf\" ] || pf=\"$f2\"; { IFS= read -r p; IFS= read -r started; } < \"$pf\" 2>/dev/null || { echo cleanup-unknown; exit 0; }; case \"$p\" in ''|*[!0-9]*) echo cleanup-unknown; exit 0;; esac; now=$(ps -o lstart= -p \"$p\" 2>/dev/null); pg=$(ps -o pgid= -p \"$p\" 2>/dev/null | tr -d ' '); sid=$(ps -o sid= -p \"$p\" 2>/dev/null | tr -d ' '); [ -n \"$started\" ] && [ \"$now\" = \"$started\" ] && [ \"$pg\" = \"$p\" ] && [ \"$sid\" = \"$p\" ] || { echo cleanup-unknown; exit 0; }; kill -TERM -\"$p\" 2>/dev/null || { echo cleanup-unknown; exit 0; }; i=0; while [ \"$i\" -lt 10 ] && ps -eo pgid= 2>/dev/null | tr -d ' ' | grep -qx \"$p\"; do sleep 0.1; i=$((i+1)); done; if ps -eo pgid= 2>/dev/null | tr -d ' ' | grep -qx \"$p\"; then kill -KILL -\"$p\" 2>/dev/null || { echo cleanup-unknown; exit 0; }; fi; i=0; while [ \"$i\" -lt 10 ] && ps -eo pgid= 2>/dev/null | tr -d ' ' | grep -qx \"$p\"; do sleep 0.1; i=$((i+1)); done; if ps -eo pgid= 2>/dev/null | tr -d ' ' | grep -qx \"$p\"; then echo cleanup-unknown; else rm -f \"$f1\" \"$f2\"; echo cleanup-confirmed; fi");
    assert(wp =~= w.subrange(0, wp.len() as int));
    assert(kp =~= k.subrange(0, kp.len() as int));
}

/// A command given a directory it cannot enter never runs, and its run says
/// so: the script enters the directory with `cd -- <quoted directory>`, and
/// when that fails it complains on stderr and prints this invocation's
/// completion marker with status 126, then ends before the command.
#[verifier::spinoff_prover]
#[verifier::rlimit(60)]
pub proof fn lemma_unenterable_directory_reports_126(spec: ExecSpec, separator: Separator)
    requires
        spec.cwd is Some,
    ensures
        exists|i: int|
            crate::text::occurs_at(
                spec_build_script(spec, separator),
                "cd -- "@ + spec_path_quote(spec.cwd.unwrap()@)
                    + " 2>/dev/null || { printf 'rhost: cannot change directory to %s\\n' "@
                    + spec_path_quote(spec.cwd.unwrap()@) + " >&2; printf '"@ + separator.spec_printf()
                    + spec_marker_token(spec.nonce@) + ":%d\\n' "@ + "126"@ + "; exit 0; }"@,
                i,
            ),
{
    let q = spec_path_quote(spec.cwd.unwrap()@);
    let head = (if spec.remote_state_dir is Some {
        "RHOST_RD="@
        + (spec_quote(spec.remote_state_dir.unwrap()@))
        + "\n"@
    } else {
        "RHOST_RD=\"${RHOST_REMOTE_STATE:-"@
        + (DEFAULT_REMOTE_STATE_DIR@)
        + "}\"\n"@
    })
    + "mkdir -p \"$RHOST_RD/run\" 2>/dev/null && RHOST_PD=\"$RHOST_RD/run\" || RHOST_PD=\"${TMPDIR:-/tmp}\"\nRHOST_PF=\"$RHOST_PD/rhost-"@
    + (spec.nonce@)
    + ".pid\"\nRHOST_PS=$(ps -o lstart= -p \"$$\" 2>/dev/null)\n[ -n \"$RHOST_PS\" ] && printf '%s\\n%s\\n' \"$$\" \"$RHOST_PS\" > \"$RHOST_PF\" 2>/dev/null || RHOST_PF=\"\"\ntrap 'rm -f \"$RHOST_PF\"' EXIT\n"@;
    let body = "cd -- "@ + q + " 2>/dev/null || { printf 'rhost: cannot change directory to %s\\n' "@ + q
        + " >&2; printf '"@ + separator.spec_printf() + spec_marker_token(spec.nonce@);
    let needle = body + ":%d\\n' "@ + "126"@ + "; exit 0; }"@;
    let branch = (Seq::<char>::empty()) + body + ":%d\\n' 126; exit 0; }\n"@;
    reveal_strlit(":%d\\n' ");
    reveal_strlit("126");
    reveal_strlit("; exit 0; }");
    reveal_strlit(":%d\\n' 126; exit 0; }\n");
    assert(needle =~= branch.take(needle.len() as int));
    let w = spec_build_script(spec, separator);
    let rest = env_lines(sort_env(env_view(spec.env@))) + "printf '"@ + (separator.spec_printf())
        + (spec_begin_token(spec.nonce@)) + "\\n'\n(\n"@ + (spec.command@) + (if !ends_in_newline(
        spec.command@,
    ) {
        "\n"@
    } else {
        Seq::<char>::empty()
    }) + ")\nRHOST_EC=$?\nprintf '"@ + (separator.spec_printf()) + (spec_marker_token(spec.nonce@))
        + ":%d\\n' \"$RHOST_EC\"\nexit 0\n"@;
    assert(w =~= head + branch + rest);
    assert(w.subrange(head.len() as int, head.len() + needle.len() as int) =~= needle);
    assert(crate::text::occurs_at(w, needle, head.len() as int));
}

/// The command's own exit status is what the completion marker carries: the
/// script ends by saving `$?` right after the command's subshell and printing
/// this invocation's marker with it, then exits 0 so the ssh status stays
/// free for transport failures.
pub proof fn lemma_marker_carries_the_command_status(spec: ExecSpec, separator: Separator)
    ensures
        crate::text::has_suffix(
            spec_build_script(spec, separator),
            ")\nRHOST_EC=$?\nprintf '"@ + separator.spec_printf() + spec_marker_token(spec.nonce@) + ":%d\\n' "@
                + "\"$RHOST_EC\""@ + "\nexit 0\n"@,
        ),
{
    let w = spec_build_script(spec, separator);
    let tail = ")\nRHOST_EC=$?\nprintf '"@ + separator.spec_printf() + spec_marker_token(spec.nonce@)
        + ":%d\\n' \"$RHOST_EC\"\nexit 0\n"@;
    let suffix = ")\nRHOST_EC=$?\nprintf '"@ + separator.spec_printf() + spec_marker_token(spec.nonce@) + ":%d\\n' "@
        + "\"$RHOST_EC\""@ + "\nexit 0\n"@;
    reveal_strlit(":%d\\n' ");
    reveal_strlit("\"$RHOST_EC\"");
    reveal_strlit("\nexit 0\n");
    reveal_strlit(":%d\\n' \"$RHOST_EC\"\nexit 0\n");
    assert(suffix =~= tail);
    assert(w.subrange(w.len() - tail.len(), w.len() as int) =~= tail);
}

} // verus!
