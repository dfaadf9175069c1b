//! The two operands of a single-file copy, and the `scp` argv built from them.
use vstd::prelude::*;
use crate::text::{
    chars_of, find_chars, find_first, find_last, find_last_chars, has_char, has_prefix,
    lemma_find_first, lemma_find_before, push_str, slice_chars, starts_with, string_of,
    string_views, trim, trim_chars,
};
use super::{
    check_view, debug_str, invalid, naming, reject, text_view, Refusal, RefusalView,
};

verus! {

/// `s` holds a newline or a NUL.
pub open spec fn has_control(s: Seq<char>) -> bool {
    s.contains('\n') || s.contains('\0')
}

/// `s` holds a character a remote shell would expand as a glob.
pub open spec fn has_glob(s: Seq<char>) -> bool {
    s.contains('*') || s.contains('?') || s.contains('[')
}

/// `s` without its trailing `c` characters.
pub open spec fn trim_end_char(s: Seq<char>, c: char) -> Seq<char>
    decreases s.len(),
{
    if s.len() > 0 && s.last() == c {
        trim_end_char(s.drop_last(), c)
    } else {
        s
    }
}

fn has_control_exec(s: &[char]) -> (r: bool)
    ensures
        r == has_control(s@),
{
    has_char(s, '\n') || has_char(s, '\0')
}

fn has_glob_exec(s: &[char]) -> (r: bool)
    ensures
        r == has_glob(s@),
{
    has_char(s, '*') || has_char(s, '?') || has_char(s, '[')
}

/// The length of `s` without its trailing `c` characters.
pub(crate) fn trim_end_char_len(s: &[char], c: char) -> (r: usize)
    ensures
        r <= s.len(),
        trim_end_char(s@, c) == s@.take(r as int),
{
    let mut n = s.len();
    assert(s@.take(n as int) =~= s@);
    while n > 0 && s[n - 1] == c
        invariant
            n <= s.len(),
            trim_end_char(s@, c) == trim_end_char(s@.take(n as int), c),
        decreases n,
    {
        assert(s@.take(n as int).drop_last() =~= s@.take(n - 1));
        n = n - 1;
    }
    proof {
        if n > 0 {
            assert(s@.take(n as int).last() == s@[n - 1]);
        }
    }
    n
}

// ---------------------------------------------------------------------------
// Remote specs
// ---------------------------------------------------------------------------

/// Outer shell quotes around a remote path: the first and last bytes are
/// both `'` or both `"`.
pub open spec fn outer_quotes(bytes: Seq<u8>) -> bool {
    bytes.len() >= 2 && ((bytes[0] == 39 && bytes.last() == 39) || (bytes[0] == 34 && bytes.last()
        == 34))
}

/// Rejects a pair of outer shell quotes while preserving quote characters
/// anywhere inside the name: quotes belong to the caller's shell, never to the
/// path.
pub fn validate_remote_path(path: &str) -> (r: Result<(), Refusal>)
    ensures
        check_view(r) == (if outer_quotes(vstd::utf8::encode_utf8(path@)) {
            Err(RefusalView::InvalidPath("remote path "@ + debug_str(path@)
                + " includes outer shell quotes; quote the argument without making quotes part of the path"@))
        } else {
            Ok(())
        }),
{
    let bytes = path.as_bytes();
    if bytes.len() >= 2 {
        let first = bytes[0];
        let last = bytes[bytes.len() - 1];
        if (first == 39u8 && last == 39u8) || (first == 34u8 && last == 34u8) {
            return Err(invalid(naming("remote path ", path,
                " includes outer shell quotes; quote the argument without making quotes part of the path")));
        }
    }
    Ok(())
}

/// A host with a colon and no bracket is an IPv6 literal: it is bracketed,
/// after any `user@`, so the first colon stays the separator.
pub open spec fn spec_bracket_host(host: Seq<char>) -> Seq<char> {
    if host.contains(':') && !host.contains('[') {
        match find_last(host, seq!['@']) {
            Some(at) => host.take(at + 1) + "["@ + host.skip(at + 1) + "]"@,
            None => "["@ + host + "]"@,
        }
    } else {
        host
    }
}

/// `host:path`, with an IPv6 host bracketed.
pub open spec fn spec_remote_spec(host: Seq<char>, path: Seq<char>) -> Seq<char> {
    spec_bracket_host(host) + ":"@ + path
}

/// Renders the `host:path` form scp and rsync understand. The host is whatever
/// the user named and is never rewritten; IPv6 literals are bracketed so the
/// first colon stays a separator.
pub fn remote_spec(host: &str, path: &str) -> (r: String)
    ensures
        r@ == spec_remote_spec(host@, path@),
{
    let h = chars_of(host);
    let mut out = String::new();
    if has_char(h.as_slice(), ':') && !has_char(h.as_slice(), '[') {
        let at_sign: Vec<char> = vec!['@'];
        assert(at_sign@ =~= seq!['@']);
        match find_last_chars(h.as_slice(), at_sign.as_slice()) {
            Some(at) => {
                proof {
                    lemma_find_before(h@, seq!['@'], h@.len() + 1int);
                    assert(at + 1 <= h.len());
                }
                let user = slice_chars(h.as_slice(), 0, at + 1);
                let rest = slice_chars(h.as_slice(), at + 1, h.len());
                let u = string_of(user.as_slice());
                let r = string_of(rest.as_slice());
                out.append(u.as_str());
                out.append("[");
                out.append(r.as_str());
                out.append("]");
            },
            None => {
                out.append("[");
                out.append(host);
                out.append("]");
            },
        }
    } else {
        out.append(host);
    }
    out.append(":");
    out.append(path);
    out
}

/// Where the host part of a `host:path` argument ends: the first colon, or,
/// when a `[` comes first, the colon right after its matching `]`.
pub open spec fn spec_host_colon(a: Seq<char>) -> Option<int> {
    let colon = find_first(a, seq![':']);
    match find_first(a, seq!['[']) {
        Some(bracket) => if colon is None || bracket < colon->0 {
            match find_first(a.skip(bracket), seq![']']) {
                Some(end) => if bracket + end + 1 < a.len() && a[bracket + end + 1] == ':' {
                    Some(bracket + end + 1)
                } else {
                    None
                },
                None => None,
            }
        } else {
            colon
        },
        None => colon,
    }
}

/// The `host` and `path` of a `host:path` argument, with the rule scp and
/// rsync apply: a colon before any slash means a host follows.
pub open spec fn spec_split_remote(a: Seq<char>) -> Option<(Seq<char>, Seq<char>)> {
    match spec_host_colon(a) {
        Some(at) => if at <= 0 || a.take(at).contains('/') {
            None
        } else {
            Some((a.take(at), a.skip(at + 1)))
        },
        None => None,
    }
}

pub proof fn lemma_host_colon(a: Seq<char>)
    ensures
        spec_host_colon(a) matches Some(at) ==> 0 <= at < a.len(),
{
    lemma_find_first(a, seq![':']);
    lemma_find_first(a, seq!['[']);
    if let Some(bracket) = find_first(a, seq!['[']) {
        lemma_find_first(a.skip(bracket), seq![']']);
    }
    if let Some(at) = find_first(a, seq![':']) {
        assert(crate::text::occurs_at(a, seq![':'], at));
    }
}

fn find_char(s: &[char], c: char) -> (r: Option<usize>)
    ensures
        match r {
            Some(i) => find_first(s@, seq![c]) == Some(i as int) && i < s.len() && s@[i as int] == c,
            None => find_first(s@, seq![c]) is None,
        },
{
    let needle: Vec<char> = vec![c];
    assert(needle@ =~= seq![c]);
    let r = find_chars(s, needle.as_slice());
    proof {
        lemma_find_first(s@, seq![c]);
        if let Some(i) = r {
            assert(s@.subrange(i as int, i + 1) == seq![c]);
            assert(s@[i as int] == s@.subrange(i as int, i + 1)[0]);
        }
    }
    r
}

fn host_colon(a: &[char]) -> (r: Option<usize>)
    ensures
        match r {
            Some(at) => spec_host_colon(a@) == Some(at as int),
            None => spec_host_colon(a@) is None,
        },
{
    let colon = find_char(a, ':');
    match find_char(a, '[') {
        Some(bracket) => {
            let before = match colon {
                Some(c) => bracket < c,
                None => true,
            };
            if before {
                let rest = slice_chars(a, bracket, a.len());
                assert(rest@ =~= a@.skip(bracket as int));
                match find_char(rest.as_slice(), ']') {
                    Some(end) => {
                        let after = bracket + end + 1;
                        if after < a.len() && a[after] == ':' {
                            Some(after)
                        } else {
                            None
                        }
                    },
                    None => None,
                }
            } else {
                colon
            }
        },
        None => colon,
    }
}

/// Splits the `host:path` form with the rule scp and rsync apply: a colon before
/// any slash means a host follows. A spec is only ever parsed here to validate
/// the path part; the host travels to OpenSSH untouched.
pub fn split_remote_spec(argument: &str) -> (r: Option<(String, String)>)
    ensures
        match r {
            Some((host, path)) => spec_split_remote(argument@) == Some((host@, path@)),
            None => spec_split_remote(argument@) is None,
        },
{
    let a = chars_of(argument);
    proof {
        lemma_host_colon(a@);
    }
    let at = match host_colon(a.as_slice()) {
        Some(at) => at,
        None => return None,
    };
    let head = slice_chars(a.as_slice(), 0, at);
    assert(head@ =~= a@.take(at as int));
    if at == 0 || has_char(head.as_slice(), '/') {
        return None;
    }
    assert(at < a.len());
    let tail = slice_chars(a.as_slice(), at + 1, a.len());
    assert(tail@ =~= a@.skip(at + 1));
    Some((string_of(head.as_slice()), string_of(tail.as_slice())))
}

// ---------------------------------------------------------------------------
// Local operands and destinations
// ---------------------------------------------------------------------------

/// What a local path becomes on a tool's command line.
pub open spec fn spec_local_arg(p: Seq<char>) -> Result<Seq<char>, RefusalView> {
    if p.len() == 0 {
        Err(RefusalView::Rejected("empty local path"@))
    } else if has_control(p) {
        Err(RefusalView::Rejected("local path "@ + debug_str(p) + " contains a newline or NUL"@))
    } else if p[0] == '/' || p == "."@ || p == ".."@ || has_prefix(p, "./"@) || has_prefix(p, "../"@) {
        Ok(p)
    } else if p[0] == '-' || p.contains(':') {
        Ok("./"@ + p)
    } else {
        Ok(p)
    }
}

/// The first `c` in `a` is at `i`.
pub(crate) proof fn lemma_first_char_at(a: Seq<char>, c: char, i: int)
    requires
        0 <= i < a.len(),
        a[i] == c,
        forall|j: int| 0 <= j < i ==> a[j] != c,
    ensures
        find_first(a, seq![c]) == Some(i),
{
    lemma_find_first(a, seq![c]);
    assert(a.subrange(i, i + 1) =~= seq![c]);
    assert forall|j: int| 0 <= j < i implies !crate::text::occurs_at(a, seq![c], j) by {
        if crate::text::occurs_at(a, seq![c], j) {
            assert(a.subrange(j, j + 1)[0] == a[j]);
        }
    }
    assert(crate::text::occurs_at(a, seq![c], i));
    if let Some(k) = find_first(a, seq![c]) {
        if k < i {
            assert(!crate::text::occurs_at(a, seq![c], k));
        }
    }
}

/// A host the `host:path` form carries back unchanged: non-empty, without `/`,
/// `[` or `]`, and with every colon after every `@` (a `user@` part never holds
/// a colon).
pub open spec fn plain_host(h: Seq<char>) -> bool {
    &&& h.len() > 0
    &&& !h.contains('/')
    &&& !h.contains('[')
    &&& !h.contains(']')
    &&& forall|i: int, j: int| 0 <= i < j < h.len() && h[i] == ':' ==> h[j] != '@'
}

/// Splitting what [`remote_spec`] renders gives the host and path back: a
/// host without a colon comes back as it was, an IPv6 literal comes back in
/// the brackets that kept its colons apart from the separator, and the path
/// is never touched.
pub proof fn lemma_remote_spec_round_trip(h: Seq<char>, p: Seq<char>)
    requires
        plain_host(h),
    ensures
        spec_split_remote(spec_remote_spec(h, p)) == Some((spec_bracket_host(h), p)),
        !h.contains(':') ==> spec_bracket_host(h) == h,
{
    let bh = spec_bracket_host(h);
    let a = bh + ":"@ + p;
    reveal_strlit(":");
    reveal_strlit("[");
    reveal_strlit("]");
    assert(spec_remote_spec(h, p) == a);
    if !h.contains(':') {
        assert(a[h.len() as int] == ':');
        assert forall|j: int| 0 <= j < h.len() implies a[j] != ':' by {
            assert(a[j] == h[j]);
            if h[j] == ':' {
                assert(h.contains(':'));
            }
        }
        lemma_first_char_at(a, ':', h.len() as int);
        lemma_find_first(a, seq!['[']);
        if let Some(b) = find_first(a, seq!['[']) {
            assert(a.subrange(b, b + 1)[0] == a[b]);
            if b < h.len() {
                assert(a[b] == h[b]);
                assert(h.contains('['));
            }
            assert(b != h.len());
        }
        assert(a.take(h.len() as int) =~= h);
        assert(a.skip(h.len() as int + 1) =~= p);
    } else {
        let at_opt = find_last(h, seq!['@']);
        lemma_find_before(h, seq!['@'], h.len() + 1int);
        let k: int = match at_opt {
            Some(at) => at + 1,
            None => 0,
        };
        let u = h.take(k);
        let v = h.skip(k);
        assert(0 <= k <= h.len());
        assert(bh =~= u + "["@ + v + "]"@);
        // no colon up to the last `@`
        assert forall|i: int| 0 <= i < k implies h[i] != ':' by {
            if let Some(at) = at_opt {
                assert(h.subrange(at, at + 1)[0] == h[at]);
                if h[i] == ':' && i < at {
                    assert(h[at] == '@');
                }
            }
        }
        let bracket = k;
        assert(a[bracket] == '[');
        assert forall|j: int| 0 <= j < bracket implies a[j] != '[' by {
            assert(a[j] == h[j]);
            if h[j] == '[' {
                assert(h.contains('['));
            }
        }
        lemma_first_char_at(a, '[', bracket);
        // the first colon lies after the bracket
        let ci = choose|i: int| 0 <= i < h.len() && h[i] == ':';
        assert(ci >= k);
        lemma_find_first(a, seq![':']);
        assert(a[ci + 1] == h[ci]);
        assert(a.subrange(ci + 1, ci + 2) =~= seq![':']);
        if let Some(c0) = find_first(a, seq![':']) {
            assert(a.subrange(c0, c0 + 1)[0] == a[c0]);
            if c0 <= bracket {
                if c0 < bracket {
                    assert(a[c0] == h[c0]);
                }
            }
            assert(c0 > bracket);
        }
        let rest = a.skip(bracket);
        let close: int = v.len() as int + 1;
        assert(rest[close] == ']');
        assert forall|j: int| 0 <= j < close implies rest[j] != ']' by {
            if j > 0 {
                assert(rest[j] == v[j - 1]);
                assert(v[j - 1] == h[k + j - 1]);
                if h[k + j - 1] == ']' {
                    assert(h.contains(']'));
                }
            }
        }
        lemma_first_char_at(rest, ']', close);
        let after = bracket + close + 1;
        assert(after == bh.len());
        assert(a[after] == ':');
        assert(a.take(after) =~= bh);
        assert forall|j: int| 0 <= j < bh.len() implies bh[j] != '/' by {
            if j < k {
                assert(bh[j] == h[j]);
            } else if k < j < bh.len() - 1 {
                assert(bh[j] == h[j - 1]);
            }
            if j < k && h[j] == '/' {
                assert(h.contains('/'));
            }
            if k < j < bh.len() - 1 && h[j - 1] == '/' {
                assert(h.contains('/'));
            }
        }
        assert(a.skip(after + 1) =~= p);
    }
}

fn is_dot_path(p: &[char]) -> (r: bool)
    ensures
        r == (p@ == "."@ || p@ == ".."@ || has_prefix(p@, "./"@) || has_prefix(p@, "../"@)),
{
    proof {
        reveal_strlit(".");
        reveal_strlit("..");
        reveal_strlit("./");
        reveal_strlit("../");
    }
    let dot = chars_of(".");
    let dots = chars_of("..");
    let dot_slash = chars_of("./");
    let dots_slash = chars_of("../");
    let one = p.len() == 1 && p[0] == '.';
    let two = p.len() == 2 && p[0] == '.' && p[1] == '.';
    if one {
        assert(p@ =~= "."@);
    }
    if two {
        assert(p@ =~= ".."@);
    }
    one || two || starts_with(p, dot_slash.as_slice()) || starts_with(p, dots_slash.as_slice())
}

/// Rewrites a local path so neither tool can mistake it for a remote spec: both
/// split on the first colon and both read a leading dash as an option. The
/// rewrite is only ever a `./` prefix, which names the same file.
pub fn local_arg(path: &str) -> (r: Result<String, Refusal>)
    ensures
        text_view(r) == spec_local_arg(path@),
{
    let p = chars_of(path);
    if p.len() == 0 {
        return Err(reject(String::from_str("empty local path")));
    }
    if has_control_exec(p.as_slice()) {
        return Err(reject(naming("local path ", path, " contains a newline or NUL")));
    }
    if p[0] == '/' || is_dot_path(p.as_slice()) {
        return Ok(String::from_str(path));
    }
    if p[0] == '-' || has_char(p.as_slice(), ':') {
        let mut out = String::from_str("./");
        out.append(path);
        return Ok(out);
    }
    Ok(String::from_str(path))
}

/// The destination shapes that must never reach a remote tool: empty, the
/// filesystem root, a glob, or control characters. A `host:path` destination
/// is judged by its path.
pub open spec fn spec_check_destination(p: Seq<char>) -> Result<(), RefusalView>
    decreases p.len(),
{
    match spec_split_remote(p) {
        Some((host, remote)) => {
            proof {
                lemma_host_colon(p);
            }
            spec_check_destination(remote)
        },
        None => if trim(p).len() == 0 {
            Err(RefusalView::Rejected("empty destination path"@))
        } else if has_control(p) {
            Err(RefusalView::Rejected("destination path "@ + debug_str(p) + " contains a newline or NUL"@))
        } else if has_glob(p) {
            Err(RefusalView::Rejected("destination path "@ + debug_str(p)
                + " contains a glob character: the remote shell would expand it"@))
        } else if trim_end_char(p, '/').len() == 0 {
            Err(RefusalView::Rejected("destination path "@ + debug_str(p) + " is the filesystem root"@))
        } else {
            Ok(())
        },
    }
}

pub(crate) fn check_destination(path: &str) -> (r: Result<(), Refusal>)
    ensures
        check_view(r) == spec_check_destination(path@),
    decreases path@.len(),
{
    proof {
        lemma_host_colon(path@);
    }
    if let Some((_, remote)) = split_remote_spec(path) {
        return check_destination(remote.as_str());
    }
    let p = chars_of(path);
    let t = trim_chars(p.as_slice());
    if t.len() == 0 {
        return Err(reject(String::from_str("empty destination path")));
    }
    if has_control_exec(p.as_slice()) {
        return Err(reject(naming("destination path ", path, " contains a newline or NUL")));
    }
    if has_glob_exec(p.as_slice()) {
        return Err(reject(naming("destination path ", path,
            " contains a glob character: the remote shell would expand it")));
    }
    if trim_end_char_len(p.as_slice(), '/') == 0 {
        return Err(reject(naming("destination path ", path, " is the filesystem root")));
    }
    Ok(())
}

/// The verdict on the two operands of one single-file copy.
pub open spec fn spec_transfer_paths(source: Seq<char>, destination: Seq<char>) -> Result<(), RefusalView> {
    if trim(source).len() == 0 {
        Err(RefusalView::Rejected("empty source path"@))
    } else if has_control(source) {
        Err(RefusalView::Rejected("source path "@ + debug_str(source) + " contains a newline or NUL"@))
    } else {
        match spec_split_remote(source) {
            Some((_, remote)) if outer_quotes(vstd::utf8::encode_utf8(remote)) => Err(
                RefusalView::InvalidPath("remote path "@ + debug_str(remote)
                    + " includes outer shell quotes; quote the argument without making quotes part of the path"@),
            ),
            Some((_, remote)) if has_glob(remote) => Err(RefusalView::Rejected("source path "@ + debug_str(remote)
                + " contains a glob; fs get copies exactly one file"@)),
            _ => match spec_split_remote(destination) {
                Some((_, remote)) if outer_quotes(vstd::utf8::encode_utf8(remote)) => Err(
                    RefusalView::InvalidPath("remote path "@ + debug_str(remote)
                        + " includes outer shell quotes; quote the argument without making quotes part of the path"@),
                ),
                _ => spec_check_destination(destination),
            },
        }
    }
}

/// Checks the arguments of one single-file copy. rhost does not guess what a
/// remote path *means*: it refuses where being wrong is destructive or the tool
/// would misparse the argument, and otherwise gets out of the way.
pub fn validate_transfer_paths(source: &str, destination: &str) -> (r: Result<(), Refusal>)
    ensures
        check_view(r) == spec_transfer_paths(source@, destination@),
{
    let s = chars_of(source);
    let t = trim_chars(s.as_slice());
    if t.len() == 0 {
        return Err(reject(String::from_str("empty source path")));
    }
    if has_control_exec(s.as_slice()) {
        return Err(reject(naming("source path ", source, " contains a newline or NUL")));
    }
    if let Some((_, remote)) = split_remote_spec(source) {
        validate_remote_path(remote.as_str())?;
        let r = chars_of(remote.as_str());
        if has_glob_exec(r.as_slice()) {
            return Err(reject(naming("source path ", remote.as_str(),
                " contains a glob; fs get copies exactly one file")));
        }
    }
    if let Some((_, remote)) = split_remote_spec(destination) {
        validate_remote_path(remote.as_str())?;
    }
    check_destination(destination)
}

// ---------------------------------------------------------------------------
// scp
// ---------------------------------------------------------------------------

/// An operand passed to a tool as is, or refused: empty, carrying control
/// characters, or read as an option.
pub open spec fn spec_transfer_arg(a: Seq<char>) -> Result<Seq<char>, RefusalView> {
    if a.len() == 0 {
        Err(RefusalView::Rejected("empty path"@))
    } else if has_control(a) {
        Err(RefusalView::Rejected("path "@ + debug_str(a) + " contains a newline or NUL"@))
    } else if a[0] == '-' {
        Err(RefusalView::Rejected("path "@ + debug_str(a) + " starts with a dash; prefix it with ./"@))
    } else {
        Ok(a)
    }
}

/// Refuses an operand that cannot be passed safely rather than rewriting it.
fn transfer_arg(argument: &str) -> (r: Result<String, Refusal>)
    ensures
        text_view(r) == spec_transfer_arg(argument@),
{
    let a = chars_of(argument);
    if a.len() == 0 {
        return Err(reject(String::from_str("empty path")));
    }
    if has_control_exec(a.as_slice()) {
        return Err(reject(naming("path ", argument, " contains a newline or NUL")));
    }
    if a[0] == '-' {
        return Err(reject(naming("path ", argument, " starts with a dash; prefix it with ./")));
    }
    Ok(String::from_str(argument))
}

/// The scp argv for one copy, or the refusal of the first bad operand.
pub open spec fn spec_scp_args(source: Seq<char>, destination: Seq<char>, options: Seq<Seq<char>>) -> Result<Seq<Seq<char>>, RefusalView> {
    match spec_transfer_arg(source) {
        Err(e) => Err(e),
        Ok(s) => match spec_transfer_arg(destination) {
            Err(e) => Err(e),
            Ok(d) => Ok(options + seq!["-q"@, s, d]),
        },
    }
}

/// Builds the scp argv for one copy in either direction. `source` and
/// `destination` must already be final scp form: a local side prepared with
/// [`local_arg`], a remote one with [`remote_spec`]. `-q` keeps scp's progress
/// bar off stdout, which `--json` must never mix with data.
pub fn scp_args(source: &str, destination: &str, ssh_options: &[String]) -> (r: Result<Vec<String>, Refusal>)
    ensures
        match r {
            Ok(args) => spec_scp_args(source@, destination@, string_views(ssh_options@)) == Ok::<Seq<Seq<char>>, RefusalView>(string_views(args@)),
            Err(e) => spec_scp_args(source@, destination@, string_views(ssh_options@)) == Err::<Seq<Seq<char>>, RefusalView>(e@),
        },
{
    let s = transfer_arg(source)?;
    let d = transfer_arg(destination)?;
    let mut args: Vec<String> = Vec::new();
    let mut i: usize = 0;
    while i < ssh_options.len()
        invariant
            i <= ssh_options.len(),
            string_views(args@) == string_views(ssh_options@).take(i as int),
        decreases ssh_options.len() - i,
    {
        push_str(&mut args, ssh_options[i].as_str());
        assert(string_views(ssh_options@).take(i + 1) =~= string_views(ssh_options@).take(i as int).push(ssh_options@[i as int]@));
        i = i + 1;
    }
    assert(string_views(ssh_options@).take(i as int) =~= string_views(ssh_options@));
    push_str(&mut args, "-q");
    push_str(&mut args, s.as_str());
    push_str(&mut args, d.as_str());
    assert(string_views(args@) =~= string_views(ssh_options@) + seq!["-q"@, s@, d@]);
    Ok(args)
}

} // verus!
