//! Directory sync: which destination `--delete` may prune, and the `rsync` argv.
use vstd::prelude::*;
use crate::text::{
    append_chars, chars_of, has_char, has_prefix, push_str, slice_chars, string_of, string_views,
};
use super::args::{
    check_destination, has_control, local_arg, remote_spec, spec_check_destination,
    spec_local_arg, spec_remote_spec, trim_end_char, trim_end_char_len, validate_remote_path,
    outer_quotes,
};
use super::changes::{split_char, split_on, CHANGE_MARKER};
use super::{check_view, debug_str, naming, reject, Refusal, RefusalView};

verus! {

// ---------------------------------------------------------------------------
// Lexical cleaning
// ---------------------------------------------------------------------------

/// One path component applied to the components kept so far: empty and `.`
/// vanish, `..` cancels the component before it (or is kept at the front of a
/// relative path), anything else is kept.
pub open spec fn clean_step(parts: Seq<Seq<char>>, part: Seq<char>, rooted: bool) -> Seq<Seq<char>> {
    if part.len() == 0 || part == "."@ {
        parts
    } else if part == ".."@ {
        if parts.len() > 0 && parts.last() != ".."@ {
            parts.drop_last()
        } else if !rooted {
            parts.push(part)
        } else {
            parts
        }
    } else {
        parts.push(part)
    }
}

/// The components kept after reading `segments` in order.
pub open spec fn clean_parts(segments: Seq<Seq<char>>, rooted: bool) -> Seq<Seq<char>>
    decreases segments.len(),
{
    if segments.len() == 0 {
        Seq::empty()
    } else {
        clean_step(clean_parts(segments.drop_last(), rooted), segments.last(), rooted)
    }
}

/// The parts joined by `sep`.
pub open spec fn join(parts: Seq<Seq<char>>, sep: Seq<char>) -> Seq<char>
    decreases parts.len(),
{
    if parts.len() == 0 {
        Seq::empty()
    } else if parts.len() == 1 {
        parts[0]
    } else {
        join(parts.drop_last(), sep) + sep + parts.last()
    }
}

/// A remote path cleaned lexically, the way the remote shell's tools treat it:
/// repeated separators collapse, `.` disappears, and `..` cancels the component
/// before it. POSIX rules on every host.
pub open spec fn spec_clean_remote_path(path: Seq<char>) -> Seq<char> {
    if path.len() == 0 {
        "."@
    } else {
        let rooted = path[0] == '/';
        let joined = join(clean_parts(split_on(path, '/'), rooted), "/"@);
        if rooted {
            "/"@ + joined
        } else if joined.len() == 0 {
            "."@
        } else {
            joined
        }
    }
}

fn is_word(v: &[char], w: &str) -> (r: bool)
    ensures
        r == (v@ == w@),
{
    let c = chars_of(w);
    if c.len() != v.len() {
        return false;
    }
    let r = crate::text::chars_eq(v, c.as_slice());
    r
}

fn join_exec(parts: &Vec<Vec<char>>, sep: &str) -> (r: Vec<char>)
    ensures
        r@ == join(parts@.map_values(|v: Vec<char>| v@), sep@),
{
    let ghost views = parts@.map_values(|v: Vec<char>| v@);
    let s = chars_of(sep);
    let mut out: Vec<char> = Vec::new();
    let mut i: usize = 0;
    while i < parts.len()
        invariant
            i <= parts.len(),
            s@ == sep@,
            views == parts@.map_values(|v: Vec<char>| v@),
            out@ == join(views.take(i as int), sep@),
        decreases parts.len() - i,
    {
        if i > 0 {
            append_chars_vec(&mut out, s.as_slice());
        }
        append_chars_vec(&mut out, parts[i].as_slice());
        proof {
            assert(views.take(i + 1).drop_last() =~= views.take(i as int));
            if i == 0 {
                assert(views.take(1)[0] == views[0]);
            }
        }
        i = i + 1;
    }
    assert(views.take(parts.len() as int) =~= views);
    out
}

fn append_chars_vec(out: &mut Vec<char>, v: &[char])
    ensures
        final(out)@ == old(out)@ + v@,
{
    crate::text::append_vec(out, v);
}

/// Lexically cleans a remote path. The cleaning happens before the
/// `--delete` rules are judged, because `"/tmp/../"` names the filesystem root
/// however it was typed.
pub fn clean_remote_path(path: &str) -> (r: String)
    ensures
        r@ == spec_clean_remote_path(path@),
{
    proof {
        reveal_strlit(".");
        reveal_strlit("..");
    }
    let p = chars_of(path);
    if p.len() == 0 {
        return String::from_str(".");
    }
    let rooted = p[0] == '/';
    let segments = split_char(p.as_slice(), '/');
    let ghost segs = segments@.map_values(|v: Vec<char>| v@);
    let mut parts: Vec<Vec<char>> = Vec::new();
    let mut i: usize = 0;
    while i < segments.len()
        invariant
            i <= segments.len(),
            segs == segments@.map_values(|v: Vec<char>| v@),
            parts@.map_values(|v: Vec<char>| v@) == clean_parts(segs.take(i as int), rooted),
        decreases segments.len() - i,
    {
        let part = &segments[i];
        let ghost before = parts@.map_values(|v: Vec<char>| v@);
        proof {
            assert(segs.take(i + 1).drop_last() =~= segs.take(i as int));
            assert(segs.take(i + 1).last() == part@);
        }
        if part.len() == 0 || is_word(part.as_slice(), ".") {
        } else if is_word(part.as_slice(), "..") {
            let keep_back = parts.len() > 0 && !is_word(parts[parts.len() - 1].as_slice(), "..");
            if keep_back {
                parts.pop();
                assert(parts@.map_values(|v: Vec<char>| v@) =~= before.drop_last());
            } else if !rooted {
                parts.push(part.clone());
                assert(parts@.map_values(|v: Vec<char>| v@) =~= before.push(part@));
            }
        } else {
            parts.push(part.clone());
            assert(parts@.map_values(|v: Vec<char>| v@) =~= before.push(part@));
        }
        i = i + 1;
    }
    assert(segs.take(segments.len() as int) =~= segs);
    assert(segs == split_on(path@, '/'));
    let joined = join_exec(&parts, "/");
    if rooted {
        let mut out = String::from_str("/");
        let j = string_of(joined.as_slice());
        out.append(j.as_str());
        out
    } else if joined.len() == 0 {
        String::from_str(".")
    } else {
        string_of(joined.as_slice())
    }
}

// ---------------------------------------------------------------------------
// The destination guard
// ---------------------------------------------------------------------------

/// A home directory named whole: `~`, `~/`, or `~user` without a further
/// component.
pub open spec fn names_home(cleaned: Seq<char>) -> bool {
    cleaned == "~"@ || cleaned == "~/"@ || (cleaned.len() > 0 && cleaned[0] == '~' && !cleaned.skip(
        1,
    ).contains('/'))
}

/// `s` without leading and trailing `/`.
pub open spec fn trim_slashes(s: Seq<char>) -> Seq<char> {
    let t = trim_end_char(s, '/');
    t.skip(leading_slashes(t))
}

/// How many `/` begin `s`.
pub open spec fn leading_slashes(s: Seq<char>) -> int
    decreases s.len(),
{
    if s.len() > 0 && s[0] == '/' {
        1 + leading_slashes(s.skip(1))
    } else {
        0
    }
}

/// A directory directly under the filesystem root.
pub open spec fn top_level(cleaned: Seq<char>) -> bool {
    cleaned.len() > 0 && cleaned[0] == '/' && !trim_slashes(cleaned).contains('/')
}

/// The verdict on a directory-sync destination.
pub open spec fn spec_sync_target(destination: Seq<char>, delete: bool) -> Result<(), RefusalView> {
    let cleaned = spec_clean_remote_path(destination);
    if outer_quotes(vstd::utf8::encode_utf8(destination)) {
        Err(RefusalView::InvalidPath("remote path "@ + debug_str(destination)
            + " includes outer shell quotes; quote the argument without making quotes part of the path"@))
    } else if spec_check_destination(cleaned) is Err {
        spec_check_destination(cleaned)
    } else if cleaned == "."@ || cleaned == "./"@ || cleaned == ".."@ || cleaned == "../"@ {
        Err(RefusalView::Rejected("sync destination "@ + debug_str(cleaned)
            + " depends on the remote working directory; use a path under the home directory or an absolute path"@))
    } else if !delete {
        Ok(())
    } else if names_home(cleaned) {
        Err(RefusalView::Rejected("--delete refuses an entire home directory ("@ + debug_str(cleaned)
            + "); choose a subdirectory"@))
    } else if top_level(cleaned) {
        Err(RefusalView::Rejected("--delete refuses a top-level directory ("@ + debug_str(cleaned)
            + "); sync into a subdirectory instead"@))
    } else {
        Ok(())
    }
}

fn leading_slash_count(s: &[char]) -> (r: usize)
    ensures
        r as int == leading_slashes(s@),
        r <= s.len(),
{
    let mut i: usize = 0;
    assert(s@.skip(0) =~= s@);
    while i < s.len() && s[i] == '/'
        invariant
            i <= s.len(),
            leading_slashes(s@) == i + leading_slashes(s@.skip(i as int)),
        decreases s.len() - i,
    {
        assert(s@.skip(i as int).skip(1) =~= s@.skip(i + 1));
        i = i + 1;
    }
    proof {
        assert(s@.skip(0) =~= s@);
    }
    i
}

/// Decides whether a directory-sync destination is safe to write to — and, with
/// `--delete`, safe to prune. The rules are few and mechanical.
pub fn reject_sync_target(destination: &str, delete: bool) -> (r: Result<(), Refusal>)
    ensures
        check_view(r) == spec_sync_target(destination@, delete),
{
    proof {
        reveal_strlit(".");
        reveal_strlit("./");
        reveal_strlit("..");
        reveal_strlit("../");
        reveal_strlit("~");
        reveal_strlit("~/");
    }
    validate_remote_path(destination)?;
    let cleaned = clean_remote_path(destination);
    check_destination(cleaned.as_str())?;
    let c = chars_of(cleaned.as_str());
    if is_word(c.as_slice(), ".") || is_word(c.as_slice(), "./") || is_word(c.as_slice(), "..")
        || is_word(c.as_slice(), "../") {
        return Err(reject(naming("sync destination ", cleaned.as_str(),
            " depends on the remote working directory; use a path under the home directory or an absolute path")));
    }
    if !delete {
        return Ok(());
    }
    let home = if is_word(c.as_slice(), "~") || is_word(c.as_slice(), "~/") {
        true
    } else if c.len() > 0 && c[0] == '~' {
        let rest = slice_chars(c.as_slice(), 1, c.len());
        assert(rest@ =~= c@.skip(1));
        !has_char(rest.as_slice(), '/')
    } else {
        false
    };
    if home {
        return Err(reject(naming("--delete refuses an entire home directory (", cleaned.as_str(),
            "); choose a subdirectory")));
    }
    if c.len() > 0 && c[0] == '/' {
        let n = trim_end_char_len(c.as_slice(), '/');
        let t = slice_chars(c.as_slice(), 0, n);
        assert(t@ =~= c@.take(n as int));
        let lead = leading_slash_count(t.as_slice());
        let inner = slice_chars(t.as_slice(), lead, t.len());
        assert(inner@ =~= t@.skip(lead as int));
        if !has_char(inner.as_slice(), '/') {
            return Err(reject(naming("--delete refuses a top-level directory (", cleaned.as_str(),
                "); sync into a subdirectory instead")));
        }
    }
    Ok(())
}

// ---------------------------------------------------------------------------
// rsync's argv
// ---------------------------------------------------------------------------

/// One directory sync. The direction decides which endpoint the destination
/// guard judges, because that is the side `--delete` can prune.
pub struct SyncRequest {
    pub host: String,
    pub source: String,
    pub destination: String,
    pub delete: bool,
    pub dry_run: bool,
    pub excludes: Vec<String>,
}

/// The rsync argv for one sync, the endpoints it names, and whether the
/// transfer still carries rhost's own options.
pub struct SyncPlan {
    pub args: Vec<String>,
    /// The endpoint the plan reports, with a trailing slash: the *contents* of a
    /// source are transferred, and the reported value says so.
    pub source: String,
    pub destination: String,
    pub multiplexed: bool,
}

/// A plan as characters.
pub struct SyncPlanView {
    pub args: Seq<Seq<char>>,
    pub source: Seq<char>,
    pub destination: Seq<char>,
    pub multiplexed: bool,
}

impl View for SyncPlan {
    type V = SyncPlanView;

    open spec fn view(&self) -> SyncPlanView {
        SyncPlanView {
            args: string_views(self.args@),
            source: self.source@,
            destination: self.destination@,
            multiplexed: self.multiplexed,
        }
    }
}

/// The `--exclude` pairs, or the refusal of the first pattern with a control
/// character.
pub open spec fn exclude_args(excludes: Seq<Seq<char>>) -> Result<Seq<Seq<char>>, RefusalView>
    decreases excludes.len(),
{
    if excludes.len() == 0 {
        Ok(Seq::empty())
    } else {
        match exclude_args(excludes.drop_last()) {
            Err(e) => Err(e),
            Ok(a) => if has_control(excludes.last()) {
                Err(RefusalView::Rejected("exclude pattern "@ + debug_str(excludes.last())
                    + " contains a newline or NUL"@))
            } else {
                Ok(a + seq!["--exclude"@, excludes.last()])
            },
        }
    }
}

/// rsync's transfer options: recursive with mtimes kept (so a later sync is
/// incremental), ownership and permissions left alone, the requested dry run,
/// deletion and excludes, and the itemized plan rhost reads back.
pub open spec fn spec_transfer_options(dry_run: bool, delete: bool, excludes: Seq<Seq<char>>) -> Result<Seq<Seq<char>>, RefusalView> {
    match exclude_args(excludes) {
        Err(e) => Err(e),
        Ok(ex) => Ok(seq!["--recursive"@, "--times"@, "--no-owner"@, "--no-group"@, "--no-perms"@]
            + (if dry_run { seq!["--dry-run"@] } else { Seq::empty() })
            + (if delete { seq!["--delete"@] } else { Seq::empty() })
            + ex
            + seq!["--itemize-changes"@, "--out-format="@ + CHANGE_MARKER@ + "%i|%n"@]),
    }
}

fn transfer_options(request: &SyncRequest) -> (r: Result<Vec<String>, Refusal>)
    ensures
        match r {
            Ok(a) => spec_transfer_options(request.dry_run, request.delete, string_views(request.excludes@))
                == Ok::<Seq<Seq<char>>, RefusalView>(string_views(a@)),
            Err(e) => spec_transfer_options(request.dry_run, request.delete, string_views(request.excludes@))
                == Err::<Seq<Seq<char>>, RefusalView>(e@),
        },
{
    let ghost ex = string_views(request.excludes@);
    let mut ex_args: Vec<String> = Vec::new();
    let mut i: usize = 0;
    assert(ex.take(0) =~= Seq::<Seq<char>>::empty());
    assert(string_views(ex_args@) =~= Seq::<Seq<char>>::empty());
    while i < request.excludes.len()
        invariant
            i <= request.excludes.len(),
            ex == string_views(request.excludes@),
            exclude_args(ex.take(i as int)) == Ok::<Seq<Seq<char>>, RefusalView>(string_views(ex_args@)),
        decreases request.excludes.len() - i,
    {
        let pattern = request.excludes[i].as_str();
        proof {
            assert(ex.take(i + 1).drop_last() =~= ex.take(i as int));
            assert(ex.take(i + 1).last() == pattern@);
        }
        let p = chars_of(pattern);
        if has_char(p.as_slice(), '\n') || has_char(p.as_slice(), '\0') {
            let e = reject(naming("exclude pattern ", pattern, " contains a newline or NUL"));
            proof {
                lemma_exclude_error_sticks(ex, i as int + 1, e@);
            }
            return Err(e);
        }
        let ghost before = string_views(ex_args@);
        assert(!has_control(pattern@));
        push_str(&mut ex_args, "--exclude");
        push_str(&mut ex_args, pattern);
        assert(string_views(ex_args@) =~= before + seq!["--exclude"@, pattern@]);
        i = i + 1;
    }
    assert(ex.take(request.excludes.len() as int) =~= ex);
    let mut args: Vec<String> = Vec::new();
    push_str(&mut args, "--recursive");
    push_str(&mut args, "--times");
    push_str(&mut args, "--no-owner");
    push_str(&mut args, "--no-group");
    push_str(&mut args, "--no-perms");
    if request.dry_run {
        push_str(&mut args, "--dry-run");
    }
    if request.delete {
        push_str(&mut args, "--delete");
    }
    let ghost before = string_views(args@);
    let mut k: usize = 0;
    while k < ex_args.len()
        invariant
            k <= ex_args.len(),
            string_views(args@) == before + string_views(ex_args@).take(k as int),
        decreases ex_args.len() - k,
    {
        push_str(&mut args, ex_args[k].as_str());
        assert(string_views(ex_args@).take(k + 1) =~= string_views(ex_args@).take(k as int).push(ex_args@[k as int]@));
        k = k + 1;
    }
    assert(string_views(ex_args@).take(k as int) =~= string_views(ex_args@));
    push_str(&mut args, "--itemize-changes");
    let mut format = String::from_str("--out-format=");
    format.append(CHANGE_MARKER);
    format.append("%i|%n");
    push_str(&mut args, format.as_str());
    assert(string_views(args@) =~= seq!["--recursive"@, "--times"@, "--no-owner"@, "--no-group"@, "--no-perms"@]
            + (if request.dry_run { seq!["--dry-run"@] } else { Seq::<Seq<char>>::empty() })
            + (if request.delete { seq!["--delete"@] } else { Seq::<Seq<char>>::empty() })
            + string_views(ex_args@)
            + seq!["--itemize-changes"@, "--out-format="@ + CHANGE_MARKER@ + "%i|%n"@]);
    Ok(args)
}

proof fn lemma_exclude_error_sticks(ex: Seq<Seq<char>>, n: int, e: RefusalView)
    requires
        0 < n <= ex.len(),
        exclude_args(ex.take(n)) == Err::<Seq<Seq<char>>, RefusalView>(e),
    ensures
        exclude_args(ex) == Err::<Seq<Seq<char>>, RefusalView>(e),
    decreases ex.len() - n,
{
    if n < ex.len() {
        assert(ex.take(n + 1).drop_last() =~= ex.take(n));
        lemma_exclude_error_sticks(ex, n + 1, e);
    } else {
        assert(ex.take(n) =~= ex);
    }
}

/// One option as a word of rsync's `-e` string: as is without blanks,
/// single-quoted with them, impossible when it holds a quote.
pub open spec fn spec_quote_rsh(option: Seq<char>) -> Option<Seq<char>> {
    if !(option.contains(' ') || option.contains('\t')) {
        Some(option)
    } else if option.contains('\'') {
        None
    } else {
        Some("'"@ + option + "'"@)
    }
}

/// Every option as a word, or `None` when one cannot be represented.
pub open spec fn rsh_words(options: Seq<Seq<char>>) -> Option<Seq<Seq<char>>>
    decreases options.len(),
{
    if options.len() == 0 {
        Some(Seq::empty())
    } else {
        match rsh_words(options.drop_last()) {
            None => None,
            Some(w) => if has_control(options.last()) {
                None
            } else {
                match spec_quote_rsh(options.last()) {
                    Some(q) => Some(w.push(q)),
                    None => None,
                }
            },
        }
    }
}

/// rsync's `-e` value and whether it still carries rhost's options. An
/// option that cannot be represented falls back to a plain `ssh` over a fresh
/// connection rather than mangled argv.
pub open spec fn spec_remote_shell(options: Seq<Seq<char>>) -> (Seq<char>, bool) {
    match rsh_words(options) {
        Some(w) => if w.len() > 0 {
            ("ssh "@ + join(w, " "@), true)
        } else {
            ("ssh"@, false)
        },
        None => ("ssh"@, false),
    }
}

fn quote_rsh(option: &str) -> (r: Option<String>)
    ensures
        match r {
            Some(q) => spec_quote_rsh(option@) == Some(q@),
            None => spec_quote_rsh(option@) is None,
        },
{
    let o = chars_of(option);
    if !(has_char(o.as_slice(), ' ') || has_char(o.as_slice(), '\t')) {
        return Some(String::from_str(option));
    }
    if has_char(o.as_slice(), '\'') {
        return None;
    }
    let mut out = String::from_str("'");
    out.append(option);
    out.append("'");
    Some(out)
}

proof fn lemma_rsh_none_sticks(options: Seq<Seq<char>>, n: int)
    requires
        0 < n <= options.len(),
        rsh_words(options.take(n)) is None,
    ensures
        rsh_words(options) is None,
    decreases options.len() - n,
{
    if n < options.len() {
        assert(options.take(n + 1).drop_last() =~= options.take(n));
        lemma_rsh_none_sticks(options, n + 1);
    } else {
        assert(options.take(n) =~= options);
    }
}

/// Renders rsync's `-e` value and reports whether it still carries rhost's
/// options. rsync splits its own `-e` string with shell-like rules, so an
/// option containing whitespace is single-quoted instead of dropped.
pub fn remote_shell(ssh_options: &[String]) -> (r: (String, bool))
    ensures
        (r.0@, r.1) == spec_remote_shell(string_views(ssh_options@)),
{
    let ghost opts = string_views(ssh_options@);
    let mut quoted: Vec<Vec<char>> = Vec::new();
    let mut i: usize = 0;
    while i < ssh_options.len()
        invariant
            i <= ssh_options.len(),
            opts == string_views(ssh_options@),
            rsh_words(opts.take(i as int)) == Some(quoted@.map_values(|v: Vec<char>| v@)),
        decreases ssh_options.len() - i,
    {
        let option = ssh_options[i].as_str();
        proof {
            assert(opts.take(i + 1).drop_last() =~= opts.take(i as int));
            assert(opts.take(i + 1).last() == option@);
        }
        let o = chars_of(option);
        if has_char(o.as_slice(), '\n') || has_char(o.as_slice(), '\0') {
            proof {
                lemma_rsh_none_sticks(opts, i + 1);
            }
            return (String::from_str("ssh"), false);
        }
        match quote_rsh(option) {
            Some(value) => {
                let ghost before = quoted@.map_values(|v: Vec<char>| v@);
                quoted.push(chars_of(value.as_str()));
                assert(quoted@.map_values(|v: Vec<char>| v@) =~= before.push(value@));
            },
            None => {
                proof {
                    lemma_rsh_none_sticks(opts, i + 1);
                }
                return (String::from_str("ssh"), false);
            },
        }
        i = i + 1;
    }
    assert(opts.take(ssh_options.len() as int) =~= opts);
    if quoted.len() == 0 {
        return (String::from_str("ssh"), false);
    }
    let joined = join_exec(&quoted, " ");
    let mut out = String::from_str("ssh ");
    let j = string_of(joined.as_slice());
    out.append(j.as_str());
    (out, true)
}

/// `s` without trailing `/`, then one `/`: the *contents* of a directory.
pub open spec fn contents_of(s: Seq<char>) -> Seq<char> {
    trim_end_char(s, '/') + "/"@
}

fn contents_exec(s: &str) -> (r: String)
    ensures
        r@ == contents_of(s@),
{
    let c = chars_of(s);
    let n = trim_end_char_len(c.as_slice(), '/');
    let t = slice_chars(c.as_slice(), 0, n);
    assert(t@ =~= c@.take(n as int));
    let mut out = string_of(t.as_slice());
    out.append("/");
    out
}

/// A sync plan, or the refusal that stopped it.
pub open spec fn plan_view(r: Result<SyncPlan, Refusal>) -> Result<SyncPlanView, RefusalView> {
    match r {
        Ok(p) => Ok(p@),
        Err(e) => Err(e@),
    }
}

/// The plan for local directory → remote directory.
pub open spec fn spec_push(host: Seq<char>, source: Seq<char>, destination: Seq<char>, delete: bool, dry_run: bool, excludes: Seq<Seq<char>>, options: Seq<Seq<char>>) -> Result<SyncPlanView, RefusalView> {
    match spec_sync_target(destination, delete) {
        Err(e) => Err(e),
        Ok(()) => match spec_local_arg(source) {
            Err(e) => Err(e),
            Ok(local) => match spec_transfer_options(dry_run, delete, excludes) {
                Err(e) => Err(e),
                Ok(opts) => {
                    let (shell, multiplexed) = spec_remote_shell(options);
                    let src = contents_of(local);
                    let remote = spec_remote_spec(host, destination);
                    Ok(SyncPlanView {
                        args: opts + seq!["-e"@, shell, src, remote],
                        source: src,
                        destination: remote,
                        multiplexed,
                    })
                },
            },
        },
    }
}

/// The plan for remote directory → local directory.
pub open spec fn spec_pull(host: Seq<char>, source: Seq<char>, destination: Seq<char>, delete: bool, dry_run: bool, excludes: Seq<Seq<char>>, options: Seq<Seq<char>>) -> Result<SyncPlanView, RefusalView> {
    match spec_sync_target(destination, delete) {
        Err(e) => Err(e),
        Ok(()) => match spec_local_arg(destination) {
            Err(e) => Err(e),
            Ok(local) => match spec_transfer_options(dry_run, delete, excludes) {
                Err(e) => Err(e),
                Ok(opts) => {
                    let (shell, multiplexed) = spec_remote_shell(options);
                    let remote = spec_remote_spec(host, contents_of(source));
                    Ok(SyncPlanView {
                        args: opts + seq!["-e"@, shell, remote, local],
                        source: remote,
                        destination: local,
                        multiplexed,
                    })
                },
            },
        },
    }
}

/// Local directory → remote directory.
pub fn push_args(request: &SyncRequest, ssh_options: &[String]) -> (r: Result<SyncPlan, Refusal>)
    ensures
        plan_view(r) == spec_push(request.host@, request.source@, request.destination@, request.delete,
            request.dry_run, string_views(request.excludes@), string_views(ssh_options@)),
{
    reject_sync_target(request.destination.as_str(), request.delete)?;
    let local = local_arg(request.source.as_str())?;
    let mut args = transfer_options(request)?;
    let (shell, multiplexed) = remote_shell(ssh_options);
    let ghost opts = string_views(args@);
    push_str(&mut args, "-e");
    push_str(&mut args, shell.as_str());
    let source = contents_exec(local.as_str());
    push_str(&mut args, source.as_str());
    let remote = remote_spec(request.host.as_str(), request.destination.as_str());
    push_str(&mut args, remote.as_str());
    assert(string_views(args@) =~= opts + seq!["-e"@, shell@, source@, remote@]);
    Ok(SyncPlan { args, source, destination: remote, multiplexed })
}

/// Remote directory → local directory. The risk is reversed here: `--delete`
/// threatens *local* files.
pub fn pull_args(request: &SyncRequest, ssh_options: &[String]) -> (r: Result<SyncPlan, Refusal>)
    ensures
        plan_view(r) == spec_pull(request.host@, request.source@, request.destination@, request.delete,
            request.dry_run, string_views(request.excludes@), string_views(ssh_options@)),
{
    reject_sync_target(request.destination.as_str(), request.delete)?;
    let destination = local_arg(request.destination.as_str())?;
    let mut args = transfer_options(request)?;
    let (shell, multiplexed) = remote_shell(ssh_options);
    let ghost opts = string_views(args@);
    push_str(&mut args, "-e");
    push_str(&mut args, shell.as_str());
    let contents = contents_exec(request.source.as_str());
    let source = remote_spec(request.host.as_str(), contents.as_str());
    push_str(&mut args, source.as_str());
    push_str(&mut args, destination.as_str());
    assert(string_views(args@) =~= opts + seq!["-e"@, shell@, source@, destination@]);
    Ok(SyncPlan { args, source, destination, multiplexed })
}

} // verus!
