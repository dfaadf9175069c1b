//! rsync's itemized plan, read back as structured changes.
use vstd::prelude::*;
use vstd::utf8::encode_utf8;
use crate::shell::{path_quote_chars, spec_path_quote};
use crate::text::{
    bytes_at, chars_of, find_first, find_last, has_char, has_prefix, lemma_find_before,
    lemma_find_first, occurs_at, slice_chars, starts_with, string_of, trim, trim_chars,
};
use super::args::{spec_split_remote, split_remote_spec, trim_end_char, trim_end_char_len};

verus! {

/// Prefixes every itemized plan line so a parser can tell rsync's plan from the
/// warnings, motd and deletion notices the same stdout also carries.
pub const CHANGE_MARKER: &'static str = "RHOSTSYNC|";

/// What a change line says is about to happen. Coarse on purpose: the itemize
/// string is kept beside it, while an agent branches on a small stable set.
#[derive(Debug, Clone, Copy, PartialEq, Eq, Structural)]
pub enum Action {
    Create,
    Update,
    Delete,
    Directory,
    Skip,
    Other,
}

impl Action {
    pub open spec fn spec_as_str(self) -> Seq<char> {
        match self {
            Action::Create => "create"@,
            Action::Update => "update"@,
            Action::Delete => "delete"@,
            Action::Directory => "directory"@,
            Action::Skip => "skip"@,
            Action::Other => "other"@,
        }
    }

    pub fn as_str(self) -> (r: &'static str)
        ensures
            r@ == self.spec_as_str(),
    {
        match self {
            Action::Create => "create",
            Action::Update => "update",
            Action::Delete => "delete",
            Action::Directory => "directory",
            Action::Skip => "skip",
            Action::Other => "other",
        }
    }
}

/// One planned change.
#[derive(Debug, Clone, PartialEq, Eq)]
pub struct Change {
    pub action: Action,
    pub path: String,
    pub itemize: String,
}

/// A change as characters.
pub struct ChangeView {
    pub action: Action,
    pub path: Seq<char>,
    pub itemize: Seq<char>,
}

impl View for Change {
    type V = ChangeView;

    open spec fn view(&self) -> ChangeView {
        ChangeView { action: self.action, path: self.path@, itemize: self.itemize@ }
    }
}

/// The views of a list of changes.
pub open spec fn change_views(v: Seq<Change>) -> Seq<ChangeView> {
    v.map_values(|c: Change| c@)
}

/// The views of a list of strings.
pub open spec fn text_views(v: Seq<String>) -> Seq<Seq<char>> {
    v.map_values(|s: String| s@)
}

// ---------------------------------------------------------------------------
// Lines
// ---------------------------------------------------------------------------

/// `s` with every `\r\n` replaced by `\n`.
pub open spec fn replace_crlf(s: Seq<char>) -> Seq<char>
    decreases s.len(),
{
    if s.len() == 0 {
        s
    } else if s.len() >= 2 && s[0] == '\r' && s[1] == '\n' {
        seq!['\n'] + replace_crlf(s.skip(2))
    } else {
        seq![s[0]] + replace_crlf(s.skip(1))
    }
}

/// `str::split(c)`: the pieces between occurrences of `c`, empty ones included.
pub open spec fn split_on(s: Seq<char>, c: char) -> Seq<Seq<char>>
    decreases s.len(),
{
    match find_first(s, seq![c]) {
        Some(i) => if 0 <= i < s.len() {
            seq![s.take(i)] + split_on(s.skip(i + 1), c)
        } else {
            seq![s]
        },
        None => seq![s],
    }
}

proof fn lemma_replace_crlf_step(s: Seq<char>, i: int, out: Seq<char>)
    requires
        0 <= i <= s.len(),
        out + replace_crlf(s.skip(i)) == replace_crlf(s),
    ensures
        i < s.len() ==> (if i + 1 < s.len() && s[i] == '\r' && s[i + 1] == '\n' {
            (out + seq!['\n']) + replace_crlf(s.skip(i + 2)) == replace_crlf(s)
        } else {
            out.push(s[i]) + replace_crlf(s.skip(i + 1)) == replace_crlf(s)
        }),
{
    if i < s.len() {
        let t = s.skip(i);
        if i + 1 < s.len() && s[i] == '\r' && s[i + 1] == '\n' {
            assert(t.skip(2) =~= s.skip(i + 2));
            assert((out + seq!['\n']) + replace_crlf(s.skip(i + 2)) =~= out + replace_crlf(t));
        } else {
            assert(t.skip(1) =~= s.skip(i + 1));
            assert(out.push(s[i]) + replace_crlf(s.skip(i + 1)) =~= out + replace_crlf(t));
        }
    }
}

pub(crate) fn replace_crlf_exec(s: &[char]) -> (r: Vec<char>)
    ensures
        r@ == replace_crlf(s@),
{
    let mut out: Vec<char> = Vec::new();
    let mut i: usize = 0;
    assert(s@.skip(0) =~= s@);
    while i < s.len()
        invariant
            i <= s.len(),
            out@ + replace_crlf(s@.skip(i as int)) == replace_crlf(s@),
        decreases s.len() - i,
    {
        proof {
            lemma_replace_crlf_step(s@, i as int, out@);
        }
        if i + 1 < s.len() && s[i] == '\r' && s[i + 1] == '\n' {
            out.push('\n');
            i = i + 2;
        } else {
            out.push(s[i]);
            i = i + 1;
        }
    }
    assert(s@.skip(i as int) =~= Seq::<char>::empty());
    assert(out@ + replace_crlf(s@.skip(i as int)) =~= out@);
    out
}

pub(crate) fn split_char(s: &[char], c: char) -> (r: Vec<Vec<char>>)
    ensures
        r@.map_values(|v: Vec<char>| v@) == split_on(s@, c),
{
    let mut out: Vec<Vec<char>> = Vec::new();
    let mut current: Vec<char> = Vec::new();
    let mut start: usize = 0;
    let mut i: usize = 0;
    assert(s@.skip(0) =~= s@);
    while i < s.len()
        invariant
            start <= i <= s.len(),
            current@ == s@.subrange(start as int, i as int),
            forall|k: int| start <= k < i ==> s@[k] != c,
            out@.map_values(|v: Vec<char>| v@) + split_on(s@.skip(start as int), c) == split_on(s@, c),
        decreases s.len() - i,
    {
        if s[i] == c {
            proof {
                let t = s@.skip(start as int);
                assert(occurs_at(t, seq![c], i - start)) by {
                    assert(t.subrange(i - start, i - start + 1) =~= seq![c]);
                }
                assert forall|j: int| 0 <= j < i - start implies !occurs_at(t, seq![c], j) by {
                    if occurs_at(t, seq![c], j) {
                        assert(t.subrange(j, j + 1)[0] == t[j]);
                    }
                }
                lemma_find_first(t, seq![c]);
                if let Some(f) = find_first(t, seq![c]) {
                    if f < i - start {
                        assert(!occurs_at(t, seq![c], f));
                    }
                    if f > i - start {
                        assert(!occurs_at(t, seq![c], i - start));
                    }
                }
                assert(t.take(i - start) =~= current@);
                assert(t.skip(i - start + 1) =~= s@.skip(i + 1));
            }
            let done = current;
            out.push(done);
            proof {
                assert(out@.map_values(|v: Vec<char>| v@) =~= old_view_push(out@));
            }
            current = Vec::new();
            start = i + 1;
        } else {
            current.push(s[i]);
        }
        i = i + 1;
    }
    proof {
        let t = s@.skip(start as int);
        lemma_find_first(t, seq![c]);
        if let Some(f) = find_first(t, seq![c]) {
            assert(t.subrange(f, f + 1)[0] == t[f]);
            assert(t[f] == s@[start + f]);
        }
        assert(current@ =~= t);
    }
    out.push(current);
    assert(out@.map_values(|v: Vec<char>| v@) =~= out@.drop_last().map_values(|v: Vec<char>| v@).push(out@.last()@));
    out
}

spec fn old_view_push(v: Seq<Vec<char>>) -> Seq<Seq<char>> {
    v.drop_last().map_values(|x: Vec<char>| x@).push(v.last()@)
}

// ---------------------------------------------------------------------------
// Classification
// ---------------------------------------------------------------------------

/// `s` consists of `+` bytes only.
pub open spec fn all_plus(s: Seq<u8>) -> bool {
    forall|k: int| 0 <= k < s.len() ==> s[k] == 43
}

/// Maps an itemize string (as UTF-8 bytes) to an [`Action`]. Only the leading
/// characters are load-bearing: the second names the file type, and a run of
/// `+` in the transfer column means "created" while letters mean "something
/// changed". A symlink, socket, device or special file (`L c s b p -`) is
/// neither copied nor followed, so it is reported as skipped.
pub open spec fn spec_classify(b: Seq<u8>) -> Action {
    if has_prefix(b, encode_utf8("*deleting"@)) {
        Action::Delete
    } else if b.len() > 1 && b[1] == 100 {
        Action::Directory
    } else if b.len() > 1 && (b[1] == 76 || b[1] == 99 || b[1] == 115 || b[1] == 98 || b[1] == 112
        || b[1] == 45) {
        Action::Skip
    } else if b.len() > 2 && has_prefix(b, encode_utf8(">f"@)) {
        if all_plus(b.skip(2)) {
            Action::Create
        } else {
            Action::Update
        }
    } else if b.len() > 2 && has_prefix(b, encode_utf8("cf"@)) {
        Action::Create
    } else {
        Action::Other
    }
}

fn classify(itemize: &str) -> (r: Action)
    ensures
        r == spec_classify(encode_utf8(itemize@)),
{
    let b = itemize.as_bytes();
    if bytes_at(b, "*deleting".as_bytes(), 0) {
        return Action::Delete;
    }
    if b.len() > 1 && b[1] == 100u8 {
        return Action::Directory;
    }
    if b.len() > 1 && (b[1] == 76u8 || b[1] == 99u8 || b[1] == 115u8 || b[1] == 98u8 || b[1] == 112u8
        || b[1] == 45u8) {
        return Action::Skip;
    }
    if b.len() > 2 && bytes_at(b, ">f".as_bytes(), 0) {
        let mut k: usize = 2;
        while k < b.len() && b[k] == 43u8
            invariant
                2 <= k <= b.len(),
                forall|j: int| 2 <= j < k ==> b@[j] == 43,
            decreases b.len() - k,
        {
            k = k + 1;
        }
        if k == b.len() {
            assert(all_plus(b@.skip(2)));
            return Action::Create;
        }
        assert(b@.skip(2)[k - 2] != 43);
        return Action::Update;
    }
    if b.len() > 2 && bytes_at(b, "cf".as_bytes(), 0) {
        return Action::Create;
    }
    Action::Other
}

/// What one line of rsync's output is.
pub enum LineView {
    Blank,
    Planned(ChangeView),
    Other(Seq<char>),
}

/// Reads one line: a marked plan line (itemize, then the whole remaining name,
/// `|` characters and all), a deletion notice, or anything else.
pub open spec fn read_line(line: Seq<char>) -> LineView {
    if line.len() == 0 {
        LineView::Blank
    } else if has_prefix(line, CHANGE_MARKER@) {
        let rest = line.skip(CHANGE_MARKER@.len() as int);
        match find_first(rest, seq!['|']) {
            Some(i) => LineView::Planned(
                ChangeView {
                    action: spec_classify(encode_utf8(rest.take(i))),
                    path: rest.skip(i + 1),
                    itemize: rest.take(i),
                },
            ),
            None => LineView::Other(line),
        }
    } else if has_prefix(line, "*deleting"@) {
        LineView::Planned(
            ChangeView {
                action: Action::Delete,
                path: trim(line.skip("*deleting"@.len() as int)),
                itemize: "*deleting"@,
            },
        )
    } else {
        LineView::Other(line)
    }
}

/// The changes among `lines`, in order.
pub open spec fn changes_of(lines: Seq<Seq<char>>) -> Seq<ChangeView>
    decreases lines.len(),
{
    if lines.len() == 0 {
        Seq::empty()
    } else {
        changes_of(lines.drop_last()) + match read_line(lines.last()) {
            LineView::Planned(c) => seq![c],
            _ => Seq::empty(),
        }
    }
}

/// The lines among `lines` that are neither blank nor a change, in order.
pub open spec fn others_of(lines: Seq<Seq<char>>) -> Seq<Seq<char>>
    decreases lines.len(),
{
    if lines.len() == 0 {
        Seq::empty()
    } else {
        others_of(lines.drop_last()) + match read_line(lines.last()) {
            LineView::Other(l) => seq![l],
            _ => Seq::empty(),
        }
    }
}

/// The lines of rsync's stdout: `\r\n` read as `\n`, split on `\n`.
pub open spec fn output_lines(output: Seq<char>) -> Seq<Seq<char>> {
    split_on(replace_crlf(output), '\n')
}

fn read_line_exec(line: &[char]) -> (r: (Option<Change>, Option<String>))
    ensures
        match read_line(line@) {
            LineView::Blank => r.0 is None && r.1 is None,
            LineView::Planned(c) => r.0 matches Some(x) && x@ == c && r.1 is None,
            LineView::Other(l) => r.0 is None && (r.1 matches Some(x) && x@ == l),
        },
{
    if line.len() == 0 {
        return (None, None);
    }
    let marker = chars_of(CHANGE_MARKER);
    if starts_with(line, marker.as_slice()) {
        let rest = slice_chars(line, marker.len(), line.len());
        assert(rest@ =~= line@.skip(CHANGE_MARKER@.len() as int));
        let bar: Vec<char> = vec!['|'];
        assert(bar@ =~= seq!['|']);
        match crate::text::find_chars(rest.as_slice(), bar.as_slice()) {
            Some(i) => {
                proof {
                    lemma_find_first(rest@, seq!['|']);
                    assert(i + 1 <= rest.len());
                }
                let itemize_chars = slice_chars(rest.as_slice(), 0, i);
                let name = slice_chars(rest.as_slice(), i + 1, rest.len());
                assert(itemize_chars@ =~= rest@.take(i as int));
                assert(name@ =~= rest@.skip(i + 1));
                let itemize = string_of(itemize_chars.as_slice());
                let action = classify(itemize.as_str());
                return (Some(Change { action, path: string_of(name.as_slice()), itemize }), None);
            },
            None => {
                return (None, Some(string_of(line)));
            },
        }
    }
    let deleting = chars_of("*deleting");
    if starts_with(line, deleting.as_slice()) {
        let name = slice_chars(line, deleting.len(), line.len());
        assert(name@ =~= line@.skip("*deleting"@.len() as int));
        let path = trim_chars(name.as_slice());
        return (
            Some(Change { action: Action::Delete, path: string_of(path.as_slice()), itemize: String::from_str("*deleting") }),
            None,
        );
    }
    (None, Some(string_of(line)))
}

/// Turns rsync's stdout into structured changes. Lines without the marker are
/// returned separately so a human can still see what the tool said.
pub fn parse_changes(output: &str) -> (r: (Vec<Change>, Vec<String>))
    ensures
        change_views(r.0@) == changes_of(output_lines(output@)),
        text_views(r.1@) == others_of(output_lines(output@)),
{
    let chars = chars_of(output);
    let normal = replace_crlf_exec(chars.as_slice());
    let lines = split_char(normal.as_slice(), '\n');
    let ghost views = lines@.map_values(|v: Vec<char>| v@);
    let mut changes: Vec<Change> = Vec::new();
    let mut other: Vec<String> = Vec::new();
    let mut i: usize = 0;
    while i < lines.len()
        invariant
            i <= lines.len(),
            views == lines@.map_values(|v: Vec<char>| v@),
            views == output_lines(output@),
            change_views(changes@) == changes_of(views.take(i as int)),
            text_views(other@) == others_of(views.take(i as int)),
        decreases lines.len() - i,
    {
        let (change, text) = read_line_exec(lines[i].as_slice());
        proof {
            assert(views.take(i + 1).drop_last() =~= views.take(i as int));
            assert(views.take(i + 1).last() == lines@[i as int]@);
        }
        match change {
            Some(c) => {
                changes.push(c);
            },
            None => {},
        }
        match text {
            Some(t) => {
                other.push(t);
            },
            None => {},
        }
        assert(change_views(changes@) =~= changes_of(views.take(i + 1)));
        assert(text_views(other@) =~= others_of(views.take(i + 1)));
        i = i + 1;
    }
    assert(views.take(lines.len() as int) =~= views);
    (changes, other)
}

// ---------------------------------------------------------------------------
// Remote path shapes
// ---------------------------------------------------------------------------

/// The local name a remote path ends in.
pub open spec fn spec_path_base(remote: Seq<char>) -> Seq<char> {
    let p = match spec_split_remote(remote) {
        Some((_, path)) => path,
        None => remote,
    };
    let t = trim_end_char(p, '/');
    match find_last(t, seq!['/']) {
        Some(i) => t.skip(i + 1),
        None => if t.len() > 0 {
            t
        } else {
            "rhost-download"@
        },
    }
}

/// The local name a remote path ends in, used when a `get` lands inside an
/// existing directory and the result must name the file that was created.
pub fn path_base(remote: &str) -> (r: String)
    ensures
        r@ == spec_path_base(remote@),
{
    let path = match split_remote_spec(remote) {
        Some((_, path)) => path,
        None => String::from_str(remote),
    };
    let p = chars_of(path.as_str());
    let n = trim_end_char_len(p.as_slice(), '/');
    let t = slice_chars(p.as_slice(), 0, n);
    assert(t@ =~= p@.take(n as int));
    let slash: Vec<char> = vec!['/'];
    assert(slash@ =~= seq!['/']);
    match crate::text::find_last_chars(t.as_slice(), slash.as_slice()) {
        Some(i) => {
            proof {
                lemma_find_before(t@, seq!['/'], t@.len() + 1int);
                assert(i + 1 <= t.len());
            }
            let name = slice_chars(t.as_slice(), i + 1, t.len());
            assert(name@ =~= t@.skip(i + 1));
            string_of(name.as_slice())
        },
        None => if t.len() > 0 {
            string_of(t.as_slice())
        } else {
            String::from_str("rhost-download")
        },
    }
}

/// The parent directory a remote file's `mkdir -p` creates: all of a path
/// that ends in `/`, otherwise what precedes its last `/`.
pub open spec fn spec_remote_parent(remote: Seq<char>) -> Seq<char> {
    let t = trim_end_char(remote, '/');
    if remote.len() > 0 && remote.last() == '/' {
        t
    } else {
        match find_last(t, seq!['/']) {
            Some(i) => t.take(i),
            None => Seq::empty(),
        }
    }
}

/// The command that creates a remote file's parent, or `None` when there is
/// no parent to create.
pub open spec fn spec_remote_parent_command(remote: Seq<char>) -> Option<Seq<char>> {
    let parent = spec_remote_parent(remote);
    if parent.len() == 0 || parent == "."@ {
        None
    } else {
        Some("mkdir -p -- "@ + spec_path_quote(parent))
    }
}

/// The `mkdir -p` command that creates a remote file's parent directory, or
/// `None` when the path has no parent to create.
pub fn remote_parent_command(remote: &str) -> (r: Option<String>)
    ensures
        match r {
            Some(c) => spec_remote_parent_command(remote@) == Some(c@),
            None => spec_remote_parent_command(remote@) is None,
        },
{
    proof {
        reveal_strlit(".");
    }
    let p = chars_of(remote);
    let n = trim_end_char_len(p.as_slice(), '/');
    let t = slice_chars(p.as_slice(), 0, n);
    assert(t@ =~= p@.take(n as int));
    let parent = if p.len() > 0 && p[p.len() - 1] == '/' {
        t
    } else {
        let slash: Vec<char> = vec!['/'];
        assert(slash@ =~= seq!['/']);
        match crate::text::find_last_chars(t.as_slice(), slash.as_slice()) {
            Some(i) => {
                proof {
                    lemma_find_before(t@, seq!['/'], t@.len() + 1int);
                }
                let head = slice_chars(t.as_slice(), 0, i);
                assert(head@ =~= t@.take(i as int));
                head
            },
            None => Vec::new(),
        }
    };
    assert(parent@ == spec_remote_parent(remote@));
    if parent.len() == 0 || (parent.len() == 1 && parent[0] == '.') {
        if parent.len() == 1 {
            assert(parent@ =~= "."@);
        }
        return None;
    }
    assert(parent@ != "."@);
    let q = path_quote_chars(parent.as_slice());
    let mut out = String::from_str("mkdir -p -- ");
    out.append(q.as_str());
    Some(out)
}

/// Whether `c` is alphabetic in Unicode's sense, as `char::is_alphabetic`
/// answers.
pub uninterp spec fn alphabetic(c: char) -> bool;

/// `char::is_alphabetic`: Unicode's `Alphabetic` property, a function of the
/// character alone. The property table is left unsaid here.
#[verifier::external_body]
fn is_alphabetic(c: char) -> (r: bool)
    ensures
        r == alphabetic(c),
{
    c.is_alphabetic()
}

/// A character a remote shell takes literally in a path.
pub open spec fn plain_path_char(c: char) -> bool {
    ('a' <= c && c <= 'z') || ('A' <= c && c <= 'Z') || ('0' <= c && c <= '9') || alphabetic(c)
        || c == '/' || c == '.' || c == '_' || c == '~' || c == '-'
}

/// A path with a character the remote shell would not take literally.
pub open spec fn needs_quoting(path: Seq<char>) -> bool {
    exists|k: int| 0 <= k < path.len() && !plain_path_char(#[trigger] path[k])
}

/// True when a remote path would be re-parsed by the remote shell, so rsync
/// needs `--protect-args` (or a hand-quoted path) to keep it one literal.
pub fn path_needs_quoting(path: &str) -> (r: bool)
    ensures
        r == needs_quoting(path@),
{
    let p = chars_of(path);
    let mut i: usize = 0;
    while i < p.len()
        invariant
            i <= p.len(),
            p@ == path@,
            forall|k: int| 0 <= k < i ==> plain_path_char(#[trigger] path@[k]),
        decreases p.len() - i,
    {
        let c = p[i];
        let plain = ('a' <= c && c <= 'z') || ('A' <= c && c <= 'Z') || ('0' <= c && c <= '9')
            || is_alphabetic(c) || c == '/' || c == '.' || c == '_' || c == '~' || c == '-';
        if !plain {
            assert(!plain_path_char(path@[i as int]));
            return true;
        }
        i = i + 1;
    }
    false
}

/// How rsync's itemize bytes are read. `*deleting` is a deletion. Otherwise
/// the second character is the file type: `d` is a directory whatever the
/// first says (`c` created, `.` unchanged, `>` sent, `<` received), and
/// `L c s b p -` (symlink, device, socket, special) is a file that is not
/// copied, so skipped. A regular file sent (`>f`) with nothing but `+` after
/// its type is created, and with anything else updated; one created locally
/// (`cf`) is created.
pub proof fn lemma_itemize_classes(b: Seq<u8>)
    ensures
        b.len() >= 9 && b.take(9) == seq![42u8, 100, 101, 108, 101, 116, 105, 110, 103] ==> spec_classify(b)
            == Action::Delete,
        b.len() > 1 && b[0] != 42 && b[1] == 100 ==> spec_classify(b) == Action::Directory,
        b.len() > 1 && b[0] != 42 && (b[1] == 76 || b[1] == 99 || b[1] == 115 || b[1] == 98 || b[1] == 112
            || b[1] == 45) ==> spec_classify(b) == Action::Skip,
        b.len() > 2 && b[0] == 62 && b[1] == 102 ==> spec_classify(b) == (if forall|k: int|
            2 <= k < b.len() ==> #[trigger] b[k] == 43 {
            Action::Create
        } else {
            Action::Update
        }),
        b.len() > 2 && b[0] == 99 && b[1] == 102 ==> spec_classify(b) == Action::Create,
{
    reveal_strlit("*deleting");
    reveal_strlit(">f");
    reveal_strlit("cf");
    vstd::utf8::is_ascii_chars_encode_utf8("*deleting"@);
    vstd::utf8::is_ascii_chars_encode_utf8(">f"@);
    vstd::utf8::is_ascii_chars_encode_utf8("cf"@);
    let del = encode_utf8("*deleting"@);
    assert(del =~= seq![42u8, 100, 101, 108, 101, 116, 105, 110, 103]);
    assert(encode_utf8(">f"@) =~= seq![62u8, 102]);
    assert(encode_utf8("cf"@) =~= seq![99u8, 102]);
    if b.len() >= 9 && b.take(9) == del {
        assert(b.subrange(0, 9) =~= b.take(9));
    }
    if b.len() > 1 && b[0] != 42 {
        assert(!has_prefix(b, del)) by {
            if has_prefix(b, del) {
                assert(b.subrange(0, 9)[0] == b[0]);
            }
        }
    }
    if b.len() > 2 && b[0] == 62 && b[1] == 102 {
        assert(b.subrange(0, 2) =~= seq![62u8, 102]);
        if forall|k: int| 2 <= k < b.len() ==> #[trigger] b[k] == 43 {
            assert(all_plus(b.skip(2)));
        } else {
            let k = choose|k: int| 2 <= k < b.len() && b[k] != 43;
            assert(b.skip(2)[k - 2] == b[k]);
        }
    }
    if b.len() > 2 && b[0] == 99 && b[1] == 102 {
        assert(b.subrange(0, 2) =~= seq![99u8, 102]);
    }
}

/// A marked plan line names the change rsync prints it for: the itemize text
/// before the first `|`, the whole name after it, and, for an itemize whose
/// second character is `d` (and whose first is not `*`), a directory, as for
/// `cd+++++++++` (created) and `.d..t......` (times changed).
pub proof fn lemma_planned_directory(itemize: Seq<char>, path: Seq<char>)
    requires
        vstd::utf8::is_ascii_chars(itemize),
        !itemize.contains('|'),
        itemize.len() > 1,
        itemize[0] != '*',
        itemize[1] == 'd',
    ensures
        read_line(CHANGE_MARKER@ + itemize + "|"@ + path) == LineView::Planned(
            ChangeView { action: Action::Directory, path, itemize },
        ),
{
    reveal_strlit("RHOSTSYNC|");
    reveal_strlit("|");
    let line = CHANGE_MARKER@ + itemize + "|"@ + path;
    let n = CHANGE_MARKER@.len() as int;
    assert(line.subrange(0, n) =~= CHANGE_MARKER@);
    let rest = line.skip(n);
    assert(rest =~= itemize + "|"@ + path);
    assert forall|j: int| 0 <= j < itemize.len() implies rest[j] != '|' by {
        assert(rest[j] == itemize[j]);
        if itemize[j] == '|' {
            assert(itemize.contains('|'));
        }
    }
    super::args::lemma_first_char_at(rest, '|', itemize.len() as int);
    assert(rest.take(itemize.len() as int) =~= itemize);
    assert(rest.skip(itemize.len() as int + 1) =~= path);
    vstd::utf8::is_ascii_chars_encode_utf8(itemize);
    let b = encode_utf8(itemize);
    assert(b[0] == itemize[0] as u8);
    assert(b[1] == itemize[1] as u8);
    assert(b[0] != 42) by {
        assert((itemize[0] as u32) < 128);
    }
    lemma_itemize_classes(b);
}

} // verus!
