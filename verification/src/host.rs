//! Best-effort discovery of configured SSH targets.
//!
//! OpenSSH configuration remains the source of truth (`ssh <target>` is the
//! authority); this exists so an agent can see what the user probably meant.
//! Aliases come from `Host` lines, skipping wildcard and negated patterns
//! because they do not name a single host; `Include` patterns are followed by
//! the program around the library, which reads the files. Anything it could
//! not read is reported through `complete` and `warnings` rather than
//! presented as an empty list.
use vstd::prelude::*;
use crate::text::{chars_of, has_char, lines, slice_chars, split_lines, string_of, trim, trim_chars, string_views};
use crate::fileops::runner::{ascii_eq, next_word, word_at, word_len, ws_len};
use crate::text::is_ws;

verus! {

/// One configured alias, and the file that named it.
#[derive(Debug, Clone, PartialEq, Eq)]
pub struct Info {
    pub alias: String,
    pub source: Option<String>,
}

impl crate::order::Keyed for Info {
    open spec fn key_view(&self) -> Seq<char> {
        self.alias@
    }

    fn key(&self) -> (r: &str) {
        self.alias.as_str()
    }
}

/// What discovery could see.
#[derive(Debug, Clone, PartialEq, Eq)]
pub struct Discovery {
    pub hosts: Vec<Info>,
    pub config_found: bool,
    pub complete: bool,
    pub warnings: Vec<String>,
}

/// Without a home directory nothing was read, which is not the same as having
/// read everything.
pub fn without_home() -> (r: Discovery)
    ensures
        r.hosts@.len() == 0,
        !r.config_found,
        !r.complete,
        string_views(r.warnings@) == seq!["HOME is unset, so the OpenSSH client config was not read"@],
{
    let mut warnings: Vec<String> = Vec::new();
    crate::text::push_str(&mut warnings, "HOME is unset, so the OpenSSH client config was not read");
    Discovery { hosts: Vec::new(), config_found: false, complete: false, warnings }
}

// ---------------------------------------------------------------------------
// One config line
// ---------------------------------------------------------------------------

/// A keyword separator: space, tab or `=`.
pub open spec fn is_sep(c: char) -> bool {
    c == ' ' || c == '\t' || c == '='
}

/// The first separator in `s`.
pub open spec fn first_sep(s: Seq<char>, from: int) -> Option<int>
    decreases s.len() - from,
{
    if from < 0 || from >= s.len() {
        None
    } else if is_sep(s[from]) {
        Some(from)
    } else {
        first_sep(s, from + 1)
    }
}

/// `s` without leading and trailing separators.
pub open spec fn trim_seps(s: Seq<char>) -> Seq<char>
    decreases s.len(),
{
    if s.len() > 0 && is_sep(s[0]) {
        trim_seps(s.skip(1))
    } else if s.len() > 0 && is_sep(s.last()) {
        trim_seps(s.drop_last())
    } else {
        s
    }
}

/// An ssh_config line split into keyword and remainder, accepting both
/// `Key value` and `Key=value`.
pub open spec fn spec_split_keyword(line: Seq<char>) -> (Seq<char>, Seq<char>) {
    let t = trim(line);
    match first_sep(t, 0) {
        None => (t, Seq::empty()),
        Some(i) => (t.take(i), trim_seps(t.skip(i))),
    }
}

fn trim_seps_exec(s: &[char]) -> (r: Vec<char>)
    ensures
        r@ == trim_seps(s@),
{
    let mut a: usize = 0;
    let mut b: usize = s.len();
    assert(s@.subrange(0, s.len() as int) =~= s@);
    while a < b && (s[a] == ' ' || s[a] == '\t' || s[a] == '=')
        invariant
            a <= b <= s.len(),
            b == s.len(),
            trim_seps(s@) == trim_seps(s@.subrange(a as int, b as int)),
        decreases b - a,
    {
        assert(s@.subrange(a as int, b as int).skip(1) =~= s@.subrange(a + 1, b as int));
        a = a + 1;
    }
    while a < b && (s[b - 1] == ' ' || s[b - 1] == '\t' || s[b - 1] == '=')
        invariant
            a <= b <= s.len(),
            trim_seps(s@) == trim_seps(s@.subrange(a as int, b as int)),
            a < b ==> !is_sep(s@[a as int]),
        decreases b - a,
    {
        assert(s@.subrange(a as int, b as int).drop_last() =~= s@.subrange(a as int, b - 1));
        b = b - 1;
    }
    proof {
        if a < b {
            assert(s@.subrange(a as int, b as int)[0] == s@[a as int]);
            assert(s@.subrange(a as int, b as int).last() == s@[b - 1]);
        }
    }
    slice_chars(s, a, b)
}

/// Splits an ssh_config line into keyword and remainder.
pub fn split_keyword(line: &str) -> (r: (String, String))
    ensures
        (r.0@, r.1@) == spec_split_keyword(line@),
{
    let c = chars_of(line);
    let t = trim_chars(c.as_slice());
    let mut i: usize = 0;
    while i < t.len() && !(t[i] == ' ' || t[i] == '\t' || t[i] == '=')
        invariant
            i <= t.len(),
            first_sep(t@, 0) == first_sep(t@, i as int),
        decreases t.len() - i,
    {
        i = i + 1;
    }
    if i == t.len() {
        return (string_of(t.as_slice()), String::new());
    }
    let key = slice_chars(t.as_slice(), 0, i);
    let rest = slice_chars(t.as_slice(), i, t.len());
    assert(key@ =~= t@.take(i as int));
    assert(rest@ =~= t@.skip(i as int));
    let value = trim_seps_exec(rest.as_slice());
    (string_of(key.as_slice()), string_of(value.as_slice()))
}

// ---------------------------------------------------------------------------
// Include globs
// ---------------------------------------------------------------------------

/// `*` and `?` matching within one path component.
pub open spec fn glob_match(value: Seq<char>, pattern: Seq<char>) -> bool
    decreases pattern.len(),
{
    if pattern.len() == 0 {
        value.len() == 0
    } else if pattern[0] == '*' {
        exists|skip: int| 0 <= skip <= value.len() && glob_match(value.skip(skip), pattern.skip(1))
    } else if pattern[0] == '?' {
        value.len() > 0 && glob_match(value.skip(1), pattern.skip(1))
    } else {
        value.len() > 0 && value[0] == pattern[0] && glob_match(value.skip(1), pattern.skip(1))
    }
}

/// `*` matches any run of characters, the empty one included: whatever
/// matches a pattern still matches it behind a `*` once any text is put in
/// front, so every name ending in `.conf` matches `*.conf`.
pub proof fn lemma_star_matches_any_run(front: Seq<char>, value: Seq<char>, pattern: Seq<char>)
    requires
        glob_match(value, pattern),
    ensures
        glob_match(front + value, seq!['*'] + pattern),
{
    let p = seq!['*'] + pattern;
    let v = front + value;
    assert(p.skip(1) =~= pattern);
    assert(v.skip(front.len() as int) =~= value);
    assert(p[0] == '*');
}

/// `?` matches exactly one character, whichever it is.
pub proof fn lemma_question_matches_one(c: char, value: Seq<char>, pattern: Seq<char>)
    ensures
        glob_match(seq![c] + value, seq!['?'] + pattern) == glob_match(value, pattern),
        !glob_match(Seq::empty(), seq!['?'] + pattern),
{
    assert((seq!['?'] + pattern).skip(1) =~= pattern);
    assert((seq![c] + value).skip(1) =~= value);
}

/// A character that is neither `*` nor `?` matches only itself.
pub proof fn lemma_literal_matches_itself(c: char, d: char, value: Seq<char>, pattern: Seq<char>)
    requires
        c != '*',
        c != '?',
    ensures
        glob_match(seq![d] + value, seq![c] + pattern) == (d == c && glob_match(value, pattern)),
        !glob_match(Seq::empty(), seq![c] + pattern),
{
    assert((seq![c] + pattern).skip(1) =~= pattern);
    assert((seq![d] + value).skip(1) =~= value);
}

/// The empty pattern matches only the empty name, and a lone `*` every name.
pub proof fn lemma_empty_and_lone_star(value: Seq<char>)
    ensures
        glob_match(value, Seq::empty()) == (value.len() == 0),
        glob_match(value, seq!['*']),
{
    assert(seq!['*'].skip(1) =~= Seq::<char>::empty());
    assert(value.skip(value.len() as int) =~= Seq::<char>::empty());
    assert(glob_match(value.skip(value.len() as int), seq!['*'].skip(1)));
}

fn glob_match_exec(value: &[char], pattern: &[char]) -> (r: bool)
    ensures
        r == glob_match(value@, pattern@),
    decreases pattern.len(),
{
    if pattern.len() == 0 {
        return value.len() == 0;
    }
    let rest = slice_chars(pattern, 1, pattern.len());
    assert(rest@ =~= pattern@.skip(1));
    if pattern[0] == '*' {
        let mut skip: usize = 0;
        while skip < value.len()
            invariant
                skip <= value.len(),
                rest@ == pattern@.skip(1),
                pattern.len() > 0,
                pattern@[0] == '*',
                forall|s: int| 0 <= s < skip ==> !glob_match(value@.skip(s), pattern@.skip(1)),
            decreases value.len() + 1 - skip,
        {
            let tail = slice_chars(value, skip, value.len());
            assert(tail@ =~= value@.skip(skip as int));
            if glob_match_exec(tail.as_slice(), rest.as_slice()) {
                return true;
            }
            skip = skip + 1;
        }
        let empty: Vec<char> = Vec::new();
        assert(empty@ =~= value@.skip(value.len() as int));
        return glob_match_exec(empty.as_slice(), rest.as_slice());
    }
    if value.len() == 0 {
        return false;
    }
    let vrest = slice_chars(value, 1, value.len());
    assert(vrest@ =~= value@.skip(1));
    if pattern[0] == '?' {
        return glob_match_exec(vrest.as_slice(), rest.as_slice());
    }
    value[0] == pattern[0] && glob_match_exec(vrest.as_slice(), rest.as_slice())
}

/// Whether a file name matches one component of an `Include` pattern.
pub fn matches_component(value: &str, pattern: &str) -> (r: bool)
    ensures
        r == glob_match(value@, pattern@),
{
    let v = chars_of(value);
    let p = chars_of(pattern);
    glob_match_exec(v.as_slice(), p.as_slice())
}

// ---------------------------------------------------------------------------
// Config lines
// ---------------------------------------------------------------------------

proof fn lemma_ws_len(s: Seq<char>)
    ensures
        0 <= ws_len(s) <= s.len(),
    decreases s.len(),
{
    if s.len() > 0 && is_ws(s[0]) {
        lemma_ws_len(s.skip(1));
    }
}

proof fn lemma_word_len(s: Seq<char>)
    ensures
        0 <= word_len(s) <= s.len(),
        s.len() > 0 && !is_ws(s[0]) ==> word_len(s) >= 1,
    decreases s.len(),
{
    if s.len() > 0 && !is_ws(s[0]) {
        lemma_word_len(s.skip(1));
    }
}

pub proof fn lemma_next_word_shorter(s: Seq<char>)
    ensures
        next_word(s) matches Some((w, r)) ==> r.len() < s.len(),
{
    lemma_ws_len(s);
    let t = s.skip(ws_len(s));
    lemma_word_len(t);
    if t.len() > 0 {
        lemma_ws_len_stops(s);
    }
}

proof fn lemma_ws_len_stops(s: Seq<char>)
    ensures
        ws_len(s) < s.len() ==> !is_ws(s[ws_len(s)]),
    decreases s.len(),
{
    if s.len() > 0 && is_ws(s[0]) {
        lemma_ws_len_stops(s.skip(1));
        lemma_ws_len(s.skip(1));
    }
}

/// `split_whitespace()`: the words of `s`, in order.
pub open spec fn words(s: Seq<char>) -> Seq<Seq<char>>
    decreases s.len(),
{
    match next_word(s) {
        None => Seq::empty(),
        Some((w, r)) => {
            proof {
                lemma_next_word_shorter(s);
            }
            seq![w] + words(r)
        },
    }
}

fn words_exec(s: &[char]) -> (r: Vec<Vec<char>>)
    ensures
        r@.map_values(|v: Vec<char>| v@) == words(s@),
{
    let mut out: Vec<Vec<char>> = Vec::new();
    let mut from: usize = 0;
    assert(s@.skip(0) =~= s@);
    while from < s.len()
        invariant
            from <= s.len(),
            out@.map_values(|v: Vec<char>| v@) + words(s@.skip(from as int)) == words(s@),
        decreases s.len() - from,
    {
        match word_at(s, from) {
            Some((a, b)) => {
                let w = slice_chars(s, a, b);
                let ghost before = out@.map_values(|v: Vec<char>| v@);
                out.push(w);
                assert(out@.map_values(|v: Vec<char>| v@) =~= before.push(s@.subrange(a as int, b as int)));
                from = b;
            },
            None => {
                assert(out@.map_values(|v: Vec<char>| v@) + words(s@.skip(from as int)) =~= out@.map_values(|v: Vec<char>| v@));
                return out;
            },
        }
    }
    assert(s@.skip(from as int) =~= Seq::<char>::empty());
    assert(out@.map_values(|v: Vec<char>| v@) + words(s@.skip(from as int)) =~= out@.map_values(|v: Vec<char>| v@));
    out
}

/// One thing a config line says: an alias, or an `Include` pattern.
#[derive(Debug, Clone, PartialEq, Eq)]
pub enum ConfigEntry {
    Alias(String),
    Include(String),
}

/// A config entry as characters.
pub enum EntryView {
    Alias(Seq<char>),
    Include(Seq<char>),
}

impl View for ConfigEntry {
    type V = EntryView;

    open spec fn view(&self) -> EntryView {
        match self {
            ConfigEntry::Alias(a) => EntryView::Alias(a@),
            ConfigEntry::Include(p) => EntryView::Include(p@),
        }
    }
}

/// A `Host` token that names one host: no wildcard, no negation.
pub open spec fn names_one_host(token: Seq<char>) -> bool {
    !token.contains('*') && !token.contains('?') && !token.contains('!')
}

/// The aliases among `Host` tokens.
pub open spec fn host_entries(tokens: Seq<Seq<char>>) -> Seq<EntryView>
    decreases tokens.len(),
{
    if tokens.len() == 0 {
        Seq::empty()
    } else {
        host_entries(tokens.drop_last()) + if names_one_host(tokens.last()) {
            seq![EntryView::Alias(tokens.last())]
        } else {
            Seq::empty()
        }
    }
}

/// One `Include` entry per pattern.
pub open spec fn include_entries(patterns: Seq<Seq<char>>) -> Seq<EntryView>
    decreases patterns.len(),
{
    if patterns.len() == 0 {
        Seq::empty()
    } else {
        include_entries(patterns.drop_last()) + seq![EntryView::Include(patterns.last())]
    }
}

/// What one config line says. Blank lines and comments say nothing; only
/// `Host` and `Include` (in any ASCII case) matter here.
pub open spec fn line_entries(line: Seq<char>) -> Seq<EntryView> {
    let t = trim(line);
    if t.len() == 0 || t[0] == '#' {
        Seq::empty()
    } else {
        let (keyword, rest) = spec_split_keyword(t);
        if ascii_eq(keyword, "host"@) {
            host_entries(words(rest))
        } else if ascii_eq(keyword, "include"@) {
            include_entries(words(rest))
        } else {
            Seq::empty()
        }
    }
}

/// What every line of a config file says, in order.
pub open spec fn entries_of(ls: Seq<Seq<char>>) -> Seq<EntryView>
    decreases ls.len(),
{
    if ls.len() == 0 {
        Seq::empty()
    } else {
        entries_of(ls.drop_last()) + line_entries(ls.last())
    }
}

/// The views of a list of entries.
pub open spec fn entry_views(v: Seq<ConfigEntry>) -> Seq<EntryView> {
    v.map_values(|e: ConfigEntry| e@)
}

fn has_glob_or_bang(t: &[char]) -> (r: bool)
    ensures
        r == !names_one_host(t@),
{
    has_char(t, '*') || has_char(t, '?') || has_char(t, '!')
}

fn line_entries_exec(line: &[char], out: &mut Vec<ConfigEntry>)
    ensures
        entry_views(final(out)@) == entry_views(old(out)@) + line_entries(line@),
{
    let t = trim_chars(line);
    if t.len() == 0 || t[0] == '#' {
        assert(entry_views(out@) =~= entry_views(old(out)@) + line_entries(line@));
        return;
    }
    let text = string_of(t.as_slice());
    let (keyword, rest) = split_keyword(text.as_str());
    let k = chars_of(keyword.as_str());
    let r = chars_of(rest.as_str());
    let ws = words_exec(r.as_slice());
    let ghost tokens = ws@.map_values(|v: Vec<char>| v@);
    let is_host = crate::fileops::remote::ascii_eq_rev("host", k.as_slice());
    let is_include = crate::fileops::remote::ascii_eq_rev("include", k.as_slice());
    proof {
        assert(ascii_eq("host"@, k@) == ascii_eq(k@, "host"@));
        assert(ascii_eq("include"@, k@) == ascii_eq(k@, "include"@));
    }
    if !is_host && !is_include {
        assert(entry_views(out@) =~= entry_views(old(out)@) + line_entries(line@));
        return;
    }
    let ghost start = entry_views(out@);
    let mut i: usize = 0;
    while i < ws.len()
        invariant
            i <= ws.len(),
            tokens == ws@.map_values(|v: Vec<char>| v@),
            is_host ==> entry_views(out@) == start + host_entries(tokens.take(i as int)),
            !is_host ==> entry_views(out@) == start + include_entries(tokens.take(i as int)),
        decreases ws.len() - i,
    {
        let token = &ws[i];
        proof {
            assert(tokens.take(i + 1).drop_last() =~= tokens.take(i as int));
            assert(tokens.take(i + 1).last() == token@);
        }
        let ghost before = entry_views(out@);
        if is_host {
            if !has_glob_or_bang(token.as_slice()) {
                out.push(ConfigEntry::Alias(string_of(token.as_slice())));
                assert(entry_views(out@) =~= before.push(EntryView::Alias(token@)));
            }
        } else {
            out.push(ConfigEntry::Include(string_of(token.as_slice())));
            assert(entry_views(out@) =~= before.push(EntryView::Include(token@)));
        }
        i = i + 1;
    }
    assert(tokens.take(ws.len() as int) =~= tokens);
}

/// Reads what a config file's text names: its aliases and `Include` patterns,
/// in the order they appear. Deduplicating aliases across files and following
/// includes belongs to the walk over files.
pub fn scan_config(contents: &str) -> (r: Vec<ConfigEntry>)
    ensures
        entry_views(r@) == entries_of(lines(contents@)),
{
    let c = chars_of(contents);
    let ls = split_lines(c.as_slice());
    let ghost all = lines(contents@);
    let mut out: Vec<ConfigEntry> = Vec::new();
    let mut i: usize = 0;
    while i < ls.len()
        invariant
            i <= ls.len(),
            ls@.len() == all.len(),
            all == lines(contents@),
            forall|k: int| 0 <= k < ls@.len() ==> #[trigger] ls@[k]@ == all[k],
            entry_views(out@) == entries_of(all.take(i as int)),
        decreases ls.len() - i,
    {
        proof {
            assert(all.take(i + 1).drop_last() =~= all.take(i as int));
            assert(ls@[i as int]@ == all[i as int]);
        }
        line_entries_exec(ls[i].as_slice(), &mut out);
        i = i + 1;
    }
    assert(all.take(ls.len() as int) =~= all);
    out
}

/// Whether a config file is entered: the first time its resolved path comes
/// up, and never again, so an `Include` cycle ends. An entered file joins
/// `visited`.
pub fn first_visit(visited: &mut Vec<String>, path: &str) -> (r: bool)
    ensures
        r == !string_views(old(visited)@).contains(path@),
        string_views(final(visited)@) == (if r {
            string_views(old(visited)@).push(path@)
        } else {
            string_views(old(visited)@)
        }),
{
    let r = first_sighting(visited.as_slice(), path);
    if r {
        crate::text::push_str(visited, path);
    }
    r
}

impl Discovery {
    /// A config file that could not be read: what it would have named is
    /// unknown, so the discovery is no longer complete, and says why.
    pub fn unreadable(&mut self)
        ensures
            final(self).hosts@ == old(self).hosts@,
            final(self).config_found == old(self).config_found,
            !final(self).complete,
            string_views(final(self).warnings@) == string_views(old(self).warnings@).push(
                "could not read an included SSH config file"@,
            ),
    {
        self.complete = false;
        crate::text::push_str(&mut self.warnings, "could not read an included SSH config file");
    }

    /// An `Include` that could not be expanded, for `reason`: the discovery is
    /// no longer complete, and says why.
    pub fn include_failed(&mut self, reason: &str)
        ensures
            final(self).hosts@ == old(self).hosts@,
            final(self).config_found == old(self).config_found,
            !final(self).complete,
            string_views(final(self).warnings@) == string_views(old(self).warnings@).push(reason@),
    {
        self.complete = false;
        crate::text::push_str(&mut self.warnings, reason);
    }
}

/// Whether an alias is seen for the first time: an alias two files name is
/// reported once, from the first.
pub fn first_sighting(seen: &[String], alias: &str) -> (r: bool)
    ensures
        r == !string_views(seen@).contains(alias@),
{
    let a = chars_of(alias);
    let mut i: usize = 0;
    while i < seen.len()
        invariant
            i <= seen.len(),
            a@ == alias@,
            forall|k: int| 0 <= k < i ==> seen@[k]@ != alias@,
        decreases seen.len() - i,
    {
        let s = chars_of(seen[i].as_str());
        if s.len() == a.len() && crate::text::chars_eq(s.as_slice(), a.as_slice()) {
            assert(string_views(seen@)[i as int] == alias@);
            return false;
        }
        i = i + 1;
    }
    assert forall|k: int| 0 <= k < string_views(seen@).len() implies string_views(seen@)[k] != alias@ by {
        assert(string_views(seen@)[k] == seen@[k]@);
    }
    true
}

// ---------------------------------------------------------------------------
// Include paths
// ---------------------------------------------------------------------------

/// `base` joined with `rest` the way a path is extended on a POSIX host: an
/// absolute `rest` replaces `base`, and one separator stands between them.
pub open spec fn join_path(base: Seq<char>, rest: Seq<char>) -> Seq<char> {
    if rest.len() > 0 && rest[0] == '/' {
        rest
    } else if base.len() == 0 {
        rest
    } else if base.last() == '/' {
        base + rest
    } else {
        base + "/"@ + rest
    }
}

fn join_exec(base: &str, rest: &str) -> (r: String)
    ensures
        r@ == join_path(base@, rest@),
{
    let b = chars_of(base);
    let r = chars_of(rest);
    if r.len() > 0 && r[0] == '/' {
        return String::from_str(rest);
    }
    if b.len() == 0 {
        return String::from_str(rest);
    }
    let mut out = String::from_str(base);
    if b[b.len() - 1] != '/' {
        out.append("/");
    }
    out.append(rest);
    out
}

/// Where an `Include` pattern is looked for: `~/` is the home directory, an
/// absolute pattern is used as given, and anything else is relative to
/// `~/.ssh`, as OpenSSH does.
pub open spec fn spec_include_root(pattern: Seq<char>, home: Seq<char>) -> Seq<char> {
    if pattern.len() >= 2 && pattern[0] == '~' && pattern[1] == '/' {
        join_path(home, pattern.skip(2))
    } else if pattern.len() > 0 && pattern[0] == '/' {
        pattern
    } else {
        join_path(join_path(home, ".ssh"@), pattern)
    }
}

/// The path an `Include` pattern names, or why this reader cannot expand it:
/// only `*` and `?` are matched, so a pattern with `[` or `{` anywhere in its
/// full path lowers completeness instead of being guessed at.
pub fn include_path(pattern: &str, home: &str) -> (r: Result<String, String>)
    ensures
        match r {
            Ok(path) => path@ == spec_include_root(pattern@, home@) && !spec_include_root(pattern@, home@).contains('[')
                && !spec_include_root(pattern@, home@).contains('{'),
            Err(m) => (spec_include_root(pattern@, home@).contains('[') || spec_include_root(pattern@, home@).contains('{'))
                && m@ == "unsupported Include pattern (only * and ? are matched): "@ + pattern@,
        },
{
    let p = chars_of(pattern);
    let rooted = if p.len() >= 2 && p[0] == '~' && p[1] == '/' {
        let rest = slice_chars(p.as_slice(), 2, p.len());
        assert(rest@ =~= pattern@.skip(2));
        let rest_text = string_of(rest.as_slice());
        join_exec(home, rest_text.as_str())
    } else if p.len() > 0 && p[0] == '/' {
        String::from_str(pattern)
    } else {
        let ssh = join_exec(home, ".ssh");
        join_exec(ssh.as_str(), pattern)
    };
    let c = chars_of(rooted.as_str());
    if has_char(c.as_slice(), '[') || has_char(c.as_slice(), '{') {
        let mut m = String::from_str("unsupported Include pattern (only * and ? are matched): ");
        m.append(pattern);
        return Err(m);
    }
    Ok(rooted)
}

} // verus!
