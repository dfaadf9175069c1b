//! Quoting and byte handling for values that cross a remote shell boundary.
//!
//! Any caller that needs a remote shell to see a value as *one literal* goes
//! through here.
use vstd::prelude::*;
use crate::text::{chars_of, find_first, has_prefix, is_digit, lemma_find_first, occurs_at, push_char, slice_bytes};

verus! {

/// The body of a single-quoted word: every `'` becomes `'\''`.
pub open spec fn quote_body(s: Seq<char>) -> Seq<char>
    decreases s.len(),
{
    if s.len() == 0 {
        seq![]
    } else {
        quote_body(s.drop_last()) + (if s.last() == '\'' {
            seq!['\'', '\\', '\'', '\'']
        } else {
            seq![s.last()]
        })
    }
}

/// POSIX single-quoted form of `s`.
pub open spec fn spec_quote(s: Seq<char>) -> Seq<char> {
    seq!['\''] + quote_body(s) + seq!['\'']
}

/// The literal a POSIX shell reads from a word made only of single-quoted
/// segments and backslash-escaped characters; `None` for any other word, which
/// is outside what this reading covers.
pub open spec fn shell_word(s: Seq<char>) -> Option<Seq<char>>
    decreases s.len(),
{
    if s.len() == 0 {
        Some(seq![])
    } else if s[0] == '\'' {
        match find_first(s.drop_first(), seq!['\'']) {
            Some(i) => if 0 <= i < s.len() - 1 {
                match shell_word(s.skip(i + 2)) {
                    Some(rest) => Some(s.subrange(1, i + 1) + rest),
                    None => None,
                }
            } else {
                None
            },
            None => None,
        }
    } else if s[0] == '\\' && s.len() >= 2 {
        match shell_word(s.skip(2)) {
            Some(rest) => Some(seq![s[1]] + rest),
            None => None,
        }
    } else {
        None
    }
}

proof fn lemma_quote_body_concat(a: Seq<char>, b: Seq<char>)
    ensures
        quote_body(a + b) == quote_body(a) + quote_body(b),
    decreases b.len(),
{
    if b.len() == 0 {
        assert(a + b =~= a);
        assert(quote_body(a) + quote_body(b) =~= quote_body(a));
    } else {
        lemma_quote_body_concat(a, b.drop_last());
        assert((a + b).drop_last() =~= a + b.drop_last());
        assert((a + b).last() == b.last());
    }
}

proof fn lemma_quote_body_plain(w: Seq<char>)
    requires
        forall|k: int| 0 <= k < w.len() ==> w[k] != '\'',
    ensures
        quote_body(w) == w,
    decreases w.len(),
{
    if w.len() > 0 {
        lemma_quote_body_plain(w.drop_last());
        assert(w.drop_last() + seq![w.last()] =~= w);
    }
}

/// A single-quoted segment without a quote inside reads as its contents.
proof fn lemma_segment(w: Seq<char>, t: Seq<char>)
    requires
        forall|k: int| 0 <= k < w.len() ==> w[k] != '\'',
    ensures
        shell_word(seq!['\''] + w + seq!['\''] + t) == match shell_word(t) {
            Some(r) => Some(w + r),
            None => None::<Seq<char>>,
        },
{
    let s = seq!['\''] + w + seq!['\''] + t;
    let body = s.drop_first();
    assert(body =~= w + seq!['\''] + t);
    lemma_find_first(body, seq!['\'']);
    assert(occurs_at(body, seq!['\''], w.len() as int)) by {
        assert(body.subrange(w.len() as int, w.len() + 1int) =~= seq!['\'']);
    }
    match find_first(body, seq!['\'']) {
        Some(i) => {
            if i < w.len() {
                assert(body.subrange(i, i + 1)[0] == body[i]);
                assert(body[i] == w[i]);
            }
            assert(i == w.len());
            assert(s.skip(i + 2) =~= t);
            assert(s.subrange(1, i + 1) =~= w);
        },
        None => {},
    }
}

/// Quoting keeps one literal: a POSIX shell reads [`spec_quote`]`(v)` back as
/// exactly `v`, whatever characters `v` holds.
pub proof fn lemma_quote_reads_back(v: Seq<char>)
    ensures
        shell_word(spec_quote(v)) == Some(v),
    decreases v.len(),
{
    lemma_find_first(v, seq!['\'']);
    match find_first(v, seq!['\'']) {
        None => {
            assert forall|k: int| 0 <= k < v.len() implies v[k] != '\'' by {
                if v[k] == '\'' {
                    assert(v.subrange(k, k + 1) =~= seq!['\'']);
                    assert(occurs_at(v, seq!['\''], k));
                }
            }
            lemma_quote_body_plain(v);
            lemma_segment(v, seq![]);
            assert(spec_quote(v) =~= seq!['\''] + v + seq!['\''] + seq![]);
            assert(v + seq![] =~= v);
        },
        Some(k) => {
            let w = v.take(k);
            let rest = v.skip(k + 1);
            assert(v.subrange(k, k + 1)[0] == v[k]);
            assert(v[k] == '\'');
            assert forall|j: int| 0 <= j < w.len() implies w[j] != '\'' by {
                if w[j] == '\'' {
                    assert(v.subrange(j, j + 1) =~= seq!['\'']);
                    assert(occurs_at(v, seq!['\''], j));
                }
            }
            assert(v =~= w + seq!['\''] + rest);
            lemma_quote_body_concat(w + seq!['\''], rest);
            lemma_quote_body_concat(w, seq!['\'']);
            lemma_quote_body_plain(w);
            assert(seq!['\''].drop_last() =~= Seq::<char>::empty());
            assert(quote_body(Seq::<char>::empty()) =~= Seq::<char>::empty());
            assert(seq!['\''].last() == '\'');
            assert(quote_body(seq!['\'']) =~= seq!['\'', '\\', '\'', '\'']);
            let t = seq!['\\', '\''] + spec_quote(rest);
            assert(spec_quote(v) =~= seq!['\''] + w + seq!['\''] + t);
            lemma_quote_reads_back(rest);
            assert(t.skip(2) =~= spec_quote(rest));
            lemma_segment(w, t);
            assert(w + (seq!['\''] + rest) =~= v);
        },
    }
}

/// `"$HOME"`, the remote spelling of the home directory.
pub open spec fn home_word() -> Seq<char> {
    seq!['"', '$', 'H', 'O', 'M', 'E', '"']
}

/// A remote path as one literal, with only a leading `~` or `~/` expanded by the
/// remote shell.
pub open spec fn spec_path_quote(s: Seq<char>) -> Seq<char> {
    if s == seq!['~'] {
        home_word()
    } else if has_prefix(s, seq!['~', '/']) {
        home_word() + seq!['/'] + spec_quote(s.subrange(2, s.len() as int))
    } else {
        spec_quote(s)
    }
}

/// Appends the quoted body of `v[from..]` to `out`.
fn push_quoted(out: &mut String, v: &[char], from: usize)
    requires
        from <= v.len(),
    ensures
        final(out)@ == old(out)@ + quote_body(v@.subrange(from as int, v.len() as int)),
{
    let mut i = from;
    let ghost start = old(out)@;
    assert(v@.subrange(from as int, from as int) =~= Seq::<char>::empty());
    assert(quote_body(Seq::<char>::empty()) =~= Seq::<char>::empty());
    while i < v.len()
        invariant
            from <= i <= v.len(),
            out@ == start + quote_body(v@.subrange(from as int, i as int)),
        decreases v.len() - i,
    {
        let c = v[i];
        assert(v@.subrange(from as int, i + 1).drop_last() =~= v@.subrange(from as int, i as int));
        if c == '\'' {
            push_char(out, '\'');
            push_char(out, '\\');
            push_char(out, '\'');
            push_char(out, '\'');
            assert(out@ =~= start + quote_body(v@.subrange(from as int, i + 1)));
        } else {
            push_char(out, c);
            assert(out@ =~= start + quote_body(v@.subrange(from as int, i + 1)));
        }
        i = i + 1;
    }
}

/// POSIX single-quoted form of `value`.
///
/// The `'\''` escape idiom is understood by sh/bash/dash/ksh/zsh and also by
/// fish, which matters because sshd runs the client command through the remote
/// account's login shell.
pub fn quote(value: &str) -> (r: String)
    ensures
        r@ == spec_quote(value@),
{
    let v = chars_of(value);
    quote_chars(&v)
}

/// [`quote`] for a character slice.
pub fn quote_chars(v: &[char]) -> (r: String)
    ensures
        r@ == spec_quote(v@),
{
    let mut out = String::new();
    push_char(&mut out, '\'');
    push_quoted(&mut out, v, 0);
    push_char(&mut out, '\'');
    assert(v@.subrange(0, v.len() as int) =~= v@);
    assert(out@ =~= spec_quote(v@));
    out
}

/// Quotes a remote path as one literal value, expanding only the current remote
/// user's leading home shorthand. Expansion happens on the remote host.
pub fn path_quote(value: &str) -> (r: String)
    ensures
        r@ == spec_path_quote(value@),
{
    let v = chars_of(value);
    path_quote_chars(&v)
}

/// [`path_quote`] for a character slice.
pub fn path_quote_chars(v: &[char]) -> (r: String)
    ensures
        r@ == spec_path_quote(v@),
{
    let mut out = String::new();
    if v.len() == 1 && v[0] == '~' {
        assert(v@ =~= seq!['~']);
        push_home(&mut out);
        return out;
    }
    if v.len() >= 2 && v[0] == '~' && v[1] == '/' {
        assert(has_prefix(v@, seq!['~', '/'])) by {
            assert(v@.subrange(0, 2) =~= seq!['~', '/']);
        }
        assert(v@ != seq!['~']);
        push_home(&mut out);
        push_char(&mut out, '/');
        push_char(&mut out, '\'');
        push_quoted(&mut out, v, 2);
        push_char(&mut out, '\'');
        assert(out@ =~= spec_path_quote(v@));
        return out;
    }
    assert(!has_prefix(v@, seq!['~', '/'])) by {
        if v@.len() >= 2 {
            assert(v@.subrange(0, 2)[0] == v@[0]);
            assert(v@.subrange(0, 2)[1] == v@[1]);
        }
    }
    assert(v@ != seq!['~']) by {
        if v@ == seq!['~'] {
            assert(v@.len() == 1 && v@[0] == '~');
        }
    }
    quote_chars(v)
}

fn push_home(out: &mut String)
    ensures
        final(out)@ == old(out)@ + home_word(),
{
    push_char(out, '"');
    push_char(out, '$');
    push_char(out, 'H');
    push_char(out, 'O');
    push_char(out, 'M');
    push_char(out, 'E');
    push_char(out, '"');
    assert(out@ =~= old(out)@ + home_word());
}

pub open spec fn is_ascii_alpha(c: char) -> bool {
    ('a' <= c && c <= 'z') || ('A' <= c && c <= 'Z')
}

pub open spec fn is_ascii_alnum(c: char) -> bool {
    is_ascii_alpha(c) || is_digit(c)
}

/// A POSIX environment-variable identifier: a letter or `_`, then letters,
/// digits and `_`.
pub open spec fn spec_env_key(s: Seq<char>) -> bool {
    &&& s.len() > 0
    &&& (is_ascii_alpha(s[0]) || s[0] == '_')
    &&& forall|k: int| 1 <= k < s.len() ==> is_ascii_alnum(#[trigger] s[k]) || s[k] == '_'
}

/// Accepts only POSIX environment-variable identifiers. This closes the
/// `export FOO=bar\necho pwned` injection class.
pub fn is_valid_env_key(key: &str) -> (r: bool)
    ensures
        r == spec_env_key(key@),
{
    let v = chars_of(key);
    if v.len() == 0 {
        return false;
    }
    let first = v[0];
    if !(('a' <= first && first <= 'z') || ('A' <= first && first <= 'Z') || first == '_') {
        return false;
    }
    let mut i: usize = 1;
    while i < v.len()
        invariant
            1 <= i <= v.len(),
            v@ == key@,
            forall|k: int| 1 <= k < i ==> is_ascii_alnum(#[trigger] v@[k]) || v@[k] == '_',
        decreases v.len() - i,
    {
        let c = v[i];
        if !(('a' <= c && c <= 'z') || ('A' <= c && c <= 'Z') || ('0' <= c && c <= '9') || c
            == '_') {
            assert(!(is_ascii_alnum(v@[i as int]) || v@[i as int] == '_'));
            return false;
        }
        i = i + 1;
    }
    true
}

/// How many bytes a UTF-8 sequence led by `byte` needs; 1 for a byte that
/// cannot lead one.
pub open spec fn utf8_width(byte: u8) -> int {
    if 0xC0 <= byte && byte < 0xE0 {
        2
    } else if 0xE0 <= byte && byte < 0xF0 {
        3
    } else if 0xF0 <= byte && byte < 0xF8 {
        4
    } else {
        1
    }
}

/// Looks back from the end of `b` for the byte that leads the last sequence,
/// `index` bytes from the end, giving up after four.
pub open spec fn suffix_scan(b: Seq<u8>, index: int) -> int
    decreases 5 - index,
{
    if index < 1 || index > 4 || index > b.len() {
        0
    } else {
        let byte = b[b.len() - index];
        if byte < 0x80 {
            0
        } else if byte >= 0xC0 {
            if utf8_width(byte) > index {
                index
            } else {
                0
            }
        } else {
            suffix_scan(b, index + 1)
        }
    }
}

/// Trailing bytes of `b` that form an incomplete UTF-8 sequence.
pub open spec fn spec_incomplete_suffix(b: Seq<u8>) -> int {
    suffix_scan(b, 1)
}

pub proof fn lemma_suffix_scan_bound(b: Seq<u8>, index: int)
    requires
        1 <= index,
    ensures
        0 <= suffix_scan(b, index) <= b.len(),
        suffix_scan(b, index) <= 4,
    decreases 5 - index,
{
    if index < 1 || index > 4 || index > b.len() {
    } else {
        let byte = b[b.len() - index];
        if byte < 0x80 {
        } else if byte >= 0xC0 {
        } else {
            lemma_suffix_scan_bound(b, index + 1);
        }
    }
}

/// Trailing bytes of `bytes` that form an incomplete UTF-8 sequence, or 0 when
/// `bytes` ends on a rune boundary. Used to cut a capture without emitting a
/// partial rune.
pub fn incomplete_utf8_suffix(bytes: &[u8]) -> (r: usize)
    ensures
        r == spec_incomplete_suffix(bytes@),
        r <= bytes@.len(),
{
    proof {
        lemma_suffix_scan_bound(bytes@, 1);
    }
    let mut index: usize = 1;
    while index <= 4 && index <= bytes.len()
        invariant
            1 <= index <= 5,
            suffix_scan(bytes@, 1) == suffix_scan(bytes@, index as int),
        decreases 5 - index,
    {
        let byte = bytes[bytes.len() - index];
        if byte < 0x80 {
            return 0;
        }
        if byte >= 0xC0 {
            let want: usize = if 0xC0 <= byte && byte < 0xE0 {
                2
            } else if 0xE0 <= byte && byte < 0xF0 {
                3
            } else if 0xF0 <= byte && byte < 0xF8 {
                4
            } else {
                1
            };
            return if want > index {
                index
            } else {
                0
            };
        }
        index = index + 1;
    }
    0
}

/// `bytes` cut to at most `limit` source bytes, never mid-rune.
pub open spec fn spec_truncate(bytes: Seq<u8>, limit: int) -> Seq<u8> {
    if bytes.len() <= limit {
        bytes
    } else {
        bytes.take(limit - spec_incomplete_suffix(bytes.take(limit)))
    }
}

/// The scan only looks at the last bytes: once `b`'s tail starts with a byte
/// that is not a continuation byte, putting anything in front changes nothing.
proof fn lemma_scan_prefix(a: Seq<u8>, b: Seq<u8>, index: int)
    requires
        1 <= index <= b.len(),
        !vstd::utf8::is_continuation_byte(b[0]),
    ensures
        suffix_scan(a + b, index) == suffix_scan(b, index),
    decreases 5 - index,
{
    let c = a + b;
    if index <= 4 {
        assert(c[c.len() - index] == b[b.len() - index]);
        let byte = b[b.len() - index];
        if byte < 0x80 || byte >= 0xC0 {
        } else {
            assert(index < b.len());
            lemma_scan_prefix(a, b, index + 1);
        }
    }
}

/// In valid UTF-8, the byte the cut lands on is never a continuation byte.
proof fn lemma_cut_lands_on_a_lead(bytes: Seq<u8>, limit: int)
    requires
        vstd::utf8::valid_utf8(bytes),
        0 <= limit < bytes.len(),
    ensures
        !vstd::utf8::is_continuation_byte(bytes[limit - spec_incomplete_suffix(bytes.take(limit))]),
    decreases bytes.len(),
{
    reveal_with_fuel(suffix_scan, 5);
    let width = vstd::utf8::length_of_first_scalar(bytes);
    let rest = vstd::utf8::pop_first_scalar(bytes);
    assert(vstd::utf8::valid_first_scalar(bytes) && vstd::utf8::valid_utf8(rest));
    if limit == 0 {
        assert(bytes.take(0).len() == 0);
    } else if limit < width {
        // The cut falls inside the first character: the scan walks back over
        // its continuation bytes to its lead byte and holds all of it back.
        let h = bytes.take(limit);
        assert(h[0] == bytes[0]);
        if limit == 1 {
            assert(h[h.len() - 1] == bytes[0]);
        } else if limit == 2 {
            assert(h[h.len() - 1] == bytes[1]);
            assert(h[h.len() - 2] == bytes[0]);
        } else {
            assert(limit == 3);
            assert(h[h.len() - 1] == bytes[2]);
            assert(h[h.len() - 2] == bytes[1]);
            assert(h[h.len() - 3] == bytes[0]);
        }
    } else {
        let h = bytes.take(limit);
        let l2 = limit - width;
        assert(rest =~= bytes.skip(width));
        if l2 == 0 {
            // The cut falls right after the first character, which the scan
            // finds complete.
            assert(rest.len() > 0);
            assert(vstd::utf8::valid_first_scalar(rest));
            assert(bytes[limit] == rest[0]);
            if width == 1 {
                assert(h[h.len() - 1] == bytes[0]);
            } else if width == 2 {
                assert(h[h.len() - 1] == bytes[1]);
                assert(h[h.len() - 2] == bytes[0]);
            } else if width == 3 {
                assert(h[h.len() - 1] == bytes[2]);
                assert(h[h.len() - 2] == bytes[1]);
                assert(h[h.len() - 3] == bytes[0]);
            } else {
                assert(h[h.len() - 1] == bytes[3]);
                assert(h[h.len() - 2] == bytes[2]);
                assert(h[h.len() - 3] == bytes[1]);
                assert(h[h.len() - 4] == bytes[0]);
            }
        } else {
            lemma_cut_lands_on_a_lead(rest, l2);
            let t = rest.take(l2);
            assert(vstd::utf8::valid_first_scalar(rest));
            assert(h =~= bytes.take(width) + t);
            assert(t[0] == rest[0]);
            lemma_scan_prefix(bytes.take(width), t, 1);
            lemma_suffix_scan_bound(t, 1);
            assert(bytes[limit - spec_incomplete_suffix(h)] == rest[l2 - spec_incomplete_suffix(t)]);
        }
    }
}

/// Truncation never emits part of a character: cutting valid UTF-8 gives
/// valid UTF-8, a prefix of the original that is at most `limit` bytes long
/// and decodes to a prefix of the original text.
pub proof fn lemma_truncate_keeps_whole_characters(bytes: Seq<u8>, limit: int)
    requires
        vstd::utf8::valid_utf8(bytes),
        0 <= limit,
    ensures
        vstd::utf8::valid_utf8(spec_truncate(bytes, limit)),
        spec_truncate(bytes, limit).len() <= limit || spec_truncate(bytes, limit) == bytes,
        spec_truncate(bytes, limit) == bytes.take(spec_truncate(bytes, limit).len() as int),
        vstd::utf8::decode_utf8(bytes).take(vstd::utf8::decode_utf8(spec_truncate(bytes, limit)).len() as int)
            == vstd::utf8::decode_utf8(spec_truncate(bytes, limit)),
{
    if bytes.len() <= limit {
        assert(bytes.take(bytes.len() as int) =~= bytes);
        assert(vstd::utf8::decode_utf8(bytes).take(vstd::utf8::decode_utf8(bytes).len() as int) =~= vstd::utf8::decode_utf8(bytes));
    } else {
        lemma_suffix_scan_bound(bytes.take(limit), 1);
        let cut = limit - spec_incomplete_suffix(bytes.take(limit));
        lemma_cut_lands_on_a_lead(bytes, limit);
        vstd::utf8::is_char_boundary_iff_not_is_continuation_byte(bytes, cut);
        vstd::utf8::valid_utf8_split(bytes, cut);
        vstd::utf8::decode_utf8_split(bytes, cut);
        assert(bytes.subrange(0, cut) =~= bytes.take(cut));
        let front = vstd::utf8::decode_utf8(bytes.take(cut));
        assert(vstd::utf8::decode_utf8(bytes).take(front.len() as int) =~= front);
    }
}

/// Cuts `bytes` to at most `limit` source bytes, never mid-rune.
pub fn truncate_on_char_boundary(bytes: Vec<u8>, limit: usize) -> (r: Vec<u8>)
    ensures
        r@ == spec_truncate(bytes@, limit as int),
{
    if bytes.len() <= limit {
        return bytes;
    }
    let head = slice_bytes(&bytes, 0, limit);
    let cut = limit - incomplete_utf8_suffix(&head);
    assert(bytes@.subrange(0, limit as int) =~= bytes@.take(limit as int));
    let r = slice_bytes(&bytes, 0, cut);
    assert(r@ =~= bytes@.take(cut as int));
    r
}

// ---------------------------------------------------------------------------
// Terminal sequences
// ---------------------------------------------------------------------------

pub open spec fn esc() -> char {
    '\x1b'
}

pub open spec fn bel() -> char {
    '\x07'
}

/// One past the end of an OSC string whose body starts at `i`: BEL or `ESC \`
/// ends it. `None` when it never terminates.
pub open spec fn spec_osc_end(s: Seq<char>, i: int) -> Option<int>
    decreases s.len() - i,
{
    if i < 0 || i >= s.len() {
        None
    } else if s[i] == bel() {
        Some(i + 1)
    } else if s[i] == esc() && i + 1 < s.len() && s[i + 1] == '\\' {
        Some(i + 2)
    } else {
        spec_osc_end(s, i + 1)
    }
}

pub open spec fn is_csi_param(c: char) -> bool {
    is_digit(c) || c == ';' || c == '?'
}

/// The first offset at or after `i` that is not a CSI parameter character.
pub open spec fn csi_params_end(s: Seq<char>, i: int) -> int
    decreases s.len() - i,
{
    if i < 0 || i >= s.len() || !is_csi_param(s[i]) {
        i
    } else {
        csi_params_end(s, i + 1)
    }
}

/// One past a CSI sequence whose parameters start at `i`, or `None` when it
/// never reaches an alphabetic final byte.
pub open spec fn spec_csi_end(s: Seq<char>, i: int) -> Option<int> {
    let j = csi_params_end(s, i);
    if 0 <= j < s.len() && is_ascii_alpha(s[j]) {
        Some(j + 1)
    } else {
        None
    }
}

pub proof fn lemma_osc_end_bound(s: Seq<char>, i: int)
    ensures
        spec_osc_end(s, i) matches Some(e) ==> i < e <= s.len(),
    decreases s.len() - i,
{
    if i < 0 || i >= s.len() {
    } else if s[i] == bel() {
    } else if s[i] == esc() && i + 1 < s.len() && s[i + 1] == '\\' {
    } else {
        lemma_osc_end_bound(s, i + 1);
    }
}

pub proof fn lemma_csi_params_end_bound(s: Seq<char>, i: int)
    ensures
        i >= 0 ==> i <= csi_params_end(s, i),
    decreases s.len() - i,
{
    if i < 0 || i >= s.len() || !is_csi_param(s[i]) {
    } else {
        lemma_csi_params_end_bound(s, i + 1);
    }
}

/// The characters of `s` from `i` on with every terminated OSC and CSI
/// sequence removed.
pub open spec fn strip_from(s: Seq<char>, i: int) -> Seq<char>
    decreases s.len() - i,
{
    if i < 0 || i >= s.len() {
        seq![]
    } else if s[i] == esc() && i + 1 < s.len() && s[i + 1] == ']' && spec_osc_end(s, i + 2) is Some {
        proof {
            lemma_osc_end_bound(s, i + 2);
        }
        strip_from(s, spec_osc_end(s, i + 2)->0)
    } else if s[i] == esc() && i + 1 < s.len() && s[i + 1] == '[' && spec_csi_end(s, i + 2) is Some {
        proof {
            lemma_csi_params_end_bound(s, i + 2);
        }
        strip_from(s, spec_csi_end(s, i + 2)->0)
    } else {
        seq![s[i]] + strip_from(s, i + 1)
    }
}

/// `s` without any `\r`.
pub open spec fn remove_cr(s: Seq<char>) -> Seq<char>
    decreases s.len(),
{
    if s.len() == 0 {
        seq![]
    } else if s.last() == '\r' {
        remove_cr(s.drop_last())
    } else {
        remove_cr(s.drop_last()).push(s.last())
    }
}

/// The readable text of a captured pane: terminated OSC and CSI sequences
/// removed, then every `\r` dropped (so `\r\n` becomes `\n`).
pub open spec fn spec_strip_ansi(s: Seq<char>) -> Seq<char> {
    remove_cr(strip_from(s, 0))
}

fn osc_end(s: &[char], from: usize) -> (r: Option<usize>)
    ensures
        match r {
            Some(e) => spec_osc_end(s@, from as int) == Some(e as int),
            None => spec_osc_end(s@, from as int) is None,
        },
{
    let mut i = from;
    while i < s.len()
        invariant
            from <= i,
            spec_osc_end(s@, from as int) == spec_osc_end(s@, i as int),
        decreases s.len() - i,
    {
        if s[i] == '\x07' {
            return Some(i + 1);
        }
        if s[i] == '\x1b' && i + 1 < s.len() && s[i + 1] == '\\' {
            return Some(i + 2);
        }
        i = i + 1;
    }
    None
}

fn csi_end(s: &[char], from: usize) -> (r: Option<usize>)
    ensures
        match r {
            Some(e) => spec_csi_end(s@, from as int) == Some(e as int),
            None => spec_csi_end(s@, from as int) is None,
        },
{
    let mut i = from;
    while i < s.len() && (('0' <= s[i] && s[i] <= '9') || s[i] == ';' || s[i] == '?')
        invariant
            from <= i,
            csi_params_end(s@, from as int) == csi_params_end(s@, i as int),
        decreases s.len() - i,
    {
        i = i + 1;
    }
    if i < s.len() && (('a' <= s[i] && s[i] <= 'z') || ('A' <= s[i] && s[i] <= 'Z')) {
        Some(i + 1)
    } else {
        None
    }
}

/// Removes the terminal control sequences rhost's own pane produces and
/// normalises line endings, so captured session output is readable.
///
/// Only OSC (ended by BEL or `ESC \`) and CSI sequences are removed, and a
/// sequence without its terminator is kept: guessing where an unterminated
/// escape ends would eat real output.
pub fn strip_ansi(text: &str) -> (r: String)
    ensures
        r@ == spec_strip_ansi(text@),
{
    let s = chars_of(text);
    let mut kept: Vec<char> = Vec::new();
    let mut i: usize = 0;
    while i < s.len()
        invariant
            i <= s.len(),
            kept@ + strip_from(s@, i as int) == strip_from(s@, 0),
        decreases s.len() - i,
    {
        if s[i] == '\x1b' && i + 1 < s.len() && s[i + 1] == ']' {
            if let Some(end) = osc_end(&s, i + 2) {
                proof {
                    lemma_osc_end_bound(s@, i + 2);
                }
                i = end;
                continue;
            }
        }
        if s[i] == '\x1b' && i + 1 < s.len() && s[i + 1] == '[' {
            if let Some(end) = csi_end(&s, i + 2) {
                proof {
                    lemma_csi_params_end_bound(s@, i + 2);
                }
                i = end;
                continue;
            }
        }
        let ghost before = kept@;
        kept.push(s[i]);
        assert(kept@ + strip_from(s@, i + 1) =~= before + strip_from(s@, i as int));
        i = i + 1;
    }
    assert(kept@ =~= kept@ + strip_from(s@, i as int));
    let mut out = String::new();
    let mut k: usize = 0;
    while k < kept.len()
        invariant
            k <= kept.len(),
            out@ == remove_cr(kept@.take(k as int)),
        decreases kept.len() - k,
    {
        assert(kept@.take(k + 1).drop_last() =~= kept@.take(k as int));
        if kept[k] != '\r' {
            push_char(&mut out, kept[k]);
        }
        k = k + 1;
    }
    assert(kept@.take(kept.len() as int) =~= kept@);
    out
}

} // verus!
