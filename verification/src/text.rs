//! Character-level building blocks shared by every parser and script builder:
//! conversion between `str`/`String` and character vectors, prefix and search
//! predicates, Unicode whitespace trimming, line splitting and decimal numbers.
use vstd::prelude::*;
use vstd::string::StringSliceAdditionalSpecFns;
use vstd::utf8::{decode_utf8, valid_utf8};

verus! {

// ---------------------------------------------------------------------------
// Conversions
// ---------------------------------------------------------------------------

/// `String::push`: appends one character.
#[verifier::external_body]
pub(crate) fn push_char(s: &mut String, c: char)
    ensures
        final(s)@ == old(s)@.push(c),
{
    s.push(c);
}

/// The characters of `s`, in order.
pub fn chars_of(s: &str) -> (v: Vec<char>)
    ensures
        v@ == s@,
{
    let mut v: Vec<char> = Vec::new();
    for c in it: s.chars()
        invariant
            v@ == it.seq().take(it.index() as int),
            it.seq() == s@,
    {
        v.push(c);
    }
    v
}

/// A `String` holding exactly `v`.
pub fn string_of(v: &[char]) -> (s: String)
    ensures
        s@ == v@,
{
    let mut s = String::new();
    let mut i: usize = 0;
    while i < v.len()
        invariant
            i <= v.len(),
            s@ == v@.take(i as int),
        decreases v.len() - i,
    {
        push_char(&mut s, v[i]);
        i = i + 1;
    }
    s
}

/// Appends the characters of `v` to `s`.
pub fn append_chars(s: &mut String, v: &[char])
    ensures
        final(s)@ == old(s)@ + v@,
{
    let mut i: usize = 0;
    while i < v.len()
        invariant
            i <= v.len(),
            s@ == old(s)@ + v@.take(i as int),
        decreases v.len() - i,
    {
        push_char(s, v[i]);
        i = i + 1;
        assert(v@.take(i as int) == v@.take((i - 1) as int).push(v@[i - 1]));
    }
    assert(v@.take(v.len() as int) == v@);
}

/// Appends `v` to the character vector `out`.
pub fn append_vec(out: &mut Vec<char>, v: &[char])
    ensures
        final(out)@ == old(out)@ + v@,
{
    let mut i: usize = 0;
    while i < v.len()
        invariant
            i <= v.len(),
            out@ == old(out)@ + v@.take(i as int),
        decreases v.len() - i,
    {
        out.push(v[i]);
        i = i + 1;
        assert(v@.take(i as int) == v@.take((i - 1) as int).push(v@[i - 1]));
    }
    assert(v@.take(v.len() as int) == v@);
}

/// Appends `v` to the byte vector `out`.
pub fn append_bytes(out: &mut Vec<u8>, v: &[u8])
    ensures
        final(out)@ == old(out)@ + v@,
{
    let mut i: usize = 0;
    while i < v.len()
        invariant
            i <= v.len(),
            out@ == old(out)@ + v@.take(i as int),
        decreases v.len() - i,
    {
        out.push(v[i]);
        i = i + 1;
        assert(v@.take(i as int) == v@.take((i - 1) as int).push(v@[i - 1]));
    }
    assert(v@.take(v.len() as int) == v@);
}

/// `std::str::from_utf8`: as its documentation states, it fails exactly when the
/// bytes are not valid UTF-8, and otherwise views those same bytes as a `str`.
#[verifier::external_body]
pub(crate) fn utf8_str(bytes: &[u8]) -> (r: Option<&str>)
    ensures
        r is Some <==> valid_utf8(bytes@),
        r matches Some(s) ==> s.spec_bytes() == bytes@,
{
    std::str::from_utf8(bytes).ok()
}

/// What `String::from_utf8_lossy` makes of `bytes`: invalid sequences become
/// U+FFFD.
pub uninterp spec fn utf8_lossy(bytes: Seq<u8>) -> Seq<char>;

/// `String::from_utf8_lossy`. Its result depends on the bytes alone, and, as its
/// documentation states, valid UTF-8 comes back as the text it spells. How
/// each invalid sequence is replaced is left unsaid here.
#[verifier::external_body]
pub(crate) fn lossy_text(bytes: &[u8]) -> (r: String)
    ensures
        r@ == utf8_lossy(bytes@),
        valid_utf8(bytes@) ==> r@ == decode_utf8(bytes@),
{
    String::from_utf8_lossy(bytes).into_owned()
}

/// What `str::to_lowercase` makes of `s` (Unicode lowercase mapping).
pub uninterp spec fn lowercase(s: Seq<char>) -> Seq<char>;

/// An ASCII character in lowercase: `A`..=`Z` become `a`..=`z`, the rest stay.
pub open spec fn ascii_lower(c: char) -> char {
    if 'A' <= c && c <= 'Z' {
        ((c as u32) + 32) as char
    } else {
        c
    }
}

/// Whether every character of `s` is ASCII.
pub open spec fn all_ascii(s: Seq<char>) -> bool {
    forall|i: int| 0 <= i < s.len() ==> (#[trigger] s[i] as u32) < 128
}

/// Lowercase text as the library relies on it: ASCII text by the ASCII rule,
/// anything else by the Unicode mapping.
pub open spec fn lower_text(s: Seq<char>) -> Seq<char> {
    if all_ascii(s) {
        s.map_values(|c: char| ascii_lower(c))
    } else {
        lowercase(s)
    }
}

/// `str::to_lowercase`: the Unicode lowercase of `s`, a function of `s` alone.
/// On ASCII text the Unicode lowercase mapping that its documentation names
/// maps `A`..=`Z` to `a`..=`z` and keeps every other character; what it does
/// to other characters is left unsaid here.
#[verifier::external_body]
pub(crate) fn to_lowercase(s: &str) -> (r: String)
    ensures
        r@ == lowercase(s@),
        all_ascii(s@) ==> r@ == s@.map_values(|c: char| ascii_lower(c)),
        r@ == lower_text(s@),
{
    s.to_lowercase()
}

/// The characters that valid UTF-8 bytes spell; `None` for invalid UTF-8.
pub fn decode_text(bytes: &[u8]) -> (r: Option<Vec<char>>)
    ensures
        r is Some <==> valid_utf8(bytes@),
        r matches Some(v) ==> v@ == decode_utf8(bytes@),
{
    match utf8_str(bytes) {
        Some(s) => {
            proof {
                vstd::utf8::encode_utf8_decode_utf8(s@);
            }
            Some(chars_of(s))
        },
        None => None,
    }
}

/// Appends `v[from..to]` to the byte vector `out`.
pub fn append_range(out: &mut Vec<u8>, v: &[u8], from: usize, to: usize)
    requires
        from <= to <= v.len(),
    ensures
        final(out)@ == old(out)@ + v@.subrange(from as int, to as int),
{
    let mut i: usize = from;
    while i < to
        invariant
            from <= i <= to <= v.len(),
            out@ == old(out)@ + v@.subrange(from as int, i as int),
        decreases to - i,
    {
        out.push(v[i]);
        i = i + 1;
        assert(v@.subrange(from as int, i as int) == v@.subrange(from as int, i - 1).push(v@[i - 1]));
    }
}

/// The characters of each string.
pub open spec fn string_views(v: Seq<String>) -> Seq<Seq<char>> {
    v.map_values(|s: String| s@)
}

/// Appends a copy of `s` to a list of strings.
pub fn push_str(v: &mut Vec<String>, s: &str)
    ensures
        string_views(final(v)@) == string_views(old(v)@).push(s@),
{
    v.push(String::from_str(s));
    assert(string_views(v@) =~= string_views(old(v)@).push(s@));
}

/// A copy of `v[from..to]`.
pub fn slice_chars(v: &[char], from: usize, to: usize) -> (r: Vec<char>)
    requires
        from <= to <= v.len(),
    ensures
        r@ == v@.subrange(from as int, to as int),
{
    let mut r: Vec<char> = Vec::new();
    let mut i = from;
    while i < to
        invariant
            from <= i <= to <= v.len(),
            r@ == v@.subrange(from as int, i as int),
        decreases to - i,
    {
        r.push(v[i]);
        i = i + 1;
    }
    r
}

/// A copy of `v[from..to]` for bytes.
pub fn slice_bytes(v: &[u8], from: usize, to: usize) -> (r: Vec<u8>)
    requires
        from <= to <= v.len(),
    ensures
        r@ == v@.subrange(from as int, to as int),
{
    let mut r: Vec<u8> = Vec::new();
    let mut i = from;
    while i < to
        invariant
            from <= i <= to <= v.len(),
            r@ == v@.subrange(from as int, i as int),
        decreases to - i,
    {
        r.push(v[i]);
        i = i + 1;
    }
    r
}

/// Whether two character slices hold the same characters.
pub fn chars_eq(a: &[char], b: &[char]) -> (r: bool)
    ensures
        r == (a@ == b@),
{
    if a.len() != b.len() {
        return false;
    }
    let mut i: usize = 0;
    while i < a.len()
        invariant
            i <= a.len() == b.len(),
            a@.take(i as int) == b@.take(i as int),
        decreases a.len() - i,
    {
        if a[i] != b[i] {
            assert(a@[i as int] != b@[i as int]);
            return false;
        }
        i = i + 1;
        assert(a@.take(i as int) == a@.take((i - 1) as int).push(a@[i - 1]));
        assert(b@.take(i as int) == b@.take((i - 1) as int).push(b@[i - 1]));
    }
    assert(a@.take(a.len() as int) == a@);
    assert(b@.take(b.len() as int) == b@);
    true
}

// ---------------------------------------------------------------------------
// Prefixes and searches
// ---------------------------------------------------------------------------

/// `needle` occurs in `hay` at offset `at`.
pub open spec fn occurs_at<A>(hay: Seq<A>, needle: Seq<A>, at: int) -> bool {
    0 <= at && at + needle.len() <= hay.len() && hay.subrange(at, at + needle.len()) == needle
}

/// `prefix` starts `s`.
pub open spec fn has_prefix<A>(s: Seq<A>, prefix: Seq<A>) -> bool {
    occurs_at(s, prefix, 0)
}

/// `suffix` ends `s`.
pub open spec fn has_suffix<A>(s: Seq<A>, suffix: Seq<A>) -> bool {
    suffix.len() <= s.len() && s.subrange(s.len() - suffix.len(), s.len() as int) == suffix
}

/// The first offset at or after `from` where `needle` occurs.
pub open spec fn find_from<A>(hay: Seq<A>, needle: Seq<A>, from: int) -> Option<int>
    decreases hay.len() + 1 - from,
{
    if from < 0 || from + needle.len() > hay.len() {
        None
    } else if occurs_at(hay, needle, from) {
        Some(from)
    } else {
        find_from(hay, needle, from + 1)
    }
}

/// The first offset where `needle` occurs.
pub open spec fn find_first<A>(hay: Seq<A>, needle: Seq<A>) -> Option<int> {
    find_from(hay, needle, 0)
}

/// The last offset strictly before `before` where `needle` occurs.
pub open spec fn find_before<A>(hay: Seq<A>, needle: Seq<A>, before: int) -> Option<int>
    decreases before,
{
    if before <= 0 {
        None
    } else if occurs_at(hay, needle, before - 1) {
        Some(before - 1)
    } else {
        find_before(hay, needle, before - 1)
    }
}

/// The last offset where `needle` occurs.
pub open spec fn find_last<A>(hay: Seq<A>, needle: Seq<A>) -> Option<int> {
    find_before(hay, needle, hay.len() + 1int)
}

/// `needle` occurs somewhere in `hay`.
pub open spec fn contains_seq<A>(hay: Seq<A>, needle: Seq<A>) -> bool {
    find_first(hay, needle) is Some
}

pub proof fn lemma_find_from<A>(hay: Seq<A>, needle: Seq<A>, from: int)
    requires
        0 <= from,
    ensures
        match find_from(hay, needle, from) {
            Some(i) => from <= i && occurs_at(hay, needle, i) && forall|j: int|
                from <= j < i ==> !occurs_at(hay, needle, j),
            None => forall|j: int| from <= j ==> !occurs_at(hay, needle, j),
        },
    decreases hay.len() + 1 - from,
{
    if from + needle.len() > hay.len() {
    } else if occurs_at(hay, needle, from) {
    } else {
        lemma_find_from(hay, needle, from + 1);
    }
}

pub proof fn lemma_find_first<A>(hay: Seq<A>, needle: Seq<A>)
    ensures
        match find_first(hay, needle) {
            Some(i) => 0 <= i && occurs_at(hay, needle, i) && forall|j: int|
                0 <= j < i ==> !occurs_at(hay, needle, j),
            None => forall|j: int| !occurs_at(hay, needle, j),
        },
{
    lemma_find_from(hay, needle, 0);
}

pub proof fn lemma_find_before<A>(hay: Seq<A>, needle: Seq<A>, before: int)
    ensures
        match find_before(hay, needle, before) {
            Some(i) => 0 <= i < before && occurs_at(hay, needle, i) && forall|j: int|
                i < j < before ==> !occurs_at(hay, needle, j),
            None => forall|j: int| j < before ==> !occurs_at(hay, needle, j),
        },
    decreases before,
{
    if before <= 0 {
    } else if occurs_at(hay, needle, before - 1) {
    } else {
        lemma_find_before(hay, needle, before - 1);
    }
}

/// Whether `needle` occurs in `hay` at offset `at` (characters).
pub fn chars_at(hay: &[char], needle: &[char], at: usize) -> (r: bool)
    ensures
        r == occurs_at(hay@, needle@, at as int),
{
    if at > hay.len() || needle.len() > hay.len() - at {
        return false;
    }
    let mut i: usize = 0;
    while i < needle.len()
        invariant
            at + needle.len() <= hay.len(),
            i <= needle.len(),
            forall|k: int| 0 <= k < i ==> hay@[at + k] == needle@[k],
        decreases needle.len() - i,
    {
        if hay[at + i] != needle[i] {
            assert(hay@.subrange(at as int, at + needle.len())[i as int] != needle@[i as int]);
            return false;
        }
        i = i + 1;
    }
    assert(hay@.subrange(at as int, at + needle.len()) =~= needle@);
    true
}

/// Whether `needle` occurs in `hay` at offset `at` (bytes).
pub fn bytes_at(hay: &[u8], needle: &[u8], at: usize) -> (r: bool)
    ensures
        r == occurs_at(hay@, needle@, at as int),
{
    if at > hay.len() || needle.len() > hay.len() - at {
        return false;
    }
    let mut i: usize = 0;
    while i < needle.len()
        invariant
            at + needle.len() <= hay.len(),
            i <= needle.len(),
            forall|k: int| 0 <= k < i ==> hay@[at + k] == needle@[k],
        decreases needle.len() - i,
    {
        if hay[at + i] != needle[i] {
            assert(hay@.subrange(at as int, at + needle.len())[i as int] != needle@[i as int]);
            return false;
        }
        i = i + 1;
    }
    assert(hay@.subrange(at as int, at + needle.len()) =~= needle@);
    true
}

/// The first offset at or after `from` where `needle` occurs (characters).
pub fn find_chars_from(hay: &[char], needle: &[char], from: usize) -> (r: Option<usize>)
    ensures
        match r {
            Some(i) => find_from(hay@, needle@, from as int) == Some(i as int),
            None => find_from(hay@, needle@, from as int) is None,
        },
{
    let mut i = from;
    while i <= hay.len() && needle.len() <= hay.len() - i
        invariant
            from <= i,
            find_from(hay@, needle@, from as int) == find_from(hay@, needle@, i as int),
        decreases hay.len() + 1 - i,
    {
        if chars_at(hay, needle, i) {
            return Some(i);
        }
        if i == hay.len() {
            assert(find_from(hay@, needle@, i + 1) is None);
            return None;
        }
        i = i + 1;
    }
    None
}

/// The first offset where `needle` occurs (characters).
pub fn find_chars(hay: &[char], needle: &[char]) -> (r: Option<usize>)
    ensures
        match r {
            Some(i) => find_first(hay@, needle@) == Some(i as int),
            None => find_first(hay@, needle@) is None,
        },
{
    find_chars_from(hay, needle, 0)
}

/// The first offset at or after `from` where `needle` occurs (bytes).
pub fn find_bytes_from(hay: &[u8], needle: &[u8], from: usize) -> (r: Option<usize>)
    ensures
        match r {
            Some(i) => find_from(hay@, needle@, from as int) == Some(i as int),
            None => find_from(hay@, needle@, from as int) is None,
        },
{
    let mut i = from;
    while i <= hay.len() && needle.len() <= hay.len() - i
        invariant
            from <= i,
            find_from(hay@, needle@, from as int) == find_from(hay@, needle@, i as int),
        decreases hay.len() + 1 - i,
    {
        if bytes_at(hay, needle, i) {
            return Some(i);
        }
        if i == hay.len() {
            assert(find_from(hay@, needle@, i + 1) is None);
            return None;
        }
        i = i + 1;
    }
    None
}

/// The last offset where `needle` occurs (bytes).
pub fn find_last_bytes(hay: &[u8], needle: &[u8]) -> (r: Option<usize>)
    ensures
        match r {
            Some(i) => find_last(hay@, needle@) == Some(i as int),
            None => find_last(hay@, needle@) is None,
        },
{
    if needle.len() == 0 {
        assert(occurs_at(hay@, needle@, hay.len() as int)) by {
            assert(hay@.subrange(hay.len() as int, hay.len() as int) =~= needle@);
        }
        return Some(hay.len());
    }
    let mut before = hay.len();
    assert(!occurs_at(hay@, needle@, hay.len() as int));
    assert(find_last(hay@, needle@) == find_before(hay@, needle@, before as int));
    while before > 0
        invariant
            before <= hay.len() + 1,
            find_last(hay@, needle@) == find_before(hay@, needle@, before as int),
        decreases before,
    {
        if bytes_at(hay, needle, before - 1) {
            return Some(before - 1);
        }
        before = before - 1;
    }
    None
}

/// The last offset where `needle` occurs (characters).
pub fn find_last_chars(hay: &[char], needle: &[char]) -> (r: Option<usize>)
    ensures
        match r {
            Some(i) => find_last(hay@, needle@) == Some(i as int),
            None => find_last(hay@, needle@) is None,
        },
{
    if needle.len() == 0 {
        assert(occurs_at(hay@, needle@, hay.len() as int)) by {
            assert(hay@.subrange(hay.len() as int, hay.len() as int) =~= needle@);
        }
        return Some(hay.len());
    }
    let mut before = hay.len();
    assert(!occurs_at(hay@, needle@, hay.len() as int));
    assert(find_last(hay@, needle@) == find_before(hay@, needle@, before as int));
    while before > 0
        invariant
            before <= hay.len() + 1,
            find_last(hay@, needle@) == find_before(hay@, needle@, before as int),
        decreases before,
    {
        if chars_at(hay, needle, before - 1) {
            return Some(before - 1);
        }
        before = before - 1;
    }
    None
}

/// Whether `p` starts `s` (characters).
pub fn starts_with(s: &[char], p: &[char]) -> (r: bool)
    ensures
        r == has_prefix(s@, p@),
{
    chars_at(s, p, 0)
}

/// Whether `p` ends `s` (characters).
pub fn ends_with(s: &[char], p: &[char]) -> (r: bool)
    ensures
        r == has_suffix(s@, p@),
{
    if p.len() > s.len() {
        return false;
    }
    let r = chars_at(s, p, s.len() - p.len());
    r
}

/// Whether `c` occurs in `s`.
pub fn has_char(s: &[char], c: char) -> (r: bool)
    ensures
        r == s@.contains(c),
{
    let mut i: usize = 0;
    while i < s.len()
        invariant
            i <= s.len(),
            forall|k: int| 0 <= k < i ==> s@[k] != c,
        decreases s.len() - i,
    {
        if s[i] == c {
            return true;
        }
        i = i + 1;
    }
    false
}

// ---------------------------------------------------------------------------
// Whitespace
// ---------------------------------------------------------------------------

/// Unicode `White_Space`, which is what `char::is_whitespace` tests.
pub open spec fn is_ws(c: char) -> bool {
    let u = c as u32;
    u == 0x20 || (0x09 <= u && u <= 0x0d) || u == 0x85 || u == 0xa0 || u == 0x1680 || (0x2000
        <= u && u <= 0x200a) || u == 0x2028 || u == 0x2029 || u == 0x202f || u == 0x205f || u
        == 0x3000
}

pub fn is_whitespace(c: char) -> (r: bool)
    ensures
        r == is_ws(c),
{
    let u = c as u32;
    u == 0x20 || (0x09 <= u && u <= 0x0d) || u == 0x85 || u == 0xa0 || u == 0x1680 || (0x2000
        <= u && u <= 0x200a) || u == 0x2028 || u == 0x2029 || u == 0x202f || u == 0x205f || u
        == 0x3000
}

/// `s` without its leading whitespace.
pub open spec fn trim_start(s: Seq<char>) -> Seq<char>
    decreases s.len(),
{
    if s.len() > 0 && is_ws(s[0]) {
        trim_start(s.drop_first())
    } else {
        s
    }
}

/// `s` without its trailing whitespace.
pub open spec fn trim_end(s: Seq<char>) -> Seq<char>
    decreases s.len(),
{
    if s.len() > 0 && is_ws(s.last()) {
        trim_end(s.drop_last())
    } else {
        s
    }
}

/// `str::trim`: both ends.
pub open spec fn trim(s: Seq<char>) -> Seq<char> {
    trim_end(trim_start(s))
}

/// The offset of the first non-whitespace character (or `s.len()`).
pub fn trim_start_index(s: &[char]) -> (i: usize)
    ensures
        i <= s.len(),
        trim_start(s@) == s@.subrange(i as int, s.len() as int),
{
    let mut i: usize = 0;
    assert(s@.subrange(0, s.len() as int) =~= s@);
    while i < s.len() && is_whitespace(s[i])
        invariant
            i <= s.len(),
            trim_start(s@) == trim_start(s@.subrange(i as int, s.len() as int)),
        decreases s.len() - i,
    {
        assert(s@.subrange(i as int, s.len() as int).drop_first() =~= s@.subrange(
            i + 1,
            s.len() as int,
        ));
        i = i + 1;
    }
    i
}

/// The end of `s[from..]` once trailing whitespace is removed.
pub fn trim_end_index(s: &[char], from: usize) -> (j: usize)
    requires
        from <= s.len(),
    ensures
        from <= j <= s.len(),
        trim_end(s@.subrange(from as int, s.len() as int)) == s@.subrange(from as int, j as int),
{
    let mut j: usize = s.len();
    while j > from && is_whitespace(s[j - 1])
        invariant
            from <= j <= s.len(),
            trim_end(s@.subrange(from as int, s.len() as int)) == trim_end(
                s@.subrange(from as int, j as int),
            ),
        decreases j,
    {
        assert(s@.subrange(from as int, j as int).drop_last() =~= s@.subrange(
            from as int,
            j - 1,
        ));
        j = j - 1;
    }
    j
}

/// `str::trim` on a character slice.
pub fn trim_chars(s: &[char]) -> (r: Vec<char>)
    ensures
        r@ == trim(s@),
{
    let i = trim_start_index(s);
    let j = trim_end_index(s, i);
    slice_chars(s, i, j)
}

// ---------------------------------------------------------------------------
// Lines
// ---------------------------------------------------------------------------

/// A line without the `\r` of a `\r\n` terminator.
pub open spec fn strip_cr(line: Seq<char>) -> Seq<char> {
    if line.len() > 0 && line.last() == '\r' {
        line.drop_last()
    } else {
        line
    }
}

/// `str::lines`: pieces between `\n`, a `\r` before a `\n` dropped, and no
/// empty piece after a final `\n`.
pub open spec fn lines(s: Seq<char>) -> Seq<Seq<char>>
    decreases s.len(),
{
    match find_first(s, seq!['\n']) {
        Some(i) => {
            if 0 <= i < s.len() {
                seq![strip_cr(s.subrange(0, i))] + lines(s.subrange(i + 1, s.len() as int))
            } else {
                seq![]
            }
        },
        None => if s.len() == 0 {
            seq![]
        } else {
            seq![s]
        },
    }
}

pub proof fn lemma_newline_found(s: Seq<char>, i: int)
    requires
        0 <= i < s.len(),
        s[i] == '\n',
        forall|k: int| 0 <= k < i ==> s[k] != '\n',
    ensures
        find_first(s, seq!['\n']) == Some(i),
{
    lemma_find_first(s, seq!['\n']);
    assert(occurs_at(s, seq!['\n'], i)) by {
        assert(s.subrange(i, i + 1) =~= seq!['\n']);
    }
    match find_first(s, seq!['\n']) {
        Some(j) => {
            if j < i {
                assert(s.subrange(j, j + 1)[0] == s[j]);
            }
        },
        None => {},
    }
}

pub proof fn lemma_no_newline(s: Seq<char>)
    requires
        forall|k: int| 0 <= k < s.len() ==> s[k] != '\n',
    ensures
        find_first(s, seq!['\n']) is None,
{
    lemma_find_first(s, seq!['\n']);
    match find_first(s, seq!['\n']) {
        Some(j) => {
            assert(s.subrange(j, j + 1)[0] == s[j]);
        },
        None => {},
    }
}

/// The lines of `s`, as character vectors.
pub fn split_lines(s: &[char]) -> (r: Vec<Vec<char>>)
    ensures
        r@.len() == lines(s@).len(),
        forall|k: int| 0 <= k < r@.len() ==> #[trigger] r@[k]@ == lines(s@)[k],
{
    let mut out: Vec<Vec<char>> = Vec::new();
    let mut start: usize = 0;
    let mut i: usize = 0;
    let ghost mut done: Seq<Seq<char>> = seq![];
    assert(s@.subrange(0, s.len() as int) =~= s@);
    assert(done + lines(s@) =~= lines(s@));
    while i < s.len()
        invariant
            start <= i <= s.len(),
            forall|k: int| start <= k < i ==> s@[k] != '\n',
            out@.len() == done.len(),
            forall|k: int| 0 <= k < out@.len() ==> #[trigger] out@[k]@ == done[k],
            done + lines(s@.subrange(start as int, s.len() as int)) == lines(s@),
        decreases s.len() - i,
    {
        if s[i] == '\n' {
            let ghost rest = s@.subrange(start as int, s.len() as int);
            proof {
                lemma_newline_found(rest, i - start);
                assert(rest.subrange(0, i - start) =~= s@.subrange(start as int, i as int));
                assert(rest.subrange(i - start + 1, rest.len() as int) =~= s@.subrange(
                    i + 1,
                    s.len() as int,
                ));
            }
            let end = if i > start && s[i - 1] == '\r' {
                i - 1
            } else {
                i
            };
            let line = slice_chars(s, start, end);
            proof {
                let piece = s@.subrange(start as int, i as int);
                assert(line@ == strip_cr(piece)) by {
                    if i > start && s@[i - 1] == '\r' {
                        assert(piece.drop_last() =~= s@.subrange(start as int, i - 1));
                    }
                }
                assert(done.push(line@) + lines(s@.subrange(i + 1, s.len() as int)) =~= done
                    + lines(rest));
                done = done.push(line@);
            }
            out.push(line);
            start = i + 1;
        }
        i = i + 1;
    }
    let ghost rest = s@.subrange(start as int, s.len() as int);
    proof {
        lemma_no_newline(rest);
    }
    if start < s.len() {
        let line = slice_chars(s, start, s.len());
        proof {
            assert(done.push(line@) =~= done + lines(rest));
            done = done.push(line@);
        }
        out.push(line);
    } else {
        assert(done =~= done + lines(rest));
    }
    out
}

// ---------------------------------------------------------------------------
// Decimal numbers
// ---------------------------------------------------------------------------

pub open spec fn is_digit(c: char) -> bool {
    '0' <= c && c <= '9'
}

pub open spec fn all_digits(s: Seq<char>) -> bool {
    forall|k: int| 0 <= k < s.len() ==> is_digit(#[trigger] s[k])
}

pub open spec fn digit_value(c: char) -> nat {
    (c as u32 - '0' as u32) as nat
}

/// The number a run of decimal digits spells.
pub open spec fn digits_value(s: Seq<char>) -> nat
    decreases s.len(),
{
    if s.len() == 0 {
        0
    } else {
        digits_value(s.drop_last()) * 10 + digit_value(s.last())
    }
}

/// `<unsigned>::from_str`: an optional `+`, at least one digit, nothing else,
/// and a value that fits under `max`.
pub open spec fn parse_unsigned(s: Seq<char>, max: nat) -> Option<nat> {
    let body = if s.len() > 0 && s[0] == '+' {
        s.drop_first()
    } else {
        s
    };
    if body.len() > 0 && all_digits(body) && digits_value(body) <= max {
        Some(digits_value(body))
    } else {
        None
    }
}

pub proof fn lemma_digits_value_monotone(s: Seq<char>, n: int)
    requires
        0 <= n <= s.len(),
        all_digits(s),
    ensures
        digits_value(s.take(n)) <= digits_value(s),
    decreases s.len(),
{
    if n == s.len() {
        assert(s.take(n) =~= s);
    } else {
        assert(s.drop_last().take(n) =~= s.take(n));
        lemma_digits_value_monotone(s.drop_last(), n);
    }
}

/// Parses an unsigned decimal bounded by `max`, as `from_str` does.
pub fn parse_bounded(s: &[char], max: u64) -> (r: Option<u64>)
    ensures
        match r {
            Some(v) => parse_unsigned(s@, max as nat) == Some(v as nat),
            None => parse_unsigned(s@, max as nat) is None,
        },
{
    let start: usize = if s.len() > 0 && s[0] == '+' {
        1
    } else {
        0
    };
    let ghost body = if s@.len() > 0 && s@[0] == '+' {
        s@.drop_first()
    } else {
        s@
    };
    assert(body =~= s@.subrange(start as int, s.len() as int));
    if start >= s.len() {
        return None;
    }
    let mut value: u64 = 0;
    let mut i = start;
    while i < s.len()
        invariant
            start <= i <= s.len(),
            body == s@.subrange(start as int, s.len() as int),
            body.len() > 0,
            parse_unsigned(s@, max as nat) == (if all_digits(body) && digits_value(body) <= max {
                Some(digits_value(body))
            } else {
                None
            }),
            all_digits(body.take(i - start)),
            value as nat == digits_value(body.take(i - start)),
            value <= max,
        decreases s.len() - i,
    {
        let c = s[i];
        assert(body.take(i + 1 - start).drop_last() =~= body.take(i - start));
        assert(body.take(i + 1 - start).last() == c);
        assert(body[i - start] == c);
        if !('0' <= c && c <= '9') {
            assert(!is_digit(body[i - start]));
            assert(!all_digits(body));
            assert(parse_unsigned(s@, max as nat) is None);
            return None;
        }
        let d = (c as u32 - '0' as u32) as u64;
        if d > max || value > (max - d) / 10 {
            proof {
                assert(all_digits(body.take(i + 1 - start)));
                assert(digits_value(body.take(i + 1 - start)) > max) by (nonlinear_arith)
                    requires
                        digits_value(body.take(i + 1 - start)) == value * 10 + d,
                        d > max || value > (max - d) / 10,
                        d <= 9,
                ;
                if all_digits(body) {
                    lemma_digits_value_monotone(body, i + 1 - start);
                }
                assert(parse_unsigned(s@, max as nat) is None);
            }
            return None;
        }
        assert(value * 10 + d <= max) by (nonlinear_arith)
            requires
                value <= (max - d) / 10,
                d <= max,
        ;
        value = value * 10 + d;
        i = i + 1;
    }
    assert(body.take(s.len() - start) =~= body);
    Some(value)
}

/// `i32::from_str`: an optional sign, at least one digit, nothing else, and a
/// value inside the `i32` range.
pub open spec fn parse_signed(s: Seq<char>) -> Option<int> {
    if s.len() > 0 && s[0] == '-' {
        let body = s.drop_first();
        if body.len() > 0 && all_digits(body) && digits_value(body) <= 2147483648 {
            Some(-digits_value(body))
        } else {
            None
        }
    } else {
        match parse_unsigned(s, 2147483647) {
            Some(v) => Some(v as int),
            None => None,
        }
    }
}

/// Parses a signed decimal as `i32::from_str` does.
pub fn parse_i32(s: &[char]) -> (r: Option<i32>)
    ensures
        match r {
            Some(v) => parse_signed(s@) == Some(v as int),
            None => parse_signed(s@) is None,
        },
{
    if s.len() > 0 && s[0] == '-' {
        let body = slice_chars(s, 1, s.len());
        assert(body@ =~= s@.drop_first());
        if body.len() > 0 && body[0] == '+' {
            assert(!is_digit(body@[0]));
            return None;
        }
        match parse_bounded(&body, 2147483648) {
            Some(v) => {
                assert(body@ =~= body@);
                let n: i64 = v as i64;
                Some((0 - n) as i32)
            },
            None => None,
        }
    } else {
        match parse_bounded(s, 2147483647) {
            Some(v) => Some(v as i32),
            None => None,
        }
    }
}

/// The decimal spelling of `n`.
pub open spec fn decimal(n: nat) -> Seq<char>
    decreases n,
{
    if n < 10 {
        seq![(n + '0' as u32) as char]
    } else {
        decimal(n / 10).push(((n % 10) + '0' as u32) as char)
    }
}

/// The decimal spelling of `n`, as characters.
pub fn decimal_chars(n: u64) -> (r: Vec<char>)
    ensures
        r@ == decimal(n as nat),
    decreases n,
{
    if n < 10 {
        let c = ((n as u32) + ('0' as u32)) as u8 as char;
        let mut v = Vec::new();
        v.push(c);
        assert(v@ =~= seq![c]);
        v
    } else {
        let mut v = decimal_chars(n / 10);
        let c = (((n % 10) as u32) + ('0' as u32)) as u8 as char;
        v.push(c);
        v
    }
}

/// The decimal spelling of a signed number.
pub open spec fn signed_decimal(n: int) -> Seq<char> {
    if n < 0 {
        seq!['-'] + decimal((-n) as nat)
    } else {
        decimal(n as nat)
    }
}

/// The decimal spelling of a signed number, as a `String`.
pub fn signed_decimal_string(n: i32) -> (r: String)
    ensures
        r@ == signed_decimal(n as int),
{
    let wide: i64 = n as i64;
    if wide < 0 {
        let digits = decimal_string((0 - wide) as u64);
        let mut out = String::new();
        push_char(&mut out, '-');
        out.append(digits.as_str());
        assert(out@ =~= seq!['-'] + decimal((-(n as int)) as nat));
        out
    } else {
        decimal_string(wide as u64)
    }
}

/// The decimal spelling of `n`, as a `String`.
pub fn decimal_string(n: u64) -> (r: String)
    ensures
        r@ == decimal(n as nat),
{
    let v = decimal_chars(n);
    string_of(&v)
}

} // verus!
