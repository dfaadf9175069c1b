//! A patch document, checked before anything is sent remotely.
//!
//! A document carries its own hash so it can be reviewed and applied without a
//! human copying a 64-digit token onto a command line; an explicit `--if-hash`
//! overrides it. JSON itself is read by `serde_json`; which document is a
//! patch, and what each `edits` entry decodes to, is decided here. The line
//! ranges cannot be checked against the old file until the remote helper reads
//! it, so only their shape is checked here.
use vstd::prelude::*;
use serde_json::Value;
use crate::fileops::remote::Edit;
use crate::files::ops::error_is;
use crate::remote::Error;
use crate::session::remote::protocol::opt_view;
use crate::text::{chars_of, string_views};

verus! {

/// An edit as plain values: first line, last line, replacement text.
pub open spec fn edit_view(e: Edit) -> (u64, u64, Seq<char>) {
    (e.start, e.end, e.text@)
}

pub open spec fn opt_edit_view(o: Option<Edit>) -> Option<(u64, u64, Seq<char>)> {
    match o {
        Some(e) => Some(edit_view(e)),
        None => None,
    }
}

/// Decoded edits as plain values.
pub open spec fn plain_views(v: Seq<Edit>) -> Seq<(u64, u64, Seq<char>)> {
    v.map_values(|e: Edit| edit_view(e))
}

/// Each entry as plain values.
pub open spec fn edit_views(v: Seq<Option<Edit>>) -> Seq<Option<(u64, u64, Seq<char>)>> {
    v.map_values(|o: Option<Edit>| opt_edit_view(o))
}

/// The hash a patch is applied against: a non-empty `--if-hash`, else the
/// document's own non-empty `sha256`.
pub open spec fn carried_hash(override_hash: Option<Seq<char>>, document_hash: Option<Seq<char>>) -> Option<Seq<char>> {
    match override_hash {
        Some(h) if h.len() > 0 => Some(h),
        _ => match document_hash {
            Some(h) if h.len() > 0 => Some(h),
            _ => None,
        },
    }
}

pub open spec fn undecoded_message() -> Seq<char> {
    "each edit needs only start, end and text"@
}

pub open spec fn range_message() -> Seq<char> {
    "edits must be non-overlapping 1-based inclusive ranges inside the file"@
}

/// What is wrong with one entry, if anything: it did not decode, or its range
/// is not a 1-based inclusive one.
pub open spec fn entry_problem(e: Option<(u64, u64, Seq<char>)>) -> Option<Seq<char>> {
    match e {
        None => Some(undecoded_message()),
        Some(edit) => if edit.0 < 1 || edit.1 < edit.0 {
            Some(range_message())
        } else {
            None
        },
    }
}

/// The problem of the first entry at or after `i` that has one.
pub open spec fn first_problem(v: Seq<Option<(u64, u64, Seq<char>)>>, i: int) -> Option<Seq<char>>
    decreases v.len() - i,
{
    if i < 0 || i >= v.len() {
        None
    } else {
        match entry_problem(v[i]) {
            Some(m) => Some(m),
            None => first_problem(v, i + 1),
        }
    }
}

/// Two inclusive line ranges share no line.
pub open spec fn apart(a: (u64, u64, Seq<char>), b: (u64, u64, Seq<char>)) -> bool {
    a.1 < b.0 || b.1 < a.0
}

/// No two edits touch the same line.
pub open spec fn disjoint(v: Seq<(u64, u64, Seq<char>)>) -> bool {
    forall|i: int, j: int| 0 <= i < j < v.len() ==> apart(#[trigger] v[i], #[trigger] v[j])
}

/// The decoded edits, once none of them has a problem.
pub open spec fn decoded(v: Seq<Option<(u64, u64, Seq<char>)>>) -> Seq<(u64, u64, Seq<char>)> {
    v.map_values(|e: Option<(u64, u64, Seq<char>)>| e->0)
}

pub open spec fn opt_str(o: Option<&str>) -> Option<Seq<char>> {
    match o {
        Some(s) => Some(s@),
        None => None,
    }
}

pub open spec fn opt_string(o: Option<String>) -> Option<Seq<char>> {
    match o {
        Some(s) => Some(s@),
        None => None,
    }
}

/// The answer a patch gets from its `edits` (`None` when the document had no
/// `edits` array), the document's `sha256` and `--if-hash`. The first problem
/// found decides: no edits, then no hash, then the first entry that did not
/// decode or whose range is not 1-based and inclusive, then two edits on the
/// same line. Otherwise the edits, in document order, and the carried hash.
pub open spec fn patch_answer(
    edits: Option<Seq<Option<(u64, u64, Seq<char>)>>>,
    document_hash: Option<Seq<char>>,
    override_hash: Option<Seq<char>>,
    r: Result<(Vec<Edit>, Option<String>), Error>,
) -> bool {
    match edits {
        None => r matches Err(e) && error_is(e, "CONFIG_INVALID"@, "patch document has no edits"@),
        Some(v) => if v.len() == 0 {
            r matches Err(e) && error_is(e, "CONFIG_INVALID"@, "patch document has no edits"@)
        } else {
            match carried_hash(override_hash, document_hash) {
                None => r matches Err(e) && error_is(e, "CONFIG_INVALID"@,
                    "patch document has no sha256: read the file first and carry its hash"@),
                Some(h) => match first_problem(v, 0) {
                    Some(m) => r matches Err(e) && error_is(e, "INVALID_PATCH"@, m),
                    None => if !disjoint(decoded(v)) {
                        r matches Err(e) && error_is(e, "INVALID_PATCH"@, range_message())
                    } else {
                        r matches Ok((out, hash)) && plain_views(out@) == decoded(v)
                            && opt_string(hash) == Some(h)
                    },
                },
            }
        },
    }
}

fn first_problem_exec(v: &Vec<Option<Edit>>) -> (r: Option<&'static str>)
    ensures
        match r {
            Some(m) => first_problem(edit_views(v@), 0) == Some(m@),
            None => first_problem(edit_views(v@), 0) is None,
        },
{
    let mut i: usize = v.len();
    proof {
        reveal_strlit("each edit needs only start, end and text");
        reveal_strlit("edits must be non-overlapping 1-based inclusive ranges inside the file");
    }
    let mut found: Option<&'static str> = None;
    while i > 0
        invariant
            i <= v.len(),
            match found {
                Some(m) => first_problem(edit_views(v@), i as int) == Some(m@),
                None => first_problem(edit_views(v@), i as int) is None,
            },
        decreases i,
    {
        i = i - 1;
        assert(edit_views(v@)[i as int] == opt_edit_view(v@[i as int]));
        match &v[i] {
            None => {
                found = Some("each edit needs only start, end and text");
            },
            Some(edit) => {
                if edit.start < 1 || edit.end < edit.start {
                    found = Some("edits must be non-overlapping 1-based inclusive ranges inside the file");
                }
            },
        }
    }
    found
}

fn disjoint_exec(v: &Vec<Edit>) -> (r: bool)
    ensures
        r == disjoint(plain_views(v@)),
{
    let ghost w = plain_views(v@);
    let mut i: usize = 0;
    while i < v.len()
        invariant
            i <= v.len(),
            w == plain_views(v@),
            forall|a: int, b: int| 0 <= a < i && a < b < v.len() ==> apart(#[trigger] w[a], #[trigger] w[b]),
        decreases v.len() - i,
    {
        let mut j: usize = i + 1;
        while j < v.len()
            invariant
                i < v.len(),
                i + 1 <= j <= v.len(),
                w == plain_views(v@),
                forall|a: int, b: int| 0 <= a < i && a < b < v.len() ==> apart(#[trigger] w[a], #[trigger] w[b]),
                forall|b: int| i < b < j ==> apart(w[i as int], #[trigger] w[b]),
            decreases v.len() - j,
        {
            if !(v[i].end < v[j].start || v[j].end < v[i].start) {
                assert(!apart(w[i as int], w[j as int]));
                return false;
            }
            j = j + 1;
        }
        i = i + 1;
    }
    true
}

/// Checks a patch document's shape and picks the hash it is applied against,
/// as [`patch_answer`] says. `edits` is `None` when the document had no
/// `edits` array; an entry is `None` when it did not decode as an edit.
#[verifier::rlimit(40)]
pub fn check_patch(edits: Option<Vec<Option<Edit>>>, document_hash: Option<String>, override_hash: Option<&str>) -> (r: Result<(Vec<Edit>, Option<String>), Error>)
    ensures
        patch_answer(
            match edits {
                Some(v) => Some(edit_views(v@)),
                None => None,
            },
            opt_string(document_hash),
            opt_str(override_hash),
            r,
        ),
{
    let entries = match edits {
        None => return Err(Error::new("CONFIG_INVALID", "patch document has no edits")),
        Some(v) => v,
    };
    if entries.len() == 0 {
        return Err(Error::new("CONFIG_INVALID", "patch document has no edits"));
    }
    let carried: String = match override_hash {
        Some(h) if !h.is_empty() => String::from_str(h),
        _ => match document_hash {
            Some(h) if !h.as_str().is_empty() => h,
            _ => {
                return Err(
                    Error::new("CONFIG_INVALID", "patch document has no sha256: read the file first and carry its hash"),
                );
            },
        },
    };
    if let Some(message) = first_problem_exec(&entries) {
        return Err(Error::new("INVALID_PATCH", message));
    }
    let ghost all = entries@;
    let ghost allv = edit_views(all);
    let mut out: Vec<Edit> = Vec::new();
    let mut rest = entries;
    proof {
        assert(plain_views(out@) =~= decoded(allv).skip(rest.len() as int));
    }
    while rest.len() > 0
        invariant
            allv == edit_views(all),
            first_problem(allv, 0) is None,
            rest@ == all.take(rest.len() as int),
            rest.len() <= all.len(),
            plain_views(out@) == decoded(allv).skip(rest.len() as int),
        decreases rest.len(),
    {
        let ghost before = out@;
        let entry = match rest.pop() {
            Some(e) => e,
            None => vstd::pervasive::unreached(),
        };
        proof {
            assert(entry == all[rest.len() as int]);
            assert(allv[rest.len() as int] == opt_edit_view(entry));
            lemma_no_problem_decodes(allv, rest.len() as int);
            assert(rest@ =~= all.take(rest.len() as int));
        }
        match entry {
            Some(edit) => {
                out.insert(0, edit);
                proof {
                    assert(out@ =~= seq![edit] + before);
                    lemma_prepend_decoded(before, edit, allv, rest.len() as int);
                    assert(plain_views(out@) =~= decoded(allv).skip(rest.len() as int));
                }
            },
            None => vstd::pervasive::unreached(),
        }
    }
    assert(plain_views(out@) =~= decoded(allv));
    if !disjoint_exec(&out) {
        return Err(
            Error::new("INVALID_PATCH", "edits must be non-overlapping 1-based inclusive ranges inside the file"),
        );
    }
    Ok((out, Some(carried)))
}

// ---------------------------------------------------------------------------
// The document's text
// ---------------------------------------------------------------------------

/// One `edits` entry as JSON gave it: its keys when it is an object, with the
/// `start` and `end` it holds as unsigned integers and the `text` it holds as a
/// string; and, when it is an array of exactly an unsigned integer, an
/// unsigned integer and a string, those three.
#[derive(Debug)]
pub struct RawEdit {
    pub keys: Option<Vec<String>>,
    pub start: Option<u64>,
    pub end: Option<u64>,
    pub text: Option<String>,
    pub triple: Option<(u64, u64, String)>,
}

/// A raw entry as plain values.
pub open spec fn raw_view(r: RawEdit) -> (Option<Seq<Seq<char>>>, Option<u64>, Option<u64>, Option<Seq<char>>, Option<(u64, u64, Seq<char>)>) {
    (
        match r.keys {
            Some(k) => Some(string_views(k@)),
            None => None,
        },
        r.start,
        r.end,
        opt_view(r.text),
        match r.triple {
            Some(t) => Some((t.0, t.1, t.2@)),
            None => None,
        },
    )
}

/// What `serde_json` makes of a patch document: `Err` with its error message
/// when the bytes are not JSON; otherwise the entries of its `edits` member
/// when that is an array, and its `sha256` member when that is a string.
pub uninterp spec fn patch_json(document: Seq<u8>) -> Result<(Option<Seq<(Option<Seq<Seq<char>>>, Option<u64>, Option<u64>, Option<Seq<char>>, Option<(u64, u64, Seq<char>)>)>>, Option<Seq<char>>), Seq<char>>;

/// `serde_json::from_slice` into a `Value`; then `edits` read with `get` and
/// `as_array`, each entry with `as_object`, `get`, `as_u64`, `as_str`, and
/// `serde_json::from_value` into `(u64, u64, String)`; and `sha256` with `get`
/// and `as_str`. What it returns is a function of the bytes alone.
#[verifier::external_body]
fn decode_patch_document(document: &[u8]) -> (r: Result<(Option<Vec<RawEdit>>, Option<String>), String>)
    ensures
        match patch_json(document@) {
            Err(m) => r matches Err(e) && e@ == m,
            Ok((edits, hash)) => r matches Ok((es, h)) && opt_view(h) == hash && match edits {
                None => es is None,
                Some(v) => es matches Some(list) && list@.map_values(|x: RawEdit| raw_view(x)) == v,
            },
        },
{
    let parsed: Value = serde_json::from_slice(document).map_err(|error| error.to_string())?;
    let entry = |v: &Value| RawEdit {
        keys: v.as_object().map(|o| o.keys().cloned().collect()),
        start: v.get("start").and_then(Value::as_u64),
        end: v.get("end").and_then(Value::as_u64),
        text: v.get("text").and_then(Value::as_str).map(String::from),
        triple: serde_json::from_value(v.clone()).ok(),
    };
    let edits = parsed.get("edits").and_then(Value::as_array).map(|a| a.iter().map(entry).collect());
    Ok((edits, parsed.get("sha256").and_then(Value::as_str).map(String::from)))
}

/// A key an edit object may have.
pub open spec fn edit_key(k: Seq<char>) -> bool {
    k == "start"@ || k == "end"@ || k == "text"@
}

/// The edit an entry decodes to: an array of start, end and text, or an object
/// with exactly the keys `start`, `end` and `text`, none of them missing and
/// each of its type; anything else is no edit.
pub open spec fn decode_entry(rv: (Option<Seq<Seq<char>>>, Option<u64>, Option<u64>, Option<Seq<char>>, Option<(u64, u64, Seq<char>)>)) -> Option<(u64, u64, Seq<char>)> {
    match rv.4 {
        Some(t) => Some(t),
        None => match rv.0 {
            Some(keys) => if (forall|i: int| 0 <= i < keys.len() ==> edit_key(#[trigger] keys[i])) && rv.1 is Some
                && rv.2 is Some && rv.3 is Some {
                Some((rv.1->0, rv.2->0, rv.3->0))
            } else {
                None
            },
            None => None,
        },
    }
}

/// Every entry, decoded.
pub open spec fn decode_entries(v: Seq<(Option<Seq<Seq<char>>>, Option<u64>, Option<u64>, Option<Seq<char>>, Option<(u64, u64, Seq<char>)>)>) -> Seq<Option<(u64, u64, Seq<char>)>> {
    v.map_values(|rv: (Option<Seq<Seq<char>>>, Option<u64>, Option<u64>, Option<Seq<char>>, Option<(u64, u64, Seq<char>)>)| decode_entry(rv))
}

fn is_edit_key(k: &str) -> (r: bool)
    ensures
        r == edit_key(k@),
{
    proof {
        reveal_strlit("start");
        reveal_strlit("end");
        reveal_strlit("text");
    }
    let c = chars_of(k);
    let s = chars_of("start");
    let e = chars_of("end");
    let t = chars_of("text");
    (c.len() == s.len() && crate::text::chars_eq(c.as_slice(), s.as_slice()))
        || (c.len() == e.len() && crate::text::chars_eq(c.as_slice(), e.as_slice()))
        || (c.len() == t.len() && crate::text::chars_eq(c.as_slice(), t.as_slice()))
}

fn edit_of(raw: &RawEdit) -> (r: Option<Edit>)
    ensures
        opt_edit_view(r) == decode_entry(raw_view(*raw)),
{
    if let Some(t) = &raw.triple {
        return Some(Edit { start: t.0, end: t.1, text: t.2.clone() });
    }
    let keys = match &raw.keys {
        Some(k) => k,
        None => return None,
    };
    let ghost kv = string_views(keys@);
    let mut i: usize = 0;
    while i < keys.len()
        invariant
            i <= keys.len(),
            kv == string_views(keys@),
            raw.keys matches Some(k) && k@ == keys@,
            raw.triple is None,
            forall|m: int| 0 <= m < i ==> edit_key(#[trigger] kv[m]),
        decreases keys.len() - i,
    {
        if !is_edit_key(keys[i].as_str()) {
            proof {
                assert(!edit_key(kv[i as int]));
                assert(raw_view(*raw).0 == Some(kv));
                assert(raw_view(*raw).4 is None);
                let rv = raw_view(*raw);
                assert(rv.0->0 == kv);
                assert(!(forall|m: int| 0 <= m < rv.0->0.len() ==> edit_key(#[trigger] rv.0->0[m])));
                assert(decode_entry(rv) is None);
            }
            return None;
        }
        i = i + 1;
    }
    match (raw.start, raw.end, &raw.text) {
        (Some(start), Some(end), Some(text)) => Some(Edit { start, end, text: text.clone() }),
        _ => None,
    }
}

/// The answer a patch document gets: bytes that are not JSON are
/// `CONFIG_INVALID`; otherwise its decoded `edits` and `sha256`, with
/// `--if-hash`, get the answer [`check_patch`] gives.
pub fn parse_patch_document(document: &[u8], override_hash: Option<&str>) -> (r: Result<(Vec<Edit>, Option<String>), Error>)
    ensures
        match patch_json(document@) {
            Err(m) => r matches Err(e) && error_is(e, "CONFIG_INVALID"@, "patch document is not valid JSON: "@ + m),
            Ok((edits, hash)) => patch_answer(
                match edits {
                    Some(v) => Some(decode_entries(v)),
                    None => None,
                },
                hash,
                opt_str(override_hash),
                r,
            ),
        },
{
    let (raw, hash) = match decode_patch_document(document) {
        Err(detail) => {
            let mut m = String::from_str("patch document is not valid JSON: ");
            m.append(detail.as_str());
            return Err(Error::new("CONFIG_INVALID", m.as_str()));
        },
        Ok(parts) => parts,
    };
    let edits = match raw {
        None => None,
        Some(list) => {
            let ghost rv = list@.map_values(|x: RawEdit| raw_view(x));
            let mut out: Vec<Option<Edit>> = Vec::new();
            let mut i: usize = 0;
            while i < list.len()
                invariant
                    i <= list.len(),
                    rv == list@.map_values(|x: RawEdit| raw_view(x)),
                    edit_views(out@) == decode_entries(rv).take(i as int),
                decreases list.len() - i,
            {
                let e = edit_of(&list[i]);
                let ghost before = out@;
                out.push(e);
                proof {
                    assert(out@ == before.push(e));
                    assert(edit_views(out@) =~= edit_views(before).push(opt_edit_view(e)));
                    assert(decode_entries(rv).take(i + 1) =~= decode_entries(rv).take(i as int).push(decode_entry(rv[i as int])));
                }
                i = i + 1;
            }
            assert(decode_entries(rv).take(list.len() as int) =~= decode_entries(rv));
            Some(out)
        },
    };
    check_patch(edits, hash, override_hash)
}

/// Putting the decoded entry `n` in front of the edits decoded after it gives
/// the edits decoded from `n` on.
proof fn lemma_prepend_decoded(before: Seq<Edit>, edit: Edit, allv: Seq<Option<(u64, u64, Seq<char>)>>, n: int)
    requires
        0 <= n < allv.len(),
        plain_views(before) == decoded(allv).skip(n + 1),
        allv[n] == Some(edit_view(edit)),
    ensures
        plain_views(seq![edit] + before) == decoded(allv).skip(n),
{
    let out = seq![edit] + before;
    assert(plain_views(before).len() == before.len());
    assert(decoded(allv).len() == allv.len());
    assert(before.len() == allv.len() - n - 1);
    assert forall|m: int| 0 <= m < out.len() implies #[trigger] plain_views(out)[m] == decoded(allv).skip(n)[m] by {
        if m > 0 {
            assert(plain_views(before)[m - 1] == decoded(allv).skip(n + 1)[m - 1]);
        }
    }
    assert(plain_views(out) =~= decoded(allv).skip(n));
}

/// With no problem from `0` on, the entry at `k` decoded and has none.
proof fn lemma_no_problem_decodes(v: Seq<Option<(u64, u64, Seq<char>)>>, k: int)
    requires
        0 <= k < v.len(),
        first_problem(v, 0) is None,
    ensures
        v[k] is Some,
        entry_problem(v[k]) is None,
{
    lemma_no_problem_from(v, 0, k);
}

proof fn lemma_no_problem_from(v: Seq<Option<(u64, u64, Seq<char>)>>, i: int, k: int)
    requires
        0 <= i <= k < v.len(),
        first_problem(v, i) is None,
    ensures
        entry_problem(v[k]) is None,
        v[k] is Some,
    decreases k - i,
{
    if i < k {
        lemma_no_problem_from(v, i + 1, k);
    }
}

} // verus!
