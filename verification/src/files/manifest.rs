//! A batch manifest's text: a JSON array of `{op, source, destination}` rows,
//! with optional `resume` and `checksum` flags. JSON itself is read by
//! `serde_json`; which rows make a batch is decided here.
use vstd::prelude::*;
use serde_json::Value;
use crate::files::ops::{
    entry_is, error_is, manifest_entries, row_error, row_ok, ManifestEntry, ManifestRow,
};
use crate::remote::Error;
use crate::session::remote::protocol::opt_view;
use crate::text::decimal;

verus! {

/// One manifest row as plain values: `op`, `source`, `destination`, each
/// present when the row gave it as a JSON string, then `resume` and `checksum`,
/// each present when the row gave it as a JSON boolean.
pub open spec fn row_view(r: ManifestRow) -> (Option<Seq<char>>, Option<Seq<char>>, Option<Seq<char>>, Option<bool>, Option<bool>) {
    (opt_view(r.op), opt_view(r.source), opt_view(r.destination), r.resume, r.checksum)
}

/// What `serde_json` makes of a manifest's text: `Err` with its error message
/// when the text is not JSON, `Ok(None)` when it is JSON but not an array, and
/// otherwise the array's rows.
pub uninterp spec fn manifest_json(text: Seq<char>) -> Result<Option<Seq<(Option<Seq<char>>, Option<Seq<char>>, Option<Seq<char>>, Option<bool>, Option<bool>)>>, Seq<char>>;

/// `serde_json::from_str` into a `Value`, then the array's rows, each field
/// read with `Value::get` and `as_str` or `as_bool`. What it returns is a
/// function of the text alone.
#[verifier::external_body]
fn decode_manifest(text: &str) -> (r: Result<Option<Vec<ManifestRow>>, String>)
    ensures
        match manifest_json(text@) {
            Err(m) => r matches Err(e) && e@ == m,
            Ok(None) => r matches Ok(None),
            Ok(Some(v)) => r matches Ok(Some(rows)) && rows@.map_values(|x: ManifestRow| row_view(x)) == v,
        },
{
    let parsed: Value = serde_json::from_str(text).map_err(|error| error.to_string())?;
    let text_of = |row: &Value, key: &str| row.get(key).and_then(Value::as_str).map(String::from);
    let flag_of = |row: &Value, key: &str| row.get(key).and_then(Value::as_bool);
    Ok(parsed.as_array().map(|rows| rows.iter().map(|row| ManifestRow {
        op: text_of(row, "op"),
        source: text_of(row, "source"),
        destination: text_of(row, "destination"),
        resume: flag_of(row, "resume"),
        checksum: flag_of(row, "checksum"),
    }).collect()))
}

/// The operation a row view names, if it is one a batch runs.
pub open spec fn view_op(op: Option<Seq<char>>) -> Option<Seq<char>> {
    match op {
        Some(o) => if o == "put"@ || o == "get"@ { Some(o) } else { None },
        None => None,
    }
}

/// A text field of a row view, empty when absent.
pub open spec fn view_text(t: Option<Seq<char>>) -> Seq<char> {
    match t {
        Some(s) => s,
        None => Seq::empty(),
    }
}

/// The row is usable: it names `put` or `get`, with a source and a destination.
pub open spec fn view_row_ok(v: (Option<Seq<char>>, Option<Seq<char>>, Option<Seq<char>>, Option<bool>, Option<bool>)) -> bool {
    view_op(v.0) is Some && view_text(v.1).len() > 0 && view_text(v.2).len() > 0
}

/// Why row `index` (counting from 0) is refused.
pub open spec fn view_row_error(v: (Option<Seq<char>>, Option<Seq<char>>, Option<Seq<char>>, Option<bool>, Option<bool>), index: int) -> Seq<char> {
    if view_op(v.0) is None {
        "manifest entry "@ + decimal((index + 1) as nat) + ": op must be put or get"@
    } else {
        "manifest entry "@ + decimal((index + 1) as nat) + ": source and destination are required"@
    }
}

/// The entry a usable row becomes; absent flags are `false`.
pub open spec fn view_entry_is(e: ManifestEntry, v: (Option<Seq<char>>, Option<Seq<char>>, Option<Seq<char>>, Option<bool>, Option<bool>)) -> bool {
    &&& view_op(v.0) == Some(e.operation@)
    &&& e.source@ == view_text(v.1)
    &&& e.destination@ == view_text(v.2)
    &&& e.resume == (v.3 == Some(true))
    &&& e.checksum == (v.4 == Some(true))
}

/// The message every text that is not a JSON array is refused with.
pub open spec fn not_an_array() -> Seq<char> {
    "manifest is not a JSON array of {op,source,destination}"@
}

proof fn lemma_row_view(row: ManifestRow, i: int)
    ensures
        row_ok(row) == view_row_ok(row_view(row)),
        row_error(row, i) == view_row_error(row_view(row), i),
{
}

proof fn lemma_entry_view(row: ManifestRow, e: ManifestEntry)
    ensures
        entry_is(e, row) == view_entry_is(e, row_view(row)),
{
}

/// The entries a manifest's text lists, or why it is refused: text that is
/// not JSON, or JSON that is not an array, is `CONFIG_INVALID`; an array is
/// checked row by row, and the first unusable row decides the answer.
pub fn read_manifest_text(text: &str) -> (r: Result<Vec<ManifestEntry>, Error>)
    ensures
        match manifest_json(text@) {
            Err(m) => r matches Err(e) && error_is(e, "CONFIG_INVALID"@, not_an_array() + ": "@ + m),
            Ok(None) => r matches Err(e) && error_is(e, "CONFIG_INVALID"@, not_an_array()),
            Ok(Some(v)) => if v.len() == 0 {
                r matches Err(e) && error_is(e, "CONFIG_INVALID"@, "manifest lists nothing to do"@)
            } else {
                match r {
                    Ok(entries) => entries.len() == v.len() && forall|i: int|
                        0 <= i < v.len() ==> view_row_ok(#[trigger] v[i]) && view_entry_is(entries@[i], v[i]),
                    Err(e) => exists|i: int|
                        0 <= i < v.len() && !view_row_ok(#[trigger] v[i]) && (forall|j: int|
                            0 <= j < i ==> view_row_ok(#[trigger] v[j])) && error_is(
                            e,
                            "CONFIG_INVALID"@,
                            view_row_error(v[i], i),
                        ),
                }
            },
        },
{
    match decode_manifest(text) {
        Err(detail) => {
            let mut m = String::from_str("manifest is not a JSON array of {op,source,destination}");
            m.append(": ");
            m.append(detail.as_str());
            Err(Error::new("CONFIG_INVALID", m.as_str()))
        },
        Ok(None) => Err(Error::new("CONFIG_INVALID", "manifest is not a JSON array of {op,source,destination}")),
        Ok(Some(rows)) => {
            let ghost v = rows@.map_values(|x: ManifestRow| row_view(x));
            let r = manifest_entries(rows.as_slice());
            proof {
                assert forall|i: int| 0 <= i < rows.len() implies row_ok(#[trigger] rows@[i]) == view_row_ok(v[i])
                    && row_error(rows@[i], i) == view_row_error(v[i], i) by {
                    lemma_row_view(rows@[i], i);
                }
                match &r {
                    Ok(entries) => {
                        assert forall|i: int| 0 <= i < v.len() implies view_row_ok(#[trigger] v[i]) && view_entry_is(entries@[i], v[i]) by {
                            lemma_row_view(rows@[i], i);
                            lemma_entry_view(rows@[i], entries@[i]);
                        }
                    },
                    Err(e) => {
                        if rows.len() > 0 {
                            let i = choose|i: int| 0 <= i < rows.len() && !row_ok(#[trigger] rows@[i]) && (forall|j: int|
                                0 <= j < i ==> row_ok(#[trigger] rows@[j])) && error_is(*e, "CONFIG_INVALID"@, row_error(rows@[i], i));
                            assert(!view_row_ok(v[i]));
                            assert forall|j: int| 0 <= j < i implies view_row_ok(#[trigger] v[j]) by {
                                assert(row_ok(rows@[j]));
                            }
                        }
                    },
                }
            }
            r
        },
    }
}

} // verus!
