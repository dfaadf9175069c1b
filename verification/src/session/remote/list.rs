//! `session list`: the `RHOST_META` records the helper prints, one per session.
//!
//! A record line is `RHOST_META`, the session id, `yes` or `no` for whether its
//! tmux session is there, the base64 of its `meta.json`, and (from the current
//! helper) the base64 of the directory the session was actually created in, all
//! tab-separated. Reading the JSON document belongs to the program around the
//! library; every other part of a record is read here, and the rows are put in
//! id order here.
use vstd::prelude::*;
use vstd::utf8::{decode_utf8, valid_utf8};
use crate::base64::{decode_chars, spec_decode};
use crate::order::{sort_by_key, sorted_by_key, with_key, Keyed};
use crate::session::{Meta, Status};
use crate::session::ops::Info;
use crate::session::remote::protocol::is_literal;
use crate::text::{
    chars_of, decode_text, find_chars, find_first, has_prefix, lemma_find_first, lines, slice_chars,
    split_lines, starts_with, string_of,
};

verus! {

broadcast use vstd::multiset::group_multiset_axioms;

/// One record line, before its metadata document is read.
#[derive(Debug, Clone)]
pub struct ListRecord {
    pub id: String,
    pub alive: bool,
    /// The decoded bytes of the session's `meta.json`.
    pub meta: Vec<u8>,
    /// The directory the session was created in, when the record carries a
    /// readable, non-empty one.
    pub resolved_cwd: Option<String>,
}

/// A record as plain values.
pub struct RecordView {
    pub id: Seq<char>,
    pub alive: bool,
    pub meta: Seq<u8>,
    pub resolved_cwd: Option<Seq<char>>,
}

impl View for ListRecord {
    type V = RecordView;

    open spec fn view(&self) -> RecordView {
        RecordView {
            id: self.id@,
            alive: self.alive,
            meta: self.meta@,
            resolved_cwd: match self.resolved_cwd {
                Some(c) => Some(c@),
                None => None,
            },
        }
    }
}

pub open spec fn tab() -> Seq<char> {
    seq!['\t']
}

/// `s` up to its first tab, and what follows that tab; `None` without a tab.
pub open spec fn split_tab(s: Seq<char>) -> Option<(Seq<char>, Seq<char>)> {
    match find_first(s, tab()) {
        Some(i) => Some((s.take(i), s.skip(i + 1))),
        None => None,
    }
}

/// The sidecar directory a record names: decoded, valid UTF-8, and not empty.
pub open spec fn sidecar_cwd(field: Option<Seq<char>>) -> Option<Seq<char>> {
    match field {
        Some(f) => match spec_decode(f) {
            Some(bytes) => if valid_utf8(bytes) && bytes.len() > 0 {
                Some(decode_utf8(bytes))
            } else {
                None
            },
            None => None,
        },
        None => None,
    }
}

/// The record one line holds, if it is one this reader can use. `sidecar` is
/// whether the metadata field ends at a fourth field (the current helper) or
/// runs to the end of the line (the first edition).
pub open spec fn record_of(line: Seq<char>, sidecar: bool) -> Option<RecordView> {
    let key = "RHOST_META\t"@;
    if !has_prefix(line, key) {
        None
    } else {
        match split_tab(line.skip(key.len() as int)) {
            None => None,
            Some((id, r1)) => match split_tab(r1) {
                None => None,
                Some((alive, r2)) => {
                    let (meta, cwd) = if sidecar {
                        match split_tab(r2) {
                            Some((m, c)) => (m, Some(c)),
                            None => (r2, None),
                        }
                    } else {
                        (r2, None)
                    };
                    match spec_decode(meta) {
                        None => None,
                        Some(bytes) => Some(
                            RecordView {
                                id,
                                alive: alive == "yes"@,
                                meta: bytes,
                                resolved_cwd: sidecar_cwd(cwd),
                            },
                        ),
                    }
                },
            },
        }
    }
}

/// Every usable record among `ls`, in order.
pub open spec fn records_of(ls: Seq<Seq<char>>, sidecar: bool) -> Seq<RecordView>
    decreases ls.len(),
{
    if ls.len() == 0 {
        Seq::empty()
    } else {
        let before = records_of(ls.drop_last(), sidecar);
        match record_of(ls.last(), sidecar) {
            Some(r) => before.push(r),
            None => before,
        }
    }
}

/// The views of a list of records.
pub open spec fn record_views(v: Seq<ListRecord>) -> Seq<RecordView> {
    v.map_values(|r: ListRecord| r@)
}

fn split_tab_exec(s: &[char]) -> (r: Option<(Vec<char>, Vec<char>)>)
    ensures
        match r {
            Some((a, b)) => split_tab(s@) == Some((a@, b@)),
            None => split_tab(s@) is None,
        },
{
    let t = chars_of("\t");
    proof {
        reveal_strlit("\t");
        assert(t@ =~= tab());
        lemma_find_first(s@, tab());
    }
    match find_chars(s, t.as_slice()) {
        Some(i) => {
            assert(i < s.len());
            let a = slice_chars(s, 0, i);
            let b = slice_chars(s, i + 1, s.len());
            assert(a@ =~= s@.take(i as int));
            assert(b@ =~= s@.skip(i + 1));
            Some((a, b))
        },
        None => None,
    }
}

fn sidecar_exec(field: Option<Vec<char>>) -> (r: Option<String>)
    ensures
        match r {
            Some(c) => sidecar_cwd(match field {
                Some(f) => Some(f@),
                None => None,
            }) == Some(c@),
            None => sidecar_cwd(match field {
                Some(f) => Some(f@),
                None => None,
            }) is None,
        },
{
    match field {
        None => None,
        Some(f) => match decode_chars(f.as_slice()) {
            None => None,
            Some(bytes) => {
                if bytes.len() == 0 {
                    return None;
                }
                match decode_text(bytes.as_slice()) {
                    Some(text) => Some(string_of(text.as_slice())),
                    None => None,
                }
            },
        },
    }
}

fn record_exec(line: &[char], sidecar: bool) -> (r: Option<ListRecord>)
    ensures
        match r {
            Some(rec) => record_of(line@, sidecar) == Some(rec@),
            None => record_of(line@, sidecar) is None,
        },
{
    let key = chars_of("RHOST_META\t");
    proof {
        reveal_strlit("RHOST_META\t");
    }
    if !starts_with(line, key.as_slice()) {
        return None;
    }
    let rest = slice_chars(line, key.len(), line.len());
    assert(rest@ =~= line@.skip(key@.len() as int));
    let (id, r1) = match split_tab_exec(rest.as_slice()) {
        Some(p) => p,
        None => return None,
    };
    let (alive, r2) = match split_tab_exec(r1.as_slice()) {
        Some(p) => p,
        None => return None,
    };
    let (meta, cwd) = if sidecar {
        match split_tab_exec(r2.as_slice()) {
            Some((m, c)) => (m, Some(c)),
            None => (r2, None),
        }
    } else {
        (r2, None)
    };
    let bytes = match decode_chars(meta.as_slice()) {
        Some(b) => b,
        None => return None,
    };
    let resolved_cwd = sidecar_exec(cwd);
    Some(
        ListRecord {
            id: string_of(id.as_slice()),
            alive: is_literal(alive.as_slice(), "yes"),
            meta: bytes,
            resolved_cwd,
        },
    )
}

/// Every usable record line of a `session list` answer, in the order printed.
/// Other lines are not sessions and are skipped, as is a record whose fields
/// are missing or whose metadata is not base64.
pub fn scan_records(stdout: &str, sidecar: bool) -> (r: Vec<ListRecord>)
    ensures
        record_views(r@) == records_of(lines(stdout@), sidecar),
{
    let c = chars_of(stdout);
    let ls = split_lines(c.as_slice());
    let ghost all = lines(stdout@);
    let mut out: Vec<ListRecord> = Vec::new();
    let mut i: usize = 0;
    while i < ls.len()
        invariant
            i <= ls.len(),
            ls@.len() == all.len(),
            all == lines(stdout@),
            forall|k: int| 0 <= k < ls@.len() ==> #[trigger] ls@[k]@ == all[k],
            record_views(out@) == records_of(all.take(i as int), sidecar),
        decreases ls.len() - i,
    {
        proof {
            assert(all.take(i + 1).drop_last() =~= all.take(i as int));
            assert(ls@[i as int]@ == all[i as int]);
        }
        let ghost before = out@;
        match record_exec(ls[i].as_slice(), sidecar) {
            Some(rec) => {
                out.push(rec);
                assert(record_views(out@) =~= record_views(before).push(out@.last()@));
            },
            None => {},
        }
        i = i + 1;
    }
    assert(all.take(ls.len() as int) =~= all);
    out
}

/// One row of `session list`: the record, and whether its tmux session is
/// there.
#[derive(Debug, Clone)]
pub struct ListEntry {
    pub id: String,
    pub alive: bool,
    pub meta: Meta,
    /// The absolute directory the session was actually created in, from the
    /// sidecar the current helper writes. `None` for a record that predates it,
    /// so the caller falls back to the metadata's literal `initial_cwd`.
    pub resolved_cwd: Option<String>,
}

impl Keyed for ListEntry {
    open spec fn key_view(&self) -> Seq<char> {
        self.id@
    }

    fn key(&self) -> (r: &str) {
        self.id.as_str()
    }
}

/// The rows whose metadata document was read (`metas[i]` is what the
/// document of `records[i]` says, `None` when it could not be read), in order.
pub open spec fn kept(records: Seq<ListRecord>, metas: Seq<Option<Meta>>) -> Seq<ListEntry>
    decreases records.len(),
{
    if records.len() == 0 || metas.len() == 0 {
        Seq::empty()
    } else {
        let before = kept(records.drop_last(), metas.drop_last());
        match metas.last() {
            Some(meta) => before.push(
                ListEntry {
                    id: records.last().id,
                    alive: records.last().alive,
                    meta,
                    resolved_cwd: records.last().resolved_cwd,
                },
            ),
            None => before,
        }
    }
}

/// The rows of `session list`, in id order: each record whose metadata was
/// read, and none other. A record this version cannot read is not one it may
/// invent. Rows with the same id keep the order of their records.
pub fn list_entries(records: Vec<ListRecord>, metas: Vec<Option<Meta>>) -> (r: Vec<ListEntry>)
    requires
        records.len() == metas.len(),
    ensures
        r@.to_multiset() == kept(records@, metas@).to_multiset(),
        sorted_by_key(r@),
        forall|k: Seq<char>| #[trigger] with_key(r@, k) == with_key(kept(records@, metas@), k),
{
    let ghost rs = records@;
    let ghost ms = metas@;
    let mut records = records;
    let mut metas = metas;
    let mut rows: Vec<ListEntry> = Vec::new();
    proof {
        assert(records@ =~= rs.take(records.len() as int));
        assert(metas@ =~= ms.take(metas.len() as int));
        assert(kept(records@, metas@) + rows@ =~= kept(rs, ms));
    }
    while records.len() > 0
        invariant
            records.len() == metas.len(),
            records@ == rs.take(records.len() as int),
            metas@ == ms.take(metas.len() as int),
            rs.len() == ms.len(),
            records.len() <= rs.len(),
            kept(records@, metas@) + rows@ == kept(rs, ms),
        decreases records.len(),
    {
        let ghost rb = records@;
        let ghost mb = metas@;
        let ghost before = rows@;
        let rec = match records.pop() {
            Some(x) => x,
            None => vstd::pervasive::unreached(),
        };
        let meta = match metas.pop() {
            Some(x) => x,
            None => vstd::pervasive::unreached(),
        };
        proof {
            assert(rb.drop_last() =~= records@);
            assert(mb.drop_last() =~= metas@);
            assert(records@ =~= rs.take(records.len() as int));
            assert(metas@ =~= ms.take(metas.len() as int));
        }
        match meta {
            Some(m) => {
                let row = ListEntry { id: rec.id, alive: rec.alive, meta: m, resolved_cwd: rec.resolved_cwd };
                rows.insert(0, row);
                assert(kept(records@, metas@) + rows@ =~= kept(records@, metas@).push(row) + before);
            },
            None => {},
        }
    }
    proof {
        assert(kept(records@, metas@) =~= Seq::<ListEntry>::empty());
        assert(rows@ =~= kept(rs, ms));
    }
    sort_by_key(rows)
}

/// A listed session as callers see it: a record from the current helper
/// names the directory the session was actually created in; an older record
/// falls back to the metadata's literal `initial_cwd`. A tmux session that is
/// there is alive; one that is not is dead.
pub fn info_of(entry: ListEntry) -> (r: Info)
    ensures
        r.id@ == entry.id@,
        r.name@ == entry.meta.name@,
        r.tmux_session@ == entry.meta.tmux_session@,
        r.created_at@ == entry.meta.created_at@,
        r.initial_cwd@ == match entry.resolved_cwd {
            Some(c) => c@,
            None => entry.meta.initial_cwd@,
        },
        r.shell@ == entry.meta.shell@,
        r.status == (if entry.alive { Status::Alive } else { Status::Dead }),
{
    let initial_cwd = match entry.resolved_cwd {
        Some(c) => c,
        None => entry.meta.initial_cwd,
    };
    Info {
        id: entry.id,
        name: entry.meta.name,
        tmux_session: entry.meta.tmux_session,
        created_at: entry.meta.created_at,
        initial_cwd,
        shell: entry.meta.shell,
        status: if entry.alive { Status::Alive } else { Status::Dead },
    }
}

} // verus!
