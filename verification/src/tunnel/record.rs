//! What makes a tunnel discoverable to the next process: its id, and the record
//! that names it.
//!
//! The record is a pointer, never the durable thing itself — the forward belongs
//! to its OpenSSH master. Reading and writing record files belongs to the
//! program around the library; what a record says, and which file names and
//! records are acceptable, is here.
use vstd::prelude::*;
use crate::text::{chars_of, has_suffix, slice_chars, string_of};

verus! {

/// The id shape: `t_` plus 128 bits of lowercase hex, narrow enough that a
/// hand-written path can never name another process' socket by accident.
pub const ID_PREFIX: &'static str = "t_";

pub const ID_HEX: usize = 32;

/// The three forwards rhost builds, each one already an OpenSSH flag.
#[derive(Clone, Copy, PartialEq, Eq, Debug, Structural)]
pub enum Kind {
    Local,
    Reverse,
    Socks,
}

impl Kind {
    pub open spec fn spec_as_str(self) -> Seq<char> {
        match self {
            Kind::Local => "local"@,
            Kind::Reverse => "reverse"@,
            Kind::Socks => "socks"@,
        }
    }

    pub open spec fn spec_flag(self) -> Seq<char> {
        match self {
            Kind::Local => "-L"@,
            Kind::Reverse => "-R"@,
            Kind::Socks => "-D"@,
        }
    }

    /// The kind a word names, if any.
    pub open spec fn spec_parse(text: Seq<char>) -> Option<Kind> {
        if text == "local"@ {
            Some(Kind::Local)
        } else if text == "reverse"@ {
            Some(Kind::Reverse)
        } else if text == "socks"@ {
            Some(Kind::Socks)
        } else {
            None
        }
    }

    pub fn parse(text: &str) -> (r: Option<Kind>)
        ensures
            r == Kind::spec_parse(text@),
    {
        proof {
            reveal_strlit("local");
            reveal_strlit("reverse");
            reveal_strlit("socks");
        }
        let c = chars_of(text);
        let local = chars_of("local");
        let reverse = chars_of("reverse");
        let socks = chars_of("socks");
        if c.len() == local.len() && crate::text::chars_eq(c.as_slice(), local.as_slice()) {
            Some(Kind::Local)
        } else if c.len() == reverse.len() && crate::text::chars_eq(c.as_slice(), reverse.as_slice()) {
            Some(Kind::Reverse)
        } else if c.len() == socks.len() && crate::text::chars_eq(c.as_slice(), socks.as_slice()) {
            Some(Kind::Socks)
        } else {
            None
        }
    }

    pub fn as_str(self) -> (r: &'static str)
        ensures
            r@ == self.spec_as_str(),
    {
        match self {
            Kind::Local => "local",
            Kind::Reverse => "reverse",
            Kind::Socks => "socks",
        }
    }

    /// The ssh flag this kind *is*: rhost has no separate vocabulary for it.
    pub fn flag(self) -> (r: &'static str)
        ensures
            r@ == self.spec_flag(),
    {
        match self {
            Kind::Local => "-L",
            Kind::Reverse => "-R",
            Kind::Socks => "-D",
        }
    }
}

/// Whether the forward is still there. `alive` means the dedicated master
/// answered; `stale` means its socket is gone.
#[derive(Clone, Copy, PartialEq, Eq, Debug, Structural)]
pub enum Status {
    Alive,
    Stale,
}

impl Status {
    pub open spec fn spec_as_str(self) -> Seq<char> {
        match self {
            Status::Alive => "alive"@,
            Status::Stale => "stale"@,
        }
    }

    pub fn as_str(self) -> (r: &'static str)
        ensures
            r@ == self.spec_as_str(),
    {
        match self {
            Status::Alive => "alive",
            Status::Stale => "stale",
        }
    }
}

/// What a later process reads back from disk: the record names the tunnel
/// exactly once.
#[derive(Clone, Debug)]
pub struct Record {
    pub tunnel_id: String,
    pub host: String,
    pub kind: Kind,
    pub listen: String,
    pub destination: Option<String>,
}

/// One tunnel with the status this invocation observed.
#[derive(Clone, Debug)]
pub struct Tunnel {
    pub id: String,
    pub host: String,
    pub kind: Kind,
    pub listen: String,
    pub destination: Option<String>,
    pub status: Status,
}

/// An optional text, as characters.
pub open spec fn opt_chars(o: Option<String>) -> Option<Seq<char>> {
    match o {
        Some(s) => Some(s@),
        None => None,
    }
}

impl Tunnel {
    pub fn from_record(record: Record, status: Status) -> (r: Self)
        ensures
            r.id@ == record.tunnel_id@,
            r.host@ == record.host@,
            r.kind == record.kind,
            r.listen@ == record.listen@,
            opt_chars(r.destination) == opt_chars(record.destination),
            r.status == status,
    {
        Tunnel {
            id: record.tunnel_id,
            host: record.host,
            kind: record.kind,
            listen: record.listen,
            destination: record.destination,
            status,
        }
    }

    /// The record without the status: what is durable is the forward's address,
    /// never a claim about whether it is up.
    pub fn record(&self) -> (r: Record)
        ensures
            r.tunnel_id@ == self.id@,
            r.host@ == self.host@,
            r.kind == self.kind,
            r.listen@ == self.listen@,
            opt_chars(r.destination) == opt_chars(self.destination),
    {
        let destination = match &self.destination {
            Some(d) => Some(d.clone()),
            None => None,
        };
        Record {
            tunnel_id: self.id.clone(),
            host: self.host.clone(),
            kind: self.kind,
            listen: self.listen.clone(),
            destination,
        }
    }
}

/// Why a tunnel operation had no answer: fix the arguments, stop asking about
/// an id this machine does not have, retry a transport-shaped problem, or
/// inspect before repeating because a side effect may still exist.
#[derive(Debug)]
pub enum Fault {
    Invalid(String),
    NotFound(String),
    Transport(String),
    /// A side effect may still exist; repeating the operation could compound it.
    Uncertain(String),
}

/// A fault as characters.
pub enum FaultView {
    Invalid(Seq<char>),
    NotFound(Seq<char>),
    Transport(Seq<char>),
    Uncertain(Seq<char>),
}

impl View for Fault {
    type V = FaultView;

    open spec fn view(&self) -> FaultView {
        match self {
            Fault::Invalid(m) => FaultView::Invalid(m@),
            Fault::NotFound(m) => FaultView::NotFound(m@),
            Fault::Transport(m) => FaultView::Transport(m@),
            Fault::Uncertain(m) => FaultView::Uncertain(m@),
        }
    }
}

/// A lowercase hexadecimal digit.
pub open spec fn lower_hex(c: char) -> bool {
    ('0' <= c && c <= '9') || ('a' <= c && c <= 'f')
}

/// `t_` followed by exactly 32 lowercase hex digits.
pub open spec fn spec_is_id(text: Seq<char>) -> bool {
    text.len() == 34 && text[0] == 't' && text[1] == '_' && forall|i: int|
        2 <= i < 34 ==> lower_hex(#[trigger] text[i])
}

/// Whether `text` has the tunnel-id shape.
pub fn is_id(text: &str) -> (r: bool)
    ensures
        r == spec_is_id(text@),
{
    let c = chars_of(text);
    if c.len() != 34 || c[0] != 't' || c[1] != '_' {
        return false;
    }
    let mut i: usize = 2;
    while i < 34
        invariant
            2 <= i <= 34,
            c.len() == 34,
            c@ == text@,
            forall|k: int| 2 <= k < i ==> lower_hex(#[trigger] c@[k]),
        decreases 34 - i,
    {
        let x = c[i];
        if !(('0' <= x && x <= '9') || ('a' <= x && x <= 'f')) {
            assert(!lower_hex(c@[i as int]));
            return false;
        }
        i = i + 1;
    }
    true
}

/// The tunnel a record file's name stands for: `<id>.json` with a well-formed
/// id; any other file belongs to something else.
pub open spec fn spec_id_of_file(name: Seq<char>) -> Option<Seq<char>> {
    if has_suffix(name, ".json"@) && spec_is_id(name.take(name.len() - 5)) {
        Some(name.take(name.len() - 5))
    } else {
        None
    }
}

/// A record file named after a well-formed id stands for exactly that id.
pub proof fn lemma_record_file_names_its_id(id: Seq<char>)
    requires
        spec_is_id(id),
    ensures
        spec_id_of_file(id + ".json"@) == Some(id),
{
    reveal_strlit(".json");
    let name = id + ".json"@;
    assert(name.take(name.len() - 5) =~= id);
    assert(has_suffix(name, ".json"@)) by {
        assert(name.subrange(name.len() - 5, name.len() as int) =~= ".json"@);
    }
}

/// Every kind reads back from the word it is written as.
pub proof fn lemma_kind_round_trip(k: Kind)
    ensures
        Kind::spec_parse(k.spec_as_str()) == Some(k),
{
    reveal_strlit("local");
    reveal_strlit("reverse");
    reveal_strlit("socks");
    assert("local"@.len() == 5 && "reverse"@.len() == 7 && "socks"@.len() == 5);
    assert("local"@[0] != "socks"@[0]);
}

/// An ASCII lowercase letter in upper case.
pub open spec fn upper(c: char) -> char {
    ((c as u32) - 32) as char
}

/// Each kind's flag is the OpenSSH option for that forward: `-` and one
/// letter. A local or reverse forward's letter is the initial of its name in
/// upper case (`-L` for `local`, `-R` for `reverse`); a SOCKS forward is
/// OpenSSH's dynamic forward, `-D`. No two kinds share a flag.
pub proof fn lemma_flag_is_the_forward_option(k: Kind, other: Kind)
    ensures
        k.spec_flag().len() == 2,
        k.spec_flag()[0] == '-',
        k != Kind::Socks ==> k.spec_flag()[1] == upper(k.spec_as_str()[0]),
        k == Kind::Socks ==> k.spec_flag()[1] == 'D',
        k != other ==> k.spec_flag() != other.spec_flag(),
{
    reveal_strlit("local");
    reveal_strlit("reverse");
    reveal_strlit("socks");
    reveal_strlit("-L");
    reveal_strlit("-R");
    reveal_strlit("-D");
    assert("-L"@[1] != "-R"@[1] && "-L"@[1] != "-D"@[1] && "-R"@[1] != "-D"@[1]);
}

/// The tunnel a record file's name stands for, if it is one.
pub fn id_of_file(name: &str) -> (r: Option<String>)
    ensures
        match r {
            Some(id) => spec_id_of_file(name@) == Some(id@),
            None => spec_id_of_file(name@) is None,
        },
{
    proof {
        reveal_strlit(".json");
    }
    let c = chars_of(name);
    let suffix = chars_of(".json");
    if !crate::text::ends_with(c.as_slice(), suffix.as_slice()) {
        return None;
    }
    let stem = slice_chars(c.as_slice(), 0, c.len() - 5);
    assert(stem@ =~= name@.take(name@.len() - 5));
    let id = string_of(stem.as_slice());
    if is_id(id.as_str()) {
        Some(id)
    } else {
        None
    }
}

/// A record read back for `id` is accepted only when it describes that
/// tunnel, so a stray or hand-edited file cannot make rhost signal some other
/// process' socket.
pub fn check_record(id: &str, record: Record) -> (r: Result<Record, Fault>)
    ensures
        match r {
            Ok(kept) => kept.tunnel_id@ == id@ && kept.tunnel_id@ == record.tunnel_id@ && kept.host@
                == record.host@ && kept.kind == record.kind && kept.listen@ == record.listen@
                && opt_chars(kept.destination) == opt_chars(record.destination),
            Err(e) => record.tunnel_id@ != id@ && e@ == FaultView::Transport(
                "tunnel record "@ + id@ + " describes "@ + record.tunnel_id@,
            ),
        },
{
    let a = chars_of(record.tunnel_id.as_str());
    let b = chars_of(id);
    if a.len() == b.len() && crate::text::chars_eq(a.as_slice(), b.as_slice()) {
        return Ok(record);
    }
    let mut message = String::from_str("tunnel record ");
    message.append(id);
    message.append(" describes ");
    message.append(record.tunnel_id.as_str());
    Err(Fault::Transport(message))
}

/// Asking for an id that is not tunnel-shaped is asking for a tunnel this
/// machine does not have.
pub fn unknown_id(id: &str) -> (r: Fault)
    ensures
        r@ == FaultView::NotFound("no such tunnel: "@ + id@),
{
    let mut message = String::from_str("no such tunnel: ");
    message.append(id);
    Fault::NotFound(message)
}

} // verus!
