//! Tunnels: one port forward held by its own OpenSSH master.
//!
//! The CLI that opens a tunnel owns nothing durable. The forward belongs to a
//! dedicated `ControlMaster=yes ... -fNT` process, and the record on disk is only
//! how a later process finds that master again. Two decisions are made here:
//! which binds are allowed to leave loopback, and what the answers about a
//! master's state mean.
pub mod flow;
pub mod master;
pub mod record;

use vstd::prelude::*;
use crate::fileops::{debug_str, named};
use crate::text::{chars_of, find_last, find_last_chars, lemma_find_before, parse_bounded, parse_unsigned, slice_chars, string_of};
use record::{Fault, FaultView, Kind};

verus! {

/// One forward, as the caller asked for it and as rhost agreed to build it.
pub struct Request<'a> {
    pub host: &'a str,
    pub kind: Kind,
    pub listen: String,
    /// `None` for a socks forward, which has no destination to forward to.
    pub destination: Option<String>,
}

/// A request as characters.
pub struct RequestView {
    pub host: Seq<char>,
    pub kind: Kind,
    pub listen: Seq<char>,
    pub destination: Option<Seq<char>>,
}

impl<'a> View for Request<'a> {
    type V = RequestView;

    open spec fn view(&self) -> RequestView {
        RequestView {
            host: self.host@,
            kind: self.kind,
            listen: self.listen@,
            destination: record::opt_chars(self.destination),
        }
    }
}

/// `address:port` split at the last colon, with a port `u16::from_str`
/// accepts. An IPv6 address stays bracketed.
pub open spec fn spec_split_host_port(text: Seq<char>) -> Option<(Seq<char>, nat)> {
    match find_last(text, seq![':']) {
        Some(i) => match parse_unsigned(text.skip(i + 1), 65535) {
            Some(port) => Some((text.take(i), port)),
            None => None,
        },
        None => None,
    }
}

fn split_host_port(text: &str) -> (r: Option<(String, u16)>)
    ensures
        match r {
            Some((address, port)) => spec_split_host_port(text@) == Some((address@, port as nat)),
            None => spec_split_host_port(text@) is None,
        },
{
    let c = chars_of(text);
    let colon: Vec<char> = vec![':'];
    assert(colon@ =~= seq![':']);
    let i = match find_last_chars(c.as_slice(), colon.as_slice()) {
        Some(i) => i,
        None => return None,
    };
    proof {
        lemma_find_before(c@, seq![':'], c@.len() + 1int);
        assert(i + 1 <= c.len());
    }
    let port_text = slice_chars(c.as_slice(), i + 1, c.len());
    assert(port_text@ =~= text@.skip(i + 1));
    let port = match parse_bounded(port_text.as_slice(), 65535) {
        Some(p) => p,
        None => return None,
    };
    let address = slice_chars(c.as_slice(), 0, i);
    assert(address@ =~= text@.take(i as int));
    Some((string_of(address.as_slice()), port as u16))
}

/// `address` without one pair of enclosing brackets.
pub open spec fn unbracket(address: Seq<char>) -> Seq<char> {
    if address.len() >= 2 && address[0] == '[' && address.last() == ']' {
        address.subrange(1, address.len() - 1)
    } else {
        address
    }
}

/// The IP address text a listen address names: its address part without one
/// pair of enclosing brackets.
pub open spec fn spec_listen_ip(listen: Seq<char>) -> Option<Seq<char>> {
    match spec_split_host_port(listen) {
        Some((address, _)) => Some(unbracket(address)),
        None => None,
    }
}

/// The text whose `IpAddr` reading decides whether a bind stays on loopback.
/// Parsing it as an IP address is the caller's part: `loopback_ip` in
/// [`Request::new`] is whether this text is a loopback IP address.
pub fn listen_ip(listen: &str) -> (r: Option<String>)
    ensures
        match r {
            Some(ip) => spec_listen_ip(listen@) == Some(ip@),
            None => spec_listen_ip(listen@) is None,
        },
{
    match split_host_port(listen) {
        Some((address, _)) => {
            let c = chars_of(address.as_str());
            if c.len() >= 2 && c[0] == '[' && c[c.len() - 1] == ']' {
                let inner = slice_chars(c.as_slice(), 1, c.len() - 1);
                assert(inner@ =~= unbracket(address@));
                Some(string_of(inner.as_slice()))
            } else {
                Some(address)
            }
        },
        None => None,
    }
}

/// The exposure guard: `localhost` by name, or an address the kernel will
/// only accept connections to from this machine (`loopback_ip`).
pub open spec fn spec_is_loopback(address: Seq<char>, loopback_ip: bool) -> bool {
    address == "localhost"@ || loopback_ip
}

fn is_localhost(address: &str) -> (r: bool)
    ensures
        r == (address@ == "localhost"@),
{
    proof {
        reveal_strlit("localhost");
    }
    let c = chars_of(address);
    let name = chars_of("localhost");
    c.len() == name.len() && crate::text::chars_eq(c.as_slice(), name.as_slice())
}

/// A request result as characters.
pub open spec fn request_view(r: Result<Request, Fault>) -> Result<RequestView, FaultView> {
    match r {
        Ok(q) => Ok(q@),
        Err(e) => Err(e@),
    }
}

/// What a forward request becomes: the kind must be named, the listen address
/// must carry an explicit nonzero port, a socks forward takes no destination
/// while the others need `host:port`, and a bind off loopback needs `expose`.
/// `loopback_ip` is whether [`listen_ip`] of `listen` reads as a loopback IP
/// address.
pub open spec fn spec_request(host: Seq<char>, kind: Seq<char>, listen: Seq<char>, destination: Seq<char>, expose: bool, loopback_ip: bool) -> Result<RequestView, FaultView> {
    match Kind::spec_parse(kind) {
        None => Err(FaultView::Invalid("kind must be local, reverse or socks, not "@ + debug_str(kind))),
        Some(k) => match spec_split_host_port(listen) {
            None => Err(FaultView::Invalid("--listen must be address:port, not "@ + debug_str(listen))),
            Some((address, port)) => if port == 0 {
                Err(FaultView::Invalid("--listen port must be explicit; rhost cannot report a port it did not choose"@))
            } else if k == Kind::Socks && destination.len() > 0 {
                Err(FaultView::Invalid("--destination is not used for a socks forward"@))
            } else if k != Kind::Socks && spec_split_host_port(destination) is None {
                Err(FaultView::Invalid("--destination must be host:port for a "@ + k.spec_as_str() + " forward"@))
            } else if !expose && !spec_is_loopback(address, loopback_ip) {
                Err(FaultView::Invalid("binding "@ + listen + " is reachable from elsewhere; pass --allow-exposure to mean it"@))
            } else {
                Ok(RequestView {
                    host,
                    kind: k,
                    listen,
                    destination: if k == Kind::Socks { None } else { Some(destination) },
                })
            },
        },
    }
}

/// Only loopback binds are free: any request that is accepted listens on an
/// explicit nonzero port, on `localhost` or a loopback address unless
/// `expose` was given, and carries a destination exactly when it is not a
/// socks forward.
pub proof fn lemma_accepted_requests_are_guarded(host: Seq<char>, kind: Seq<char>, listen: Seq<char>, destination: Seq<char>, expose: bool, loopback_ip: bool)
    ensures
        spec_request(host, kind, listen, destination, expose, loopback_ip) matches Ok(q) ==> {
            &&& spec_split_host_port(listen) matches Some((address, port))
            &&& port != 0
            &&& (expose || spec_is_loopback(address, loopback_ip))
            &&& (q.kind == Kind::Socks <==> q.destination is None)
            &&& q.listen == listen
        },
{
}

/// The argument ssh's own forward flag takes: `listen:destination` for a
/// directed forward, and the listen address alone for socks.
pub open spec fn spec_forward(listen: Seq<char>, destination: Option<Seq<char>>) -> Seq<char> {
    match destination {
        Some(d) => listen + ":"@ + d,
        None => listen,
    }
}

impl<'a> Request<'a> {
    /// Validates a forward without creating a directory, starting ssh or writing
    /// anything, so a request rhost would never build is refused before it can
    /// leave a trace.
    ///
    /// The two guards are the point of this function: a listen address that is
    /// not loopback changes who else can reach the remote network, so it takes
    /// an explicit `expose`; and port 0 asks the operating system to choose, and
    /// rhost would have no way to report the port it did not choose.
    /// `loopback_ip` is whether [`listen_ip`] of `listen` parses as an IP
    /// address that is loopback.
    pub fn new(host: &'a str, kind: &str, listen: &str, destination: &str, expose: bool, loopback_ip: bool) -> (r: Result<Request<'a>, Fault>)
        ensures
            request_view(r) == spec_request(host@, kind@, listen@, destination@, expose, loopback_ip),
            r matches Ok(q) ==> q.host == host,
    {
        let k = match Kind::parse(kind) {
            Some(k) => k,
            None => return Err(Fault::Invalid(named("kind must be local, reverse or socks, not ", kind))),
        };
        let (address, port) = match split_host_port(listen) {
            Some(pair) => pair,
            None => return Err(Fault::Invalid(named("--listen must be address:port, not ", listen))),
        };
        if port == 0 {
            return Err(Fault::Invalid(String::from_str(
                "--listen port must be explicit; rhost cannot report a port it did not choose",
            )));
        }
        let dest = match k {
            Kind::Socks => {
                if !destination.is_empty() {
                    return Err(Fault::Invalid(String::from_str("--destination is not used for a socks forward")));
                }
                None
            },
            Kind::Local | Kind::Reverse => {
                if split_host_port(destination).is_none() {
                    let mut m = String::from_str("--destination must be host:port for a ");
                    m.append(k.as_str());
                    m.append(" forward");
                    return Err(Fault::Invalid(m));
                }
                Some(String::from_str(destination))
            },
        };
        if !expose && !(is_localhost(address.as_str()) || loopback_ip) {
            let mut m = String::from_str("binding ");
            m.append(listen);
            m.append(" is reachable from elsewhere; pass --allow-exposure to mean it");
            return Err(Fault::Invalid(m));
        }
        Ok(Request { host, kind: k, listen: String::from_str(listen), destination: dest })
    }

    /// The argument ssh's own forward flag takes.
    pub fn forward(&self) -> (r: String)
        ensures
            r@ == spec_forward(self.listen@, record::opt_chars(self.destination)),
    {
        match &self.destination {
            Some(destination) => {
                let mut out = self.listen.clone();
                out.append(":");
                out.append(destination.as_str());
                out
            },
            None => self.listen.clone(),
        }
    }
}

} // verus!
