//! The schema-v2 view of a tunnel. A tunnel's `status` is not rhost's claim but
//! an observation: the document can only be built from a value whose master
//! has already been asked.
use vstd::prelude::*;
use crate::tunnel::record::{opt_chars, Fault, FaultView, Tunnel};
use super::{error_is, failure, host_field, host_of, Envelope};
use crate::session::remote::protocol::opt_view;

verus! {

/// One tunnel: the id a caller keeps, and what its own master just said.
#[derive(Debug, Clone)]
pub struct TunnelDto {
    pub tunnel_id: String,
    pub host: String,
    pub kind: &'static str,
    pub listen: String,
    /// Omitted when `None`: a socks forward has no destination.
    pub destination: Option<String>,
    pub status: &'static str,
}

/// The document shows a tunnel as it is.
pub open spec fn tunnel_is(dto: TunnelDto, value: Tunnel) -> bool {
    &&& dto.tunnel_id@ == value.id@
    &&& dto.host@ == value.host@
    &&& dto.kind@ == value.kind.spec_as_str()
    &&& dto.listen@ == value.listen@
    &&& opt_view(dto.destination) == opt_chars(value.destination)
    &&& dto.status@ == value.status.spec_as_str()
}

pub fn tunnel_dto(value: &Tunnel) -> (r: TunnelDto)
    ensures
        tunnel_is(r, *value),
{
    let destination = match &value.destination {
        Some(d) => Some(d.clone()),
        None => None,
    };
    TunnelDto {
        tunnel_id: value.id.clone(),
        host: value.host.clone(),
        kind: value.kind.as_str(),
        listen: value.listen.clone(),
        destination,
        status: value.status.as_str(),
    }
}

/// `tunnel.open` returns the record it just created, so a caller never has to
/// list to learn the id of the forward it asked for.
pub fn tunnel(operation: &'static str, host: &str, value: &Tunnel) -> (r: Envelope<TunnelDto>)
    ensures
        r.schema_version == 2,
        r.operation == operation,
        r.ok,
        opt_view(r.host) == host_field(host@),
        r.error is None,
        tunnel_is(r.data, *value),
{
    Envelope { schema_version: 2, operation, ok: true, host: host_of(host), data: tunnel_dto(value), error: None }
}

/// Every tunnel.
#[derive(Debug)]
pub struct TunnelsDto {
    pub tunnels: Vec<TunnelDto>,
}

/// `tunnel.list`: every tunnel, in the order given.
pub fn tunnels(rows: &[Tunnel]) -> (r: Envelope<TunnelsDto>)
    ensures
        r.schema_version == 2,
        r.operation@ == "tunnel.list"@,
        r.ok,
        r.host is None,
        r.error is None,
        r.data.tunnels.len() == rows.len(),
        forall|i: int| 0 <= i < rows.len() ==> tunnel_is(#[trigger] r.data.tunnels@[i], rows@[i]),
{
    let mut out: Vec<TunnelDto> = Vec::new();
    let mut i: usize = 0;
    while i < rows.len()
        invariant
            i <= rows.len(),
            out.len() == i,
            forall|k: int| 0 <= k < i ==> tunnel_is(#[trigger] out@[k], rows@[k]),
        decreases rows.len() - i,
    {
        out.push(tunnel_dto(&rows[i]));
        i = i + 1;
    }
    Envelope {
        schema_version: 2,
        operation: "tunnel.list",
        ok: true,
        host: None,
        data: TunnelsDto { tunnels: out },
        error: None,
    }
}

/// A closed tunnel, named by the id the caller passed.
#[derive(Debug)]
pub struct TunnelClosedDto {
    pub tunnel_id: String,
    pub closed: bool,
}

/// `tunnel.close` names exactly which forward this call stopped.
pub fn tunnel_closed(id: &str) -> (r: Envelope<TunnelClosedDto>)
    ensures
        r.schema_version == 2,
        r.operation@ == "tunnel.close"@,
        r.ok,
        r.host is None,
        r.error is None,
        r.data.tunnel_id@ == id@,
        r.data.closed,
{
    Envelope {
        schema_version: 2,
        operation: "tunnel.close",
        ok: true,
        host: None,
        data: TunnelClosedDto { tunnel_id: String::from_str(id), closed: true },
        error: None,
    }
}

/// The code a tunnel fault reports: a refused request is the caller's to
/// fix, a missing record is "already gone", and only a transport-shaped
/// failure is worth retrying; an uncertain outcome must be inspected first.
pub open spec fn fault_error(fault: FaultView) -> (Seq<char>, Seq<char>, bool) {
    match fault {
        FaultView::Invalid(m) => ("CONFIG_INVALID"@, m, false),
        FaultView::NotFound(m) => ("TUNNEL_NOT_FOUND"@, m, false),
        FaultView::Transport(m) => ("TUNNEL_FAILED"@, m, true),
        FaultView::Uncertain(m) => ("TUNNEL_FAILED"@, m, false),
    }
}

/// The failure envelope a tunnel fault answers with, mapped in one place so a
/// code never has to be repeated.
pub fn tunnel_failure(operation: &'static str, host: &str, fault: Fault) -> (r: Envelope<Option<()>>)
    ensures
        r.schema_version == 2,
        r.operation == operation,
        !r.ok,
        opt_view(r.host) == host_field(host@),
        r.data is None,
        error_is(r.error, fault_error(fault@).0, fault_error(fault@).1, fault_error(fault@).2),
{
    match fault {
        Fault::Invalid(m) => failure(operation, host, "CONFIG_INVALID", m.as_str(), false),
        Fault::NotFound(m) => failure(operation, host, "TUNNEL_NOT_FOUND", m.as_str(), false),
        Fault::Transport(m) => failure(operation, host, "TUNNEL_FAILED", m.as_str(), true),
        Fault::Uncertain(m) => failure(operation, host, "TUNNEL_FAILED", m.as_str(), false),
    }
}

} // verus!
