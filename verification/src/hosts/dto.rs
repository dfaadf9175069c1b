//! The `hosts` envelope: what the local OpenSSH client config names, and how
//! much of it this reader could actually see.
use vstd::prelude::*;
use crate::host::{Discovery, Info};
use crate::output::Envelope;
use crate::session::remote::protocol::opt_view;
use crate::text::string_views;

verus! {

/// The `hosts` data.
#[derive(Debug)]
pub struct HostsDto {
    pub hosts: Vec<HostDto>,
    pub config_found: bool,
    pub complete: bool,
    pub warnings: Vec<String>,
}

/// One alias, and the file that named it (omitted when unknown).
#[derive(Debug)]
pub struct HostDto {
    pub alias: String,
    pub source: Option<String>,
}

/// The `hosts` envelope: every alias in discovery order, with what discovery
/// could see.
pub fn hosts(discovery: &Discovery) -> (r: Envelope<HostsDto>)
    ensures
        r.schema_version == 2,
        r.operation@ == "hosts"@,
        r.ok,
        r.host is None,
        r.error is None,
        r.data.hosts.len() == discovery.hosts.len(),
        forall|i: int| 0 <= i < discovery.hosts.len() ==> (#[trigger] r.data.hosts@[i]).alias@
            == discovery.hosts@[i].alias@ && opt_view(r.data.hosts@[i].source) == opt_view(
            discovery.hosts@[i].source,
        ),
        r.data.config_found == discovery.config_found,
        r.data.complete == discovery.complete,
        string_views(r.data.warnings@) == string_views(discovery.warnings@),
{
    let mut rows: Vec<HostDto> = Vec::new();
    let mut i: usize = 0;
    while i < discovery.hosts.len()
        invariant
            i <= discovery.hosts.len(),
            rows.len() == i,
            forall|k: int| 0 <= k < i ==> (#[trigger] rows@[k]).alias@ == discovery.hosts@[k].alias@
                && opt_view(rows@[k].source) == opt_view(discovery.hosts@[k].source),
        decreases discovery.hosts.len() - i,
    {
        let info: &Info = &discovery.hosts[i];
        let source = match &info.source {
            Some(s) => Some(s.clone()),
            None => None,
        };
        rows.push(HostDto { alias: info.alias.clone(), source });
        i = i + 1;
    }
    let mut warnings: Vec<String> = Vec::new();
    let mut k: usize = 0;
    while k < discovery.warnings.len()
        invariant
            k <= discovery.warnings.len(),
            string_views(warnings@) == string_views(discovery.warnings@).take(k as int),
        decreases discovery.warnings.len() - k,
    {
        crate::text::push_str(&mut warnings, discovery.warnings[k].as_str());
        assert(string_views(discovery.warnings@).take(k + 1) =~= string_views(discovery.warnings@).take(k as int).push(discovery.warnings@[k as int]@));
        k = k + 1;
    }
    assert(string_views(discovery.warnings@).take(k as int) =~= string_views(discovery.warnings@));
    Envelope {
        schema_version: 2,
        operation: "hosts",
        ok: true,
        host: None,
        error: None,
        data: HostsDto {
            hosts: rows,
            config_found: discovery.config_found,
            complete: discovery.complete,
            warnings,
        },
    }
}

} // verus!
