//! The `connection` and `doctor` envelopes: what OpenSSH said about the shared
//! master, and what a doctor run learnt of a host.
use vstd::prelude::*;
use crate::transport::openssh::{ConnectionStatus, MasterStatus};
use crate::session::remote::protocol::opt_view;
use crate::domain::ExecOutcome;
use super::{error, error_is, exec, spec_exec_error, Envelope};

verus! {

/// The shared master as the document describes it.
#[derive(Debug, Clone)]
pub struct ConnectionDto {
    pub master_status: &'static str,
    pub control_path: String,
    /// Omitted when `None`.
    pub master_pid: Option<u32>,
    /// Omitted when `None`: an empty diagnostic is not reported.
    pub diagnostic: Option<String>,
    /// Omitted when `false`.
    pub stopped: bool,
}

/// The document shows a connection status as OpenSSH reported it.
pub open spec fn connection_is(dto: ConnectionDto, value: ConnectionStatus) -> bool {
    &&& dto.master_status@ == value.master_status.spec_as_str()
    &&& dto.control_path@ == value.control_path@
    &&& dto.master_pid == value.master_pid
    &&& opt_view(dto.diagnostic) == (if value.diagnostic@.len() == 0 {
        None
    } else {
        Some(value.diagnostic@)
    })
    &&& dto.stopped == value.stopped
}

impl ConnectionDto {
    pub fn from_status(value: &ConnectionStatus) -> (r: Self)
        ensures
            connection_is(r, *value),
    {
        let diagnostic = if value.diagnostic.as_str().is_empty() {
            None
        } else {
            Some(value.diagnostic.clone())
        };
        ConnectionDto {
            master_status: value.master_status.as_str(),
            control_path: value.control_path.clone(),
            master_pid: value.master_pid,
            diagnostic,
            stopped: value.stopped,
        }
    }
}

/// `connection.status` and `connection.reset` share one data shape.
pub fn connection(operation: &'static str, host: &str, status: &ConnectionDto) -> (r: Envelope<ConnectionDto>)
    ensures
        r.schema_version == 2,
        r.operation == operation,
        r.ok,
        r.host matches Some(h) && h@ == host@,
        r.error is None,
        r.data.master_status == status.master_status,
        r.data.control_path@ == status.control_path@,
        r.data.master_pid == status.master_pid,
        opt_view(r.data.diagnostic) == opt_view(status.diagnostic),
        r.data.stopped == status.stopped,
{
    Envelope {
        schema_version: 2,
        operation,
        ok: true,
        host: Some(String::from_str(host)),
        error: None,
        data: copy_connection(status),
    }
}

fn copy_connection(status: &ConnectionDto) -> (r: ConnectionDto)
    ensures
        r.master_status == status.master_status,
        r.control_path@ == status.control_path@,
        r.master_pid == status.master_pid,
        opt_view(r.diagnostic) == opt_view(status.diagnostic),
        r.stopped == status.stopped,
{
    let diagnostic = match &status.diagnostic {
        Some(d) => Some(d.clone()),
        None => None,
    };
    ConnectionDto {
        master_status: status.master_status,
        control_path: status.control_path.clone(),
        master_pid: status.master_pid,
        diagnostic,
        stopped: status.stopped,
    }
}

/// A reset that did not land still describes what it acted on.
pub fn connection_failure(host: &str, status: &ConnectionDto, reason: &str) -> (r: Envelope<ConnectionDto>)
    ensures
        r.schema_version == 2,
        r.operation@ == "connection.reset"@,
        !r.ok,
        r.host matches Some(h) && h@ == host@,
        error_is(r.error, "SSH_CONTROL_FAILED"@, reason@, false),
        r.data.master_status == status.master_status,
        r.data.control_path@ == status.control_path@,
        r.data.master_pid == status.master_pid,
        opt_view(r.data.diagnostic) == opt_view(status.diagnostic),
        r.data.stopped == status.stopped,
{
    Envelope {
        schema_version: 2,
        operation: "connection.reset",
        ok: false,
        host: Some(String::from_str(host)),
        error: Some(error("SSH_CONTROL_FAILED", reason, false)),
        data: copy_connection(status),
    }
}

/// The shared master as a doctor run found it.
#[derive(Debug, Clone)]
pub struct Connection {
    pub master_status: MasterStatus,
    pub control_path: String,
    pub master_pid: Option<u32>,
    pub diagnostic: Option<String>,
    pub stopped: bool,
}

/// What a doctor run learnt of one host. `capabilities` lists each probed
/// capability once, by name, in name order.
#[derive(Debug, Clone)]
pub struct Report {
    pub host: String,
    pub os: String,
    pub kernel: String,
    pub arch: String,
    pub user: String,
    pub home: String,
    pub login_shell: String,
    pub state_dir: String,
    pub online: bool,
    pub state_dir_writable: bool,
    pub wsl: bool,
    pub capabilities: Vec<(String, bool)>,
    pub connection: Connection,
    pub connection_reused: Option<bool>,
}

/// The `doctor` data.
#[derive(Debug)]
pub struct DoctorDto {
    pub host: String,
    pub os: String,
    pub kernel: String,
    pub arch: String,
    pub user: String,
    pub home: String,
    pub login_shell: String,
    pub state_dir: String,
    pub online: bool,
    pub state_dir_writable: bool,
    pub wsl: bool,
    pub capabilities: Vec<(String, bool)>,
    pub connection: ConnectionDto,
    pub connection_reused: Option<bool>,
}

/// Name and value of each capability.
pub open spec fn capability_view(c: Seq<(String, bool)>) -> Seq<(Seq<char>, bool)> {
    c.map_values(|e: (String, bool)| (e.0@, e.1))
}

/// The document shows the shared master as the doctor run found it.
pub open spec fn probed_connection_is(dto: ConnectionDto, value: Connection) -> bool {
    &&& dto.master_status@ == value.master_status.spec_as_str()
    &&& dto.control_path@ == value.control_path@
    &&& dto.master_pid == value.master_pid
    &&& opt_view(dto.diagnostic) == opt_view(value.diagnostic)
    &&& dto.stopped == value.stopped
}

/// The document carries every field of the report unchanged.
pub open spec fn doctor_dto_is(dto: DoctorDto, report: Report) -> bool {
    &&& dto.host@ == report.host@
    &&& dto.os@ == report.os@
    &&& dto.kernel@ == report.kernel@
    &&& dto.arch@ == report.arch@
    &&& dto.user@ == report.user@
    &&& dto.home@ == report.home@
    &&& dto.login_shell@ == report.login_shell@
    &&& dto.state_dir@ == report.state_dir@
    &&& dto.online == report.online
    &&& dto.state_dir_writable == report.state_dir_writable
    &&& dto.wsl == report.wsl
    &&& capability_view(dto.capabilities@) == capability_view(report.capabilities@)
    &&& probed_connection_is(dto.connection, report.connection)
    &&& dto.connection_reused == report.connection_reused
}

impl ConnectionDto {
    /// The shared master as a doctor run found it.
    pub fn from_probe(value: &Connection) -> (r: Self)
        ensures
            probed_connection_is(r, *value),
    {
        let diagnostic = match &value.diagnostic {
            Some(d) => Some(d.clone()),
            None => None,
        };
        ConnectionDto {
            master_status: value.master_status.as_str(),
            control_path: value.control_path.clone(),
            master_pid: value.master_pid,
            diagnostic,
            stopped: value.stopped,
        }
    }
}

fn copy_capabilities(c: &Vec<(String, bool)>) -> (r: Vec<(String, bool)>)
    ensures
        capability_view(r@) == capability_view(c@),
{
    let mut out: Vec<(String, bool)> = Vec::new();
    let mut i: usize = 0;
    while i < c.len()
        invariant
            i <= c.len(),
            capability_view(out@) == capability_view(c@.take(i as int)),
        decreases c.len() - i,
    {
        let ghost before = out@;
        let name = c[i].0.clone();
        assert(name@ == c@[i as int].0@);
        out.push((name, c[i].1));
        assert(c@.take(i + 1) =~= c@.take(i as int).push(c@[i as int]));
        assert(capability_view(out@) =~= capability_view(before).push((c@[i as int].0@, c@[i as int].1)));
        assert(capability_view(c@.take(i + 1)) =~= capability_view(c@.take(i as int)).push(
            (c@[i as int].0@, c@[i as int].1),
        ));
        i = i + 1;
    }
    assert(c@.take(c.len() as int) =~= c@);
    out
}

fn doctor_data(report: &Report) -> (r: DoctorDto)
    ensures
        doctor_dto_is(r, *report),
{
    DoctorDto {
        host: report.host.clone(),
        os: report.os.clone(),
        kernel: report.kernel.clone(),
        arch: report.arch.clone(),
        user: report.user.clone(),
        home: report.home.clone(),
        login_shell: report.login_shell.clone(),
        state_dir: report.state_dir.clone(),
        online: report.online,
        state_dir_writable: report.state_dir_writable,
        wsl: report.wsl,
        capabilities: copy_capabilities(&report.capabilities),
        connection: ConnectionDto::from_probe(&report.connection),
        connection_reused: report.connection_reused,
    }
}

/// A doctor run that answered: the report, for the host it names.
pub fn doctor(report: &Report) -> (r: Envelope<DoctorDto>)
    ensures
        r.schema_version == 2,
        r.operation@ == "doctor"@,
        r.ok,
        r.host matches Some(h) && h@ == report.host@,
        r.error is None,
        doctor_dto_is(r.data, *report),
{
    Envelope {
        schema_version: 2,
        operation: "doctor",
        ok: true,
        host: Some(report.host.clone()),
        error: None,
        data: doctor_data(report),
    }
}

/// A doctor run whose probe failed still reports what it knew, so the data
/// object is delivered alongside the error the probe's execution gives.
pub fn doctor_failure(report: &Report, outcome: &ExecOutcome) -> (r: Envelope<DoctorDto>)
    ensures
        r.schema_version == 2,
        r.operation@ == "doctor"@,
        !r.ok,
        r.host matches Some(h) && h@ == report.host@,
        match outcome.failure {
            Some(f) => error_is(r.error, spec_exec_error(f).0, spec_exec_error(f).1, spec_exec_error(f).2),
            None => r.error is None,
        },
        doctor_dto_is(r.data, *report),
{
    let answered = exec(report.host.as_str(), outcome);
    Envelope {
        schema_version: 2,
        operation: "doctor",
        ok: false,
        host: Some(report.host.clone()),
        error: answered.error,
        data: doctor_data(report),
    }
}

} // verus!
