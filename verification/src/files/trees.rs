//! Whole trees: `sync` pushes a local directory, `mirror` pulls a remote one.
//!
//! Nothing is deleted unless `--delete` was asked for, and a destructive sync
//! is refused twice: once from the text the caller typed and once from what
//! the path actually resolves to. Asking the remote host (or the local file
//! system) what a path resolves to, checking that rsync is there, and running
//! it belong to the program around the library; every decision in between is
//! here, in the order the operation takes them.
use vstd::prelude::*;
use crate::fileops::args::{local_arg, outer_quotes, spec_local_arg, validate_remote_path};
use crate::fileops::debug_str;
use crate::fileops::sync::{plan_view, pull_args, push_args, reject_sync_target, spec_pull, spec_push, spec_sync_target, SyncPlan, SyncPlanView, SyncRequest};
use crate::fileops::{Refusal, RefusalView};
use crate::files::ops::{error_is, validation, SyncOptions};
use crate::remote::Error;
use crate::text::{chars_of, string_views, trim, trim_chars};

verus! {

/// `e` is the error a refusal decided before anything ran is reported as.
pub open spec fn validation_is(e: Error, f: RefusalView) -> bool {
    match f {
        RefusalView::InvalidPath(m) => error_is(e, "CONFIG_INVALID"@, m),
        RefusalView::Rejected(m) => error_is(e, "SYNC_REJECTED"@, m),
    }
}

/// A remote path the caller typed with its own shell's quotes still on it.
pub open spec fn spec_path_check(path: Seq<char>) -> Result<(), RefusalView> {
    if outer_quotes(vstd::utf8::encode_utf8(path)) {
        Err(RefusalView::InvalidPath("remote path "@ + debug_str(path)
            + " includes outer shell quotes; quote the argument without making quotes part of the path"@))
    } else {
        Ok(())
    }
}

/// The request a push or a mirror hands to the rsync plan.
pub open spec fn request_is(req: SyncRequest, host: Seq<char>, source: Seq<char>, destination: Seq<char>, options: SyncOptions) -> bool {
    &&& req.host@ == host
    &&& req.source@ == source
    &&& req.destination@ == destination
    &&& req.delete == options.delete
    &&& req.dry_run == options.dry_run
    &&& string_views(req.excludes@) == string_views(options.excludes@)
}

fn copy_strings(v: &[String]) -> (r: Vec<String>)
    ensures
        string_views(r@) == string_views(v@),
{
    let mut out: Vec<String> = Vec::new();
    let mut i: usize = 0;
    while i < v.len()
        invariant
            i <= v.len(),
            string_views(out@) == string_views(v@).take(i as int),
        decreases v.len() - i,
    {
        out.push(v[i].clone());
        assert(string_views(v@).take(i + 1) =~= string_views(v@).take(i as int).push(v@[i as int]@));
        assert(string_views(out@) =~= string_views(v@).take(i + 1));
        i = i + 1;
    }
    assert(string_views(v@).take(v.len() as int) =~= string_views(v@));
    out
}

/// The plan a push starts from: the destination as typed must not carry
/// shell quotes, the local source is made safe for rsync, and the rsync argv
/// is built for the destination as typed. The request comes back too, because
/// a destructive sync is planned again once the remote host said what the
/// destination resolves to.
pub fn sync_plan(options: &SyncOptions, ssh_options: &[String]) -> (r: Result<(SyncRequest, SyncPlan), Error>)
    ensures
        match spec_path_check(options.destination@) {
            Err(f) => r matches Err(e) && validation_is(e, f),
            Ok(()) => match spec_local_arg(options.source@) {
                Err(f) => r matches Err(e) && validation_is(e, f),
                Ok(local) => match spec_push(options.host@, local, options.destination@, options.delete,
                    options.dry_run, string_views(options.excludes@), string_views(ssh_options@)) {
                    Err(f) => r matches Err(e) && validation_is(e, f),
                    Ok(p) => r matches Ok((req, plan)) && request_is(req, options.host@, local,
                        options.destination@, *options) && plan@ == p,
                },
            },
        },
{
    match validate_remote_path(options.destination) {
        Err(f) => return Err(validation(f)),
        Ok(()) => {},
    }
    let local = match local_arg(options.source) {
        Err(f) => return Err(validation(f)),
        Ok(local) => local,
    };
    let request = SyncRequest {
        host: String::from_str(options.host),
        source: local,
        destination: String::from_str(options.destination),
        delete: options.delete,
        dry_run: options.dry_run,
        excludes: copy_strings(options.excludes),
    };
    match push_args(&request, ssh_options) {
        Err(f) => Err(validation(f)),
        Ok(plan) => Ok((request, plan)),
    }
}

/// A destructive push planned again for the destination the remote host
/// resolved the typed one to: that is what `--delete` will prune, so that is
/// what the guard judges.
pub fn resolved_sync_plan(request: SyncRequest, actual: String, ssh_options: &[String]) -> (r: Result<SyncPlan, Error>)
    ensures
        match spec_push(request.host@, request.source@, actual@, request.delete, request.dry_run,
            string_views(request.excludes@), string_views(ssh_options@)) {
            Err(f) => r matches Err(e) && validation_is(e, f),
            Ok(p) => r matches Ok(plan) && plan@ == p,
        },
{
    let mut request = request;
    request.destination = actual;
    match push_args(&request, ssh_options) {
        Err(f) => Err(validation(f)),
        Ok(plan) => Ok(plan),
    }
}

/// The plan with `--checksum` in front when the caller asked to compare
/// contents rather than sizes and times.
pub fn with_checksum(plan: SyncPlan, checksum: bool) -> (r: SyncPlan)
    ensures
        r@ == (if checksum {
            SyncPlanView { args: seq!["--checksum"@] + plan@.args, ..plan@ }
        } else {
            plan@
        }),
{
    if !checksum {
        return plan;
    }
    let mut plan = plan;
    let ghost before = string_views(plan.args@);
    plan.args.insert(0, String::from_str("--checksum"));
    assert(string_views(plan.args@) =~= seq!["--checksum"@] + before);
    plan
}

/// A mirror's local destination, judged as typed (made absolute).
pub fn mirror_target(local: &str, delete: bool) -> (r: Result<(), Error>)
    ensures
        match spec_sync_target(local@, delete) {
            Err(f) => r matches Err(e) && validation_is(e, f),
            Ok(()) => r is Ok,
        },
{
    match reject_sync_target(local, delete) {
        Err(f) => Err(validation(f)),
        Ok(()) => Ok(()),
    }
}

/// A destructive mirror's destination as the file system resolved it: never
/// the caller's home directory itself, and otherwise the same guard.
pub fn mirror_resolved(actual: &str, home: Option<&str>) -> (r: Result<(), Error>)
    ensures
        (home matches Some(h) && h@ == actual@) ==> (r matches Err(e) && error_is(e, "SYNC_REJECTED"@,
            "--delete refuses an entire home directory; mirror into a subdirectory"@)),
        !(home matches Some(h) && h@ == actual@) ==> match spec_sync_target(actual@, true) {
            Err(f) => r matches Err(e) && validation_is(e, f),
            Ok(()) => r is Ok,
        },
{
    if let Some(h) = home {
        let a = chars_of(actual);
        let b = chars_of(h);
        if a.len() == b.len() && crate::text::chars_eq(a.as_slice(), b.as_slice()) {
            return Err(Error::new("SYNC_REJECTED", "--delete refuses an entire home directory; mirror into a subdirectory"));
        }
    }
    mirror_target(actual, true)
}

/// A mirror needs a remote directory to read from.
pub fn mirror_source(options: &SyncOptions) -> (r: Result<(), Error>)
    ensures
        trim(options.source@).len() == 0 ==> (r matches Err(e) && error_is(e, "CONFIG_INVALID"@,
            "a mirror needs a remote source directory"@)),
        trim(options.source@).len() > 0 ==> r is Ok,
{
    let s = chars_of(options.source);
    let t = trim_chars(s.as_slice());
    if t.len() == 0 {
        Err(Error::new("CONFIG_INVALID", "a mirror needs a remote source directory"))
    } else {
        Ok(())
    }
}

/// The rsync plan that pulls the remote source into `local`.
pub fn mirror_plan(options: &SyncOptions, local: String, ssh_options: &[String]) -> (r: Result<SyncPlan, Error>)
    ensures
        match spec_pull(options.host@, options.source@, local@, options.delete, options.dry_run,
            string_views(options.excludes@), string_views(ssh_options@)) {
            Err(f) => r matches Err(e) && validation_is(e, f),
            Ok(p) => r matches Ok(plan) && plan@ == p,
        },
{
    let request = SyncRequest {
        host: String::from_str(options.host),
        source: String::from_str(options.source),
        destination: local,
        delete: options.delete,
        dry_run: options.dry_run,
        excludes: copy_strings(options.excludes),
    };
    match pull_args(&request, ssh_options) {
        Err(f) => Err(validation(f)),
        Ok(plan) => Ok(plan),
    }
}

} // verus!
