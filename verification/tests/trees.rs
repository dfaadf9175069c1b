use rhost::files::ops::SyncOptions;
use rhost::files::trees::{mirror_plan, mirror_resolved, mirror_source, mirror_target, resolved_sync_plan, sync_plan, with_checksum};

fn strings(values: &[&str]) -> Vec<String> {
    values.iter().map(|v| v.to_string()).collect()
}

fn options<'a>(source: &'a str, destination: &'a str, delete: bool, excludes: &'a [String]) -> SyncOptions<'a> {
    SyncOptions { host: "gpu", source, destination, delete, dry_run: false, excludes, checksum: false, timeout_secs: None }
}

#[test]
fn a_push_is_planned_for_the_destination_as_typed() {
    let excludes = strings(&["*.o"]);
    let (request, plan) = sync_plan(&options("-src", "~/dst", false, &excludes), &[]).unwrap_or_else(|e| panic!("{e:?}"));
    assert_eq!(request.source, "./-src");
    assert_eq!(request.destination, "~/dst");
    assert_eq!(request.excludes, excludes);
    assert_eq!(plan.source, "./-src/");
    assert_eq!(plan.destination, "gpu:~/dst");
    let resolved = resolved_sync_plan(request, "/home/dev/dst".to_string(), &[]).unwrap_or_else(|e| panic!("{e:?}"));
    assert_eq!(resolved.destination, "gpu:/home/dev/dst");
}

#[test]
fn a_push_refuses_quotes_and_a_destructive_top_level_target() {
    let quoted = sync_plan(&options("src", "'~/dst'", false, &[]), &[]).err().unwrap_or_else(|| panic!("quotes pass"));
    assert_eq!(quoted.code, "CONFIG_INVALID");
    let top = sync_plan(&options("src", "/srv", true, &[]), &[]).err().unwrap_or_else(|| panic!("top level passes"));
    assert_eq!(top.code, "SYNC_REJECTED");
    let (request, _) = sync_plan(&options("src", "~/proj", true, &[]), &[]).unwrap_or_else(|e| panic!("{e:?}"));
    let resolved_root = resolved_sync_plan(request, "/".to_string(), &[]).err().unwrap_or_else(|| panic!("root passes"));
    assert_eq!(resolved_root.code, "SYNC_REJECTED");
}

#[test]
fn checksum_goes_first() {
    let (_, plan) = sync_plan(&options("src", "~/dst", false, &[]), &[]).unwrap_or_else(|e| panic!("{e:?}"));
    let n = plan.args.len();
    let plan = with_checksum(plan, true);
    assert_eq!(plan.args.len(), n + 1);
    assert_eq!(plan.args[0], "--checksum");
    let (_, plain) = sync_plan(&options("src", "~/dst", false, &[]), &[]).unwrap_or_else(|e| panic!("{e:?}"));
    assert_eq!(with_checksum(plain, false).args.len(), n);
}

#[test]
fn a_mirror_guards_its_local_side() {
    assert!(mirror_target("/home/dev/out", true).is_ok());
    assert_eq!(mirror_target("/home", true).err().map(|e| e.code), Some("SYNC_REJECTED"));
    assert_eq!(
        mirror_resolved("/home/dev", Some("/home/dev")).err().map(|e| e.message),
        Some("--delete refuses an entire home directory; mirror into a subdirectory".to_string())
    );
    assert!(mirror_resolved("/home/dev/out", Some("/home/dev")).is_ok());
    assert_eq!(mirror_source(&options("  ", "/x", false, &[])).err().map(|e| e.code), Some("CONFIG_INVALID"));
    assert!(mirror_source(&options("~/tree", "/x", false, &[])).is_ok());
    let plan = mirror_plan(&options("~/tree", "/x", false, &[]), "/home/dev/out".to_string(), &[]).unwrap_or_else(|e| panic!("{e:?}"));
    assert_eq!(plan.source, "gpu:~/tree/");
    assert_eq!(plan.destination, "/home/dev/out");
}
