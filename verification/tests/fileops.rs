use rhost::fileops::args::{local_arg, remote_spec, scp_args, split_remote_spec, validate_remote_path, validate_transfer_paths};
use rhost::fileops::changes::{parse_changes, path_base, path_needs_quoting, remote_parent_command, Action, Change};
use rhost::fileops::runner::{clip, first_line_exec, needy_index, transfer_budget_ms, Outcome, Tools, OUTPUT_LIMIT};
use rhost::domain::CancelSignal;
use rhost::fileops::sync::{clean_remote_path, pull_args, push_args, reject_sync_target, remote_shell, SyncRequest};
use rhost::fileops::Refusal;

fn strings(values: &[&str]) -> Vec<String> {
    values.iter().map(|v| v.to_string()).collect()
}

#[test]
fn outer_quotes_are_refused_but_inner_ones_travel() {
    assert_eq!(
        validate_remote_path("'a b'"),
        Err(Refusal::InvalidPath(
            "remote path \"'a b'\" includes outer shell quotes; quote the argument without making quotes part of the path".to_string()
        ))
    );
    assert!(validate_remote_path("\"x\"").is_err());
    assert!(validate_remote_path("it's").is_ok());
    assert!(validate_remote_path("'").is_ok());
}

#[test]
fn remote_specs_bracket_ipv6_hosts_only() {
    assert_eq!(remote_spec("gpu", "/srv"), "gpu:/srv");
    assert_eq!(remote_spec("::1", "/x"), "[::1]:/x");
    assert_eq!(remote_spec("me@fe80::1", "p"), "me@[fe80::1]:p");
    assert_eq!(remote_spec("[::1]", "p"), "[::1]:p");
    assert_eq!(split_remote_spec("gpu:/srv/x"), Some(("gpu".to_string(), "/srv/x".to_string())));
    assert_eq!(split_remote_spec("./a:b"), None);
    assert_eq!(split_remote_spec(":x"), None);
    assert_eq!(split_remote_spec("[::1]:/p"), Some(("[::1]".to_string(), "/p".to_string())));
    assert_eq!(split_remote_spec("[::1]"), None);
    assert_eq!(split_remote_spec("plain"), None);
}

#[test]
fn local_operands_never_read_as_options_or_hosts() {
    assert_eq!(local_arg("-x"), Ok("./-x".to_string()));
    assert_eq!(local_arg("a:b"), Ok("./a:b".to_string()));
    assert_eq!(local_arg("/abs:x"), Ok("/abs:x".to_string()));
    assert_eq!(local_arg("."), Ok(".".to_string()));
    assert_eq!(local_arg("plain"), Ok("plain".to_string()));
    assert_eq!(local_arg(""), Err(Refusal::Rejected("empty local path".to_string())));
    assert!(local_arg("a\nb").is_err());
}

#[test]
fn one_file_copies_refuse_globs_and_the_root() {
    assert!(validate_transfer_paths("gpu:/a*", "x").is_err());
    assert_eq!(
        validate_transfer_paths("a", "gpu:/"),
        Err(Refusal::Rejected("destination path \"/\" is the filesystem root".to_string()))
    );
    assert_eq!(validate_transfer_paths("  ", "x"), Err(Refusal::Rejected("empty source path".to_string())));
    assert!(validate_transfer_paths("a", "gpu:/srv/b").is_ok());
    assert_eq!(
        scp_args("a", "gpu:/b", &strings(&["-o", "X"])),
        Ok(strings(&["-o", "X", "-q", "a", "gpu:/b"]))
    );
    assert_eq!(
        scp_args("-a", "gpu:/b", &[]),
        Err(Refusal::Rejected("path \"-a\" starts with a dash; prefix it with ./".to_string()))
    );
}

#[test]
fn remote_paths_are_cleaned_before_they_are_judged() {
    assert_eq!(clean_remote_path("/tmp/../"), "/");
    assert_eq!(clean_remote_path("a//b/./c/.."), "a/b");
    assert_eq!(clean_remote_path(""), ".");
    assert_eq!(clean_remote_path("../x"), "../x");
    assert_eq!(clean_remote_path("/.."), "/");
    assert!(reject_sync_target("~", true).is_err());
    assert!(reject_sync_target("~/proj", true).is_ok());
    assert!(reject_sync_target("~", false).is_ok());
    assert!(reject_sync_target("/srv", true).is_err());
    assert!(reject_sync_target("/srv/a", true).is_ok());
    assert!(reject_sync_target(".", false).is_err());
    assert!(reject_sync_target("/tmp/../", false).is_err());
}

#[test]
fn a_push_transfers_the_contents_of_its_source() {
    let request = SyncRequest {
        host: "gpu".to_string(),
        source: "src".to_string(),
        destination: "~/dst".to_string(),
        delete: false,
        dry_run: true,
        excludes: strings(&["*.o"]),
    };
    let plan = push_args(&request, &strings(&["-o", "ControlPath=/tmp/x y"])).unwrap_or_else(|r| panic!("{r:?}"));
    assert_eq!(
        plan.args,
        strings(&[
            "--recursive",
            "--times",
            "--no-owner",
            "--no-group",
            "--no-perms",
            "--dry-run",
            "--exclude",
            "*.o",
            "--itemize-changes",
            "--out-format=RHOSTSYNC|%i|%n",
            "-e",
            "ssh -o 'ControlPath=/tmp/x y'",
            "src/",
            "gpu:~/dst",
        ])
    );
    assert_eq!(plan.source, "src/");
    assert_eq!(plan.destination, "gpu:~/dst");
    assert!(plan.multiplexed);
}

#[test]
fn a_pull_guards_the_local_side_and_names_the_remote_contents() {
    let request = SyncRequest {
        host: "gpu".to_string(),
        source: "~/remote/".to_string(),
        destination: "local".to_string(),
        delete: true,
        dry_run: false,
        excludes: Vec::new(),
    };
    let plan = pull_args(&request, &[]).unwrap_or_else(|r| panic!("{r:?}"));
    assert_eq!(plan.source, "gpu:~/remote/");
    assert_eq!(plan.destination, "local");
    assert!(!plan.multiplexed);
    assert!(plan.args.contains(&"--delete".to_string()));
    assert_eq!(plan.args[plan.args.len() - 3..], strings(&["ssh", "gpu:~/remote/", "local"]));
    let bad_exclude = SyncRequest { excludes: strings(&["a\nb"]), ..request };
    assert!(pull_args(&bad_exclude, &[]).is_err());
}

#[test]
fn an_option_rsync_cannot_carry_drops_multiplexing() {
    assert_eq!(remote_shell(&[]), ("ssh".to_string(), false));
    assert_eq!(remote_shell(&strings(&["-o", "A=it's x"])), ("ssh".to_string(), false));
    assert_eq!(remote_shell(&strings(&["-S", "/p"])), ("ssh -S /p".to_string(), true));
}

#[test]
fn rsync_itemized_output_becomes_changes() {
    let (changes, other) = parse_changes(
        "RHOSTSYNC|>f+++++++++|a.txt\nRHOSTSYNC|.d..t......|dir/\n*deleting   old.txt\nsent 10 bytes\r\nRHOSTSYNC|>f.st......|b|c\nRHOSTSYNC|cL+++++++++|link\nRHOSTSYNC|noseparator\n",
    );
    let change = |action, path: &str, itemize: &str| Change { action, path: path.to_string(), itemize: itemize.to_string() };
    assert_eq!(
        changes,
        vec![
            change(Action::Create, "a.txt", ">f+++++++++"),
            change(Action::Directory, "dir/", ".d..t......"),
            change(Action::Delete, "old.txt", "*deleting"),
            change(Action::Update, "b|c", ">f.st......"),
            change(Action::Skip, "link", "cL+++++++++"),
        ]
    );
    assert_eq!(other, strings(&["sent 10 bytes", "RHOSTSYNC|noseparator"]));
    assert_eq!(Action::Create.as_str(), "create");
}

#[test]
fn a_download_is_named_by_the_last_component() {
    assert_eq!(path_base("gpu:/srv/a.txt"), "a.txt");
    assert_eq!(path_base("dir/"), "dir");
    assert_eq!(path_base("gpu:/"), "rhost-download");
    assert_eq!(path_base("file"), "file");
    assert_eq!(remote_parent_command("/srv/a/b.txt").as_deref(), Some("mkdir -p -- '/srv/a'"));
    assert_eq!(remote_parent_command("b.txt"), None);
    assert_eq!(remote_parent_command("/b"), None);
    assert_eq!(remote_parent_command("dir/sub/").as_deref(), Some("mkdir -p -- 'dir/sub'"));
    assert_eq!(remote_parent_command("~/x/y").as_deref(), Some("mkdir -p -- \"$HOME\"/'x'"));
    assert_eq!(remote_parent_command("./a"), None);
}

#[test]
fn only_shell_syntax_needs_quoting() {
    assert!(!path_needs_quoting("/srv/a_b-c.~"));
    assert!(path_needs_quoting("a b"));
    assert!(!path_needs_quoting("é"));
    assert!(path_needs_quoting("$x"));
}

#[test]
fn an_rsync_remote_path_stays_one_literal() {
    let tools = Tools::default();
    assert_eq!((tools.scp.as_str(), tools.rsync.as_str()), ("scp", "rsync"));
    let args = strings(&["-e", "ssh", "src/", "gpu:/srv/a b"]);
    assert_eq!(needy_index(&args), Some(3));
    let mut protected = strings(&["--protect-args"]);
    protected.extend(args.clone());
    assert_eq!(tools.safe_rsync_paths(&args, true), protected);
    assert_eq!(tools.safe_rsync_paths(&args, false), strings(&["-e", "ssh", "src/", "gpu:'/srv/a b'"]));
    let plain = strings(&["-e", "ssh", "src/", "gpu:/srv/ab"]);
    assert_eq!(needy_index(&plain), None);
    assert_eq!(tools.safe_rsync_paths(&plain, true), plain);
}

fn outcome(stdout: &[u8], stderr: &[u8]) -> Outcome {
    Outcome {
        stdout: stdout.to_vec(),
        stderr: stderr.to_vec(),
        exit: Some(1),
        timed_out: false,
        cancelled: None,
        duration_ms: 5,
        spawn_error: None,
        overflow: false,
    }
}

#[test]
fn a_diagnostic_is_the_first_line_of_the_tools_complaint() {
    assert_eq!(outcome(b"x", b"\n  oops  \nmore").diagnostic(), "oops");
    assert_eq!(outcome(b"\nout line\n", b"  ").diagnostic(), "out line");
    assert_eq!(outcome(b"", b"").diagnostic(), "no diagnostic");
    assert_eq!(outcome(b"", b"\xff").diagnostic(), "\u{FFFD}");
    assert_eq!(outcome(b"a\xffb", b"").stdout_text(), "a\u{FFFD}b");
    assert_eq!(clip("héllo", 2), "h...");
    assert_eq!(clip("abc", 5), "abc");
    assert_eq!(clip(&"x".repeat(301), 300), format!("{}...", "x".repeat(300)));
    assert_eq!(first_line_exec("\r\n  a b \r\nc"), "a b");
}

#[test]
fn a_split_gives_back_the_host_and_path_it_was_built_from() {
    for (host, path) in [("gpu", "/srv/x"), ("me@box", "a:b/[c]"), ("::1", "/p"), ("u@::1", "rel/path"), ("u@fe80::1", "")] {
        let spec = remote_spec(host, path);
        let (h, p) = split_remote_spec(&spec).unwrap_or_else(|| panic!("{spec} did not split"));
        assert_eq!(p, path);
        if host.contains(':') {
            assert_eq!(spec, format!("{h}:{path}"));
            assert_eq!(h.replace(['[', ']'], ""), host);
        } else {
            assert_eq!(h, host);
        }
    }
    assert_eq!(remote_spec("u@::1", "p"), "u@[::1]:p");
    assert_eq!(split_remote_spec("u@[::1]:p"), Some(("u@[::1]".to_string(), "p".to_string())));
}

#[test]
fn a_transfer_without_a_budget_gets_the_default() {
    assert_eq!(transfer_budget_ms(0), 300_000);
    assert_eq!(transfer_budget_ms(1), 1);
    assert_eq!(transfer_budget_ms(45_000), 45_000);
}

#[test]
fn a_run_outcome_maps_stop_signal_and_overflow() {
    let limit = OUTPUT_LIMIT as u64;
    let o = Outcome::from_run(b"out".to_vec(), b"err".to_vec(), 3, 3, Some(0), false, false, Some(CancelSignal::Int), 7, None);
    assert_eq!(o.cancelled, None);
    assert!(!o.overflow);
    assert_eq!(o.exit, Some(0));
    assert_eq!(o.stdout, b"out");
    assert_eq!(o.duration_ms, 7);
    let o = Outcome::from_run(Vec::new(), Vec::new(), limit, limit + 1, None, false, true, None, 1, None);
    assert_eq!(o.cancelled, Some(CancelSignal::Term));
    assert!(o.overflow);
    let o = Outcome::from_run(Vec::new(), Vec::new(), limit, limit, None, true, true, Some(CancelSignal::Int), 1, Some("missing".to_string()));
    assert_eq!(o.cancelled, Some(CancelSignal::Int));
    assert!(!o.overflow && o.timed_out);
    assert_eq!(o.spawn_error.as_deref(), Some("missing"));
}
