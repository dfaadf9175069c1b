use rhost::host::{first_sighting, first_visit, include_path, matches_component, scan_config, split_keyword, without_home, ConfigEntry};

#[test]
fn keywords_and_globs_are_matched_like_openssh_expects() {
    assert_eq!(split_keyword("Host=a b"), ("Host".into(), "a b".into()));
    assert_eq!(split_keyword("  host   x  "), ("host".into(), "x".into()));
    assert!(matches_component("config.d", "config*"));
    assert!(!matches_component("other", "config*"));
    assert!(matches_component("a", "?"));
    assert!(!matches_component("ab", "?"));
}

#[test]
fn a_config_names_aliases_and_includes_in_order_and_skips_patterns() {
    let entries = scan_config(
        "# comment\nHost alpha\n  HostName a.example\nhost  beta gamma*\nHost=delta\nInclude config.d/*\nInclude broken/[abc]\n",
    );
    assert_eq!(
        entries,
        vec![
            ConfigEntry::Alias("alpha".into()),
            ConfigEntry::Alias("beta".into()),
            ConfigEntry::Alias("delta".into()),
            ConfigEntry::Include("config.d/*".into()),
            ConfigEntry::Include("broken/[abc]".into()),
        ]
    );
    assert_eq!(scan_config("Host !neg ok?\nHOST epsilon\n"), vec![ConfigEntry::Alias("epsilon".into())]);
    assert!(scan_config("").is_empty());
}

#[test]
fn an_alias_is_reported_once() {
    let seen = vec!["alpha".to_string(), "beta".to_string()];
    assert!(!first_sighting(&seen, "beta"));
    assert!(first_sighting(&seen, "gamma"));
    assert!(first_sighting(&[], "alpha"));
}

#[test]
fn without_a_home_nothing_is_complete() {
    let found = without_home();
    assert!(found.hosts.is_empty());
    assert!(!found.config_found);
    assert!(!found.complete);
    assert_eq!(found.warnings, vec!["HOME is unset, so the OpenSSH client config was not read".to_string()]);
}

#[test]
fn only_stars_and_question_marks_are_special() {
    assert!(matches_component("more", "*"));
    assert!(matches_component("", "*"));
    assert!(matches_component("[abc]", "[abc]"));
    assert!(!matches_component("b", "[abc]"));
    assert!(matches_component("config", "config"));
}

#[test]
fn include_patterns_are_rooted_like_openssh_roots_them() {
    assert_eq!(include_path("config.d/*", "/home/dev"), Ok("/home/dev/.ssh/config.d/*".to_string()));
    assert_eq!(include_path("~/extra", "/home/dev"), Ok("/home/dev/extra".to_string()));
    assert_eq!(include_path("/etc/ssh/more", "/home/dev"), Ok("/etc/ssh/more".to_string()));
    assert_eq!(include_path("x", "/home/dev/"), Ok("/home/dev/.ssh/x".to_string()));
    assert_eq!(
        include_path("broken/[abc]", "/home/dev"),
        Err("unsupported Include pattern (only * and ? are matched): broken/[abc]".to_string())
    );
    assert!(include_path("x", "/home/{odd}").is_err());
}

#[test]
fn a_config_file_is_entered_once_and_an_unreadable_one_is_reported() {
    let mut visited: Vec<String> = Vec::new();
    assert!(first_visit(&mut visited, "/home/me/.ssh/config"));
    assert!(first_visit(&mut visited, "/home/me/.ssh/other"));
    assert!(!first_visit(&mut visited, "/home/me/.ssh/config"));
    assert_eq!(visited, vec!["/home/me/.ssh/config".to_string(), "/home/me/.ssh/other".to_string()]);
    let mut discovery = rhost::host::Discovery { hosts: Vec::new(), config_found: true, complete: true, warnings: Vec::new() };
    discovery.unreadable();
    discovery.include_failed("bad include");
    assert!(!discovery.complete && discovery.config_found);
    assert_eq!(discovery.warnings, vec!["could not read an included SSH config file".to_string(), "bad include".to_string()]);
}
