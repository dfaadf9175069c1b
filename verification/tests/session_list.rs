use rhost::base64;
use rhost::order::sort_by_key;
use rhost::session::remote::list::{list_entries, ListEntry, ListRecord};
use rhost::session::{protocol, remote, Meta};

/// Reads a record's `meta.json` the way the program around the library does:
/// a document that does not parse is not a session.
fn read_meta(bytes: &[u8]) -> Option<Meta> {
    let value: serde_json::Value = serde_json::from_slice(bytes).ok()?;
    let text = |key: &str| value.get(key).and_then(|v| v.as_str()).map(str::to_string);
    Some(Meta::new(
        &text("id")?,
        &text("name")?,
        &text("initial_cwd").unwrap_or_default(),
        &text("shell")?,
        &text("created_at")?,
    ))
}

fn entries(records: Vec<ListRecord>) -> Vec<ListEntry> {
    let metas = records.iter().map(|record| read_meta(&record.meta)).collect();
    list_entries(records, metas)
}

fn meta_json(id: &str, name: &str) -> String {
    format!(r#"{{"schema_version":1,"id":"{id}","name":"{name}","tmux_session":"rhost_s_{id}","created_at":"now","shell":"bash"}}"#)
}

fn old_line(id: &str, alive: &str, name: &str) -> String {
    format!("RHOST_META\t{id}\t{alive}\t{}\n", base64::encode(meta_json(id, name).as_bytes()))
}

fn new_line(id: &str, alive: &str, name: &str) -> String {
    format!("RHOST_META\t{id}\t{alive}\t{}\t\n", base64::encode(meta_json(id, name).as_bytes()))
}

#[test]
fn protocol_list_keeps_records_sorts_them_and_reports_a_helper_refusal() {
    let stdout = format!(
        "noise\n{}{}{}",
        old_line("s_b", "no", "beta"),
        old_line("s_a", "yes", "alpha"),
        "RHOST_META\ts_bad\tyes\tnot-base64\n"
    );
    let records = protocol::list_records(&stdout).unwrap_or_else(|failure| panic!("{failure:?}"));
    let rows = entries(records);
    assert_eq!(rows.len(), 2);
    assert_eq!(rows[0].id, "s_a");
    assert!(rows[0].alive && rows[0].meta.name == "alpha");
    assert_eq!(rows[1].id, "s_b");
    assert!(!rows[1].alive);
    assert_eq!(protocol::list_records("RHOST_ERR=notmux\n").err(), Some(protocol::HelperFailure::NoTmux));
}

#[test]
fn tests_list_keeps_records_sorts_them_and_reports_a_helper_refusal() {
    let stdout = format!(
        "noise\n{}{}{}",
        new_line("s_b", "no", "beta"),
        new_line("s_a", "yes", "alpha"),
        "RHOST_META\ts_bad\tyes\tnot-base64\n"
    );
    let records = remote::protocol::list_records(&stdout).unwrap_or_else(|failure| panic!("{failure:?}"));
    let rows = entries(records);
    assert_eq!(rows.len(), 2);
    assert_eq!(rows[0].id, "s_a");
    assert!(rows[0].alive && rows[0].meta.name == "alpha");
    assert_eq!(rows[1].id, "s_b");
    assert!(!rows[1].alive);
    assert_eq!(
        remote::protocol::list_records("RHOST_ERR=notmux\n").err(),
        Some(remote::protocol::HelperFailure::NoTmux)
    );
}

fn legacy_meta(id: &str) -> String {
    format!(r#"{{"schema_version":1,"id":"{id}","name":"old","tmux_session":"rhost_s_{id}","created_at":"now","shell":"bash","initial_cwd":"~"}}"#)
}

#[test]
fn a_resolved_cwd_sidecar_is_read_and_a_legacy_record_falls_back() {
    let meta = r#"{"schema_version":1,"id":"s_new","name":"new","tmux_session":"rhost_s_s_new","created_at":"now","shell":"bash","initial_cwd":"~"}"#;
    let line = format!("RHOST_META\ts_new\tyes\t{}\t{}\n", base64::encode(meta.as_bytes()), base64::encode(b"/home/dev"));
    let rows = entries(remote::protocol::list_records(&line).unwrap_or_else(|failure| panic!("{failure:?}")));
    assert_eq!(rows[0].resolved_cwd.as_deref(), Some("/home/dev"));
    let legacy = format!("RHOST_META\ts_old\tyes\t{}\n", base64::encode(legacy_meta("s_old").as_bytes()));
    let rows = entries(remote::protocol::list_records(&legacy).unwrap_or_else(|failure| panic!("{failure:?}")));
    assert_eq!(rows[0].resolved_cwd, None);
    assert_eq!(rows[0].meta.initial_cwd, "~");
}

#[test]
fn a_record_whose_document_does_not_parse_is_dropped() {
    let line = format!(
        "RHOST_META\ts_x\tyes\t{}\nRHOST_META\ts_y\tyes\n{}",
        base64::encode(b"{not json"),
        old_line("s_c", "yes", "c")
    );
    let records = protocol::list_records(&line).unwrap_or_else(|failure| panic!("{failure:?}"));
    assert_eq!(records.len(), 2);
    assert_eq!(records[0].meta, b"{not json");
    let rows = entries(records);
    assert_eq!(rows.len(), 1);
    assert_eq!(rows[0].id, "s_c");
}

#[test]
fn names_sort_by_code_point() {
    let sorted = sort_by_key(vec!["b".to_string(), "B".to_string(), "a".to_string(), "ab".to_string(), "é".to_string(), "".to_string()]);
    assert_eq!(sorted, vec!["", "B", "a", "ab", "b", "é"]);
    assert!(sort_by_key(Vec::<String>::new()).is_empty());
}

#[test]
fn rows_with_the_same_id_keep_the_order_of_their_records() {
    let record = |id: &str, alive: bool, name: &str| ListRecord {
        id: id.to_string(),
        alive,
        meta: meta_json(id, name).into_bytes(),
        resolved_cwd: None,
    };
    let rows = entries(vec![record("b", true, "first"), record("a", false, "x"), record("b", false, "second"), record("b", true, "third")]);
    let seen: Vec<(String, String)> = rows.iter().map(|row| (row.id.clone(), row.meta.name.clone())).collect();
    assert_eq!(
        seen,
        vec![
            ("a".to_string(), "x".to_string()),
            ("b".to_string(), "first".to_string()),
            ("b".to_string(), "second".to_string()),
            ("b".to_string(), "third".to_string()),
        ]
    );
}
