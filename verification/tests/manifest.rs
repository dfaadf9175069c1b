use rhost::files::manifest::read_manifest_text;

fn refusal(text: &str) -> (&'static str, String) {
    match read_manifest_text(text) {
        Ok(entries) => panic!("accepted {} entries", entries.len()),
        Err(error) => (error.code, error.message),
    }
}

#[test]
fn a_manifest_lists_its_entries_in_order_with_default_flags() {
    let entries = read_manifest_text(
        r#"[{"op":"put","source":"a","destination":"/srv/a","checksum":true},
            {"op":"get","source":"/srv/b","destination":"b","resume":true,"extra":1}]"#,
    )
    .unwrap_or_else(|error| panic!("{}", error.message));
    assert_eq!(entries.len(), 2);
    assert_eq!((entries[0].operation, entries[0].source.as_str(), entries[0].destination.as_str()), ("put", "a", "/srv/a"));
    assert!(entries[0].checksum && !entries[0].resume);
    assert_eq!(entries[1].operation, "get");
    assert!(entries[1].resume && !entries[1].checksum);
}

#[test]
fn text_that_is_not_json_is_a_config_answer_with_the_parser_reason() {
    let (code, message) = refusal("[{\"op\":");
    assert_eq!(code, "CONFIG_INVALID");
    assert!(message.starts_with("manifest is not a JSON array of {op,source,destination}: "));
    assert!(message.len() > "manifest is not a JSON array of {op,source,destination}: ".len());
}

#[test]
fn json_that_is_not_an_array_is_refused() {
    assert_eq!(
        refusal(r#"{"op":"put"}"#),
        ("CONFIG_INVALID", "manifest is not a JSON array of {op,source,destination}".to_string())
    );
}

#[test]
fn an_empty_manifest_and_a_bad_row_are_refused() {
    assert_eq!(refusal("[]"), ("CONFIG_INVALID", "manifest lists nothing to do".to_string()));
    assert_eq!(
        refusal(r#"[{"op":"put","source":"a","destination":"b"},{"op":"copy","source":"a","destination":"b"}]"#),
        ("CONFIG_INVALID", "manifest entry 2: op must be put or get".to_string())
    );
    assert_eq!(
        refusal(r#"[{"op":"get","source":7,"destination":"b"}]"#),
        ("CONFIG_INVALID", "manifest entry 1: source and destination are required".to_string())
    );
    let flag = read_manifest_text(r#"[{"op":"put","source":"a","destination":"b","resume":"yes"}]"#)
        .unwrap_or_else(|error| panic!("{}", error.message));
    assert!(!flag[0].resume);
}
