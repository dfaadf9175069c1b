use rhost::fileops::remote::Edit;
use rhost::files::patch::check_patch;
use rhost::output::tunnel::tunnel_failure;
use rhost::tunnel::record::Fault;

/// The crate's document check, answering with the error code.
fn parse_patch_document(document: &[u8], override_hash: Option<&str>) -> Result<(Vec<Edit>, Option<String>), &'static str> {
    rhost::files::patch::parse_patch_document(document, override_hash).map_err(|error| error.code)
}

#[test]
fn a_valid_document_carries_its_hash_and_edits_in_order() -> Result<(), String> {
    let document = br#"{"extra":true,"sha256":"a","edits":[
        {"start":3,"end":3,"text":"late\n"},
        {"start":1,"end":2,"text":"early\n"}
    ]}"#;
    let (edits, hash) = parse_patch_document(document, None).map_err(str::to_string)?;
    assert_eq!(hash.as_deref(), Some("a"));
    assert_eq!(edits.len(), 2);
    assert_eq!(edits[0].start, 3);
    assert_eq!(edits[1].start, 1);
    Ok(())
}

#[test]
fn an_explicit_hash_overrides_the_document() -> Result<(), String> {
    let document = br#"{"sha256":"old","edits":[{"start":1,"end":1,"text":"x"}]}"#;
    let (_, hash) = parse_patch_document(document, Some("fresh")).map_err(str::to_string)?;
    assert_eq!(hash.as_deref(), Some("fresh"));
    Ok(())
}

#[test]
fn document_structure_keeps_the_existing_config_answer() {
    for (document, wanted) in [
        (br#"{"edits":[]}"#.as_slice(), "CONFIG_INVALID"),
        (br#"{"edits":{}}"#.as_slice(), "CONFIG_INVALID"),
        (br#"{"edits":[{"start":1,"end":1,"text":"x"}]}"#.as_slice(), "CONFIG_INVALID"),
    ] {
        let error = parse_patch_document(document, None).err();
        assert_eq!(error, Some(wanted));
    }
}

#[test]
fn malformed_edit_ranges_are_patch_answers_before_any_remote_call() {
    for document in [
        br#"{"sha256":"a","edits":[{"start":1,"end":1}]}"#.as_slice(),
        br#"{"sha256":"a","edits":[{"start":1,"end":1,"text":true}]}"#.as_slice(),
        br#"{"sha256":"a","edits":[{"start":true,"end":1,"text":"x"}]}"#.as_slice(),
        br#"{"sha256":"a","edits":[{"start":2,"end":1,"text":"x"}]}"#.as_slice(),
        br#"{"sha256":"a","edits":[{"start":1,"end":2,"text":"a"},{"start":2,"end":3,"text":"b"}]}"#.as_slice(),
    ] {
        let error = parse_patch_document(document, None).err();
        assert_eq!(error, Some("INVALID_PATCH"));
    }
}

#[test]
fn the_first_problem_decides_the_message() {
    let edit = |start, end| Some(Edit { start, end, text: String::new() });
    let undecoded = check_patch(Some(vec![edit(1, 1), None, edit(0, 1)]), Some("h".into()), None);
    assert_eq!(undecoded.err().map(|e| e.message), Some("each edit needs only start, end and text".to_string()));
    let zero = check_patch(Some(vec![edit(0, 1), None]), Some("h".into()), None);
    assert_eq!(
        zero.err().map(|e| e.message),
        Some("edits must be non-overlapping 1-based inclusive ranges inside the file".to_string())
    );
    let empty_override = check_patch(Some(vec![edit(1, 1)]), Some("doc".into()), Some(""));
    assert_eq!(empty_override.ok().map(|(_, hash)| hash), Some(Some("doc".to_string())));
    let no_hash = check_patch(Some(vec![edit(1, 1)]), Some(String::new()), None);
    assert_eq!(
        no_hash.err().map(|e| e.message),
        Some("patch document has no sha256: read the file first and carry its hash".to_string())
    );
    let apart = check_patch(Some(vec![edit(5, 9), edit(1, 4), edit(10, 10)]), Some("h".into()), None);
    assert_eq!(apart.ok().map(|(edits, _)| edits.len()), Some(3));
}

#[test]
fn a_tunnel_fault_maps_to_one_code() {
    let refused = tunnel_failure("tunnel.open", "gpu", Fault::Invalid("bad".into()));
    let payload = refused.error.unwrap_or_else(|| panic!("a fault carries an error"));
    assert_eq!((payload.code, payload.message.as_str(), payload.retryable), ("CONFIG_INVALID", "bad", false));
    assert_eq!(refused.host.as_deref(), Some("gpu"));
    let gone = tunnel_failure("tunnel.close", "", Fault::NotFound("no".into()));
    assert_eq!(gone.error.map(|e| e.code), Some("TUNNEL_NOT_FOUND"));
    assert!(gone.host.is_none());
    let flaky = tunnel_failure("tunnel.list", "", Fault::Transport("t".into()));
    assert_eq!(flaky.error.map(|e| (e.code, e.retryable)), Some(("TUNNEL_FAILED", true)));
    let unsure = tunnel_failure("tunnel.open", "gpu", Fault::Uncertain("u".into()));
    assert_eq!(unsure.error.map(|e| (e.code, e.retryable)), Some(("TUNNEL_FAILED", false)));
}

#[test]
fn a_document_that_is_not_json_is_a_config_answer() {
    let error = rhost::files::patch::parse_patch_document(b"{\"edits\": [", None).err();
    let (code, message) = error.map(|e| (e.code, e.message)).unwrap_or_else(|| panic!("not JSON was accepted"));
    assert_eq!(code, "CONFIG_INVALID");
    assert!(message.starts_with("patch document is not valid JSON: "));
}

#[test]
fn an_edit_may_be_written_as_an_array_but_not_with_extra_keys() {
    let (edits, _) = parse_patch_document(br#"{"sha256":"a","edits":[[2,3,"x"]]}"#, None).unwrap_or_else(|e| panic!("{e}"));
    assert_eq!((edits[0].start, edits[0].end, edits[0].text.as_str()), (2, 3, "x"));
    let extra = parse_patch_document(br#"{"sha256":"a","edits":[{"start":1,"end":1,"text":"x","mode":1}]}"#, None);
    assert_eq!(extra.err(), Some("INVALID_PATCH"));
    let short = parse_patch_document(br#"{"sha256":"a","edits":[[1,1]]}"#, None);
    assert_eq!(short.err(), Some("INVALID_PATCH"));
}
