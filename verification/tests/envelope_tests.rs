use onepanel_ci::envelope::{
    decode_content, decode_logs, decode_stack_list, decode_unit, decode_upload, find_stack,
    remote_body, HttpOutcome, RemoteError, StackEntry,
};

#[test]
fn paginated_stack_list_is_unwrapped() {
    let body = "{\"code\":200,\"message\":\"ok\",\"data\":{\"items\":[{\"name\":\"a\",\"path\":\"/x\"},{\"name\":\"b\",\"path\":\"/y\"}]}}";
    let items = decode_stack_list(body).unwrap();
    assert_eq!(items.len(), 2);
    assert_eq!(items[0].name.as_deref(), Some("a"));
    assert_eq!(items[1].path.as_deref(), Some("/y"));
}

#[test]
fn bare_array_data_is_accepted_too() {
    let body = "{\"code\":200,\"data\":[{\"name\":\"a\",\"path\":\"/x\"}]}";
    let items = decode_stack_list(body).unwrap();
    assert_eq!(items.len(), 1);
}

#[test]
fn error_codes_carry_code_and_message() {
    let body = "{\"code\":500,\"message\":\"boom\",\"data\":null}";
    assert_eq!(decode_unit(body), Err(RemoteError::Api(500, "boom".to_string())));
}

#[test]
fn missing_message_becomes_unknown_error() {
    let body = "{\"code\":403}";
    assert_eq!(
        decode_unit(body),
        Err(RemoteError::Api(403, "Unknown error".to_string()))
    );
}

#[test]
fn invalid_json_is_a_malformed_envelope() {
    assert_eq!(decode_unit("<html>nope</html>"), Err(RemoteError::Malformed));
    assert_eq!(decode_stack_list(""), Err(RemoteError::Malformed));
}

#[test]
fn scalar_data_is_the_wrong_shape_for_a_listing() {
    let body = "{\"code\":200,\"data\":\"hello\"}";
    assert_eq!(decode_stack_list(body), Err(RemoteError::BadShape));
}

#[test]
fn missing_code_counts_as_success() {
    assert_eq!(decode_unit("{\"data\":null}"), Ok(()));
}

#[test]
fn file_content_is_read_from_the_object() {
    let body = "{\"code\":200,\"data\":{\"content\":\"image: svc:v1\"}}";
    assert_eq!(decode_content(body).unwrap(), "image: svc:v1");
}

#[test]
fn absent_content_reads_as_empty() {
    assert_eq!(decode_content("{\"code\":200,\"data\":{}}").unwrap(), "");
    assert_eq!(decode_content("{\"code\":200}").unwrap(), "");
}

#[test]
fn upload_returns_the_server_path_when_given() {
    let body = "{\"code\":200,\"data\":\"/opt/1panel/tmp/img.tar\"}";
    assert_eq!(
        decode_upload(body, "/opt/1panel/tmp", "img.tar").unwrap(),
        "/opt/1panel/tmp/img.tar"
    );
}

#[test]
fn upload_synthesizes_a_path_when_the_server_returns_none() {
    let body = "{\"code\":200,\"data\":null}";
    assert_eq!(
        decode_upload(body, "/opt/1panel/tmp/", "img.tar").unwrap(),
        "/opt/1panel/tmp/img.tar"
    );
}

#[test]
fn upload_surfaces_application_errors() {
    let body = "{\"code\":500,\"message\":\"disk full\"}";
    assert_eq!(
        decode_upload(body, "/d", "f"),
        Err(RemoteError::Api(500, "disk full".to_string()))
    );
}

#[test]
fn wrapped_logs_are_unwrapped_and_raw_logs_pass_through() {
    assert_eq!(
        decode_logs("{\"code\":200,\"data\":\"line one\\nline two\"}").unwrap(),
        "line one\nline two"
    );
    assert_eq!(decode_logs("plain text logs").unwrap(), "plain text logs");
    assert_eq!(
        decode_logs("{\"code\":500,\"message\":\"no such container\"}"),
        Err(RemoteError::Api(500, "no such container".to_string()))
    );
    // valid JSON without the envelope fields reads as raw logs
    assert_eq!(decode_logs("{\"other\":1}").unwrap(), "{\"other\":1}");
}

#[test]
fn transport_outcomes_map_to_their_errors() {
    assert_eq!(
        remote_body(HttpOutcome::Transport("timed out".to_string())),
        Err(RemoteError::Transport("timed out".to_string()))
    );
    assert_eq!(remote_body(HttpOutcome::Unauthorized), Err(RemoteError::Auth));
    assert_eq!(
        remote_body(HttpOutcome::HttpFailure(502, "bad gateway".to_string())),
        Err(RemoteError::Http(502, "bad gateway".to_string()))
    );
    assert_eq!(
        remote_body(HttpOutcome::Body("{}".to_string())),
        Ok("{}".to_string())
    );
}

#[test]
fn find_stack_takes_the_first_named_entry_with_the_path() {
    let items = vec![
        StackEntry { name: Some("other".to_string()), path: Some("/a".to_string()) },
        StackEntry { name: None, path: Some("/x".to_string()) },
        StackEntry { name: Some("hit".to_string()), path: Some("/x".to_string()) },
        StackEntry { name: Some("late".to_string()), path: Some("/x".to_string()) },
    ];
    let found = find_stack(&items, "/x").unwrap();
    assert_eq!(found.name.as_deref(), Some("hit"));
}

#[test]
fn find_stack_reports_nothing_without_a_match() {
    let items = vec![StackEntry { name: Some("a".to_string()), path: Some("/a".to_string()) }];
    assert!(find_stack(&items, "/x").is_none());
}
