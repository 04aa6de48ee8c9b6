use memoria::ipc::{
    error_message, parse_command, parse_request, read_request, IpcRequest, IpcResponse, RequestError,
};
use memoria::json::{JsonNumber, JsonValue};

fn whole(n: i64) -> JsonValue {
    JsonValue::Number(JsonNumber {
        as_i64: Some(n),
        as_u64: if n >= 0 { Some(n as u64) } else { None },
    })
}

fn big(n: u64) -> JsonValue {
    JsonValue::Number(JsonNumber {
        as_i64: if n <= i64::MAX as u64 { Some(n as i64) } else { None },
        as_u64: Some(n),
    })
}

fn fraction() -> JsonValue {
    JsonValue::Number(JsonNumber { as_i64: None, as_u64: None })
}

fn text(s: &str) -> JsonValue {
    JsonValue::Text(s.to_string())
}

fn object(members: Vec<(&str, JsonValue)>) -> JsonValue {
    JsonValue::Object(members.into_iter().map(|(k, v)| (k.to_string(), v)).collect())
}

fn reason(value: &JsonValue) -> RequestError {
    match read_request(value) {
        Err(rejection) => rejection.error,
        Ok(parsed) => panic!("expected a refusal, got {:?}", parsed),
    }
}

#[test]
fn list_with_limit() {
    let request = object(vec![("cmd", text("list")), ("limit", whole(10))]);
    match read_request(&request) {
        Ok(IpcRequest::List { limit, starred_only }) => {
            assert_eq!(limit, Some(10));
            assert!(!starred_only);
        }
        other => panic!("unexpected {:?}", other),
    }
}

#[test]
fn list_with_args_object() {
    let request = object(vec![
        ("cmd", text("list")),
        ("args", object(vec![("limit", whole(10)), ("starred_only", JsonValue::Bool(true))])),
    ]);
    match read_request(&request) {
        Ok(IpcRequest::List { limit, starred_only }) => {
            assert_eq!(limit, Some(10));
            assert!(starred_only);
        }
        other => panic!("unexpected {:?}", other),
    }
}

#[test]
fn args_take_precedence_over_top_level_fields() {
    let request = object(vec![
        ("cmd", text("list")),
        ("limit", whole(3)),
        ("args", object(vec![("limit", whole(7))])),
    ]);
    assert!(matches!(read_request(&request), Ok(IpcRequest::List { limit: Some(7), .. })));
}

#[test]
fn a_field_missing_from_args_is_read_from_the_top_level() {
    let request = object(vec![
        ("cmd", text("list")),
        ("limit", whole(3)),
        ("args", object(vec![("starred_only", JsonValue::Bool(true))])),
    ]);
    assert!(matches!(
        read_request(&request),
        Ok(IpcRequest::List { limit: Some(3), starred_only: true })
    ));
}

#[test]
fn args_that_are_no_object_are_ignored() {
    let request = object(vec![("cmd", text("list")), ("limit", whole(3)), ("args", whole(1))]);
    assert!(matches!(read_request(&request), Ok(IpcRequest::List { limit: Some(3), .. })));
}

#[test]
fn list_without_fields_has_no_limit() {
    let request = object(vec![("cmd", text("list"))]);
    assert!(matches!(
        read_request(&request),
        Ok(IpcRequest::List { limit: None, starred_only: false })
    ));
}

#[test]
fn a_limit_that_is_no_unsigned_integer_is_no_limit() {
    for bad in [whole(-1), text("5"), fraction(), JsonValue::Null, JsonValue::Bool(true)] {
        let request = object(vec![("cmd", text("gallery")), ("limit", bad)]);
        assert!(matches!(read_request(&request), Ok(IpcRequest::Gallery { limit: None })));
    }
}

#[test]
fn a_limit_beyond_32_bits_wraps() {
    let request = object(vec![("cmd", text("list")), ("limit", big(4294967296 + 5))]);
    assert!(matches!(read_request(&request), Ok(IpcRequest::List { limit: Some(5), .. })));
    let request = object(vec![("cmd", text("list")), ("limit", big(u64::MAX))]);
    assert!(matches!(read_request(&request), Ok(IpcRequest::List { limit: Some(u32::MAX), .. })));
}

#[test]
fn the_command_name_is_read_in_any_case() {
    let request = object(vec![("cmd", text("LIST"))]);
    assert!(matches!(read_request(&request), Ok(IpcRequest::List { .. })));
    let request = object(vec![("cmd", text("Get_Settings"))]);
    assert!(matches!(read_request(&request), Ok(IpcRequest::GetSettings)));
}

#[test]
fn parse_command_takes_the_name_as_it_is() {
    let request = object(vec![]);
    assert!(matches!(parse_command("list", &request), Ok(IpcRequest::List { .. })));
    assert!(matches!(parse_command("LIST", &request), Err(RequestError::UnknownCmd)));
}

#[test]
fn search_needs_a_query_string() {
    let request = object(vec![("cmd", text("search")), ("query", text("hel wor")), ("limit", whole(2))]);
    match read_request(&request) {
        Ok(IpcRequest::Search { query, limit }) => {
            assert_eq!(query, "hel wor");
            assert_eq!(limit, Some(2));
        }
        other => panic!("unexpected {:?}", other),
    }
    assert_eq!(reason(&object(vec![("cmd", text("search"))])), RequestError::SearchRequiresQuery);
    assert_eq!(
        reason(&object(vec![("cmd", text("search")), ("query", whole(1))])),
        RequestError::SearchRequiresQuery
    );
}

#[test]
fn star_needs_id_and_value() {
    let request = object(vec![("cmd", text("star")), ("id", whole(4)), ("value", JsonValue::Bool(true))]);
    assert!(matches!(read_request(&request), Ok(IpcRequest::Star { id: 4, value: true })));
    assert_eq!(
        reason(&object(vec![("cmd", text("star")), ("value", JsonValue::Bool(true))])),
        RequestError::StarRequiresId
    );
    assert_eq!(
        reason(&object(vec![("cmd", text("star")), ("id", whole(4))])),
        RequestError::StarRequiresValue
    );
    assert_eq!(
        reason(&object(vec![("cmd", text("star")), ("id", text("4")), ("value", JsonValue::Bool(true))])),
        RequestError::StarRequiresId
    );
    assert_eq!(
        reason(&object(vec![("cmd", text("star")), ("id", whole(4)), ("value", whole(1))])),
        RequestError::StarRequiresValue
    );
}

#[test]
fn copy_needs_an_id() {
    let request = object(vec![("cmd", text("copy")), ("id", whole(-3))]);
    assert!(matches!(read_request(&request), Ok(IpcRequest::Copy { id: -3 })));
    assert_eq!(reason(&object(vec![("cmd", text("copy"))])), RequestError::CopyRequiresId);
}

#[test]
fn delete_needs_a_non_empty_array_of_integers() {
    let request = object(vec![("cmd", text("delete")), ("ids", JsonValue::Array(vec![whole(1), whole(2)]))]);
    match read_request(&request) {
        Ok(IpcRequest::Delete { ids }) => assert_eq!(ids, vec![1, 2]),
        other => panic!("unexpected {:?}", other),
    }
    assert_eq!(reason(&object(vec![("cmd", text("delete"))])), RequestError::DeleteRequiresIds);
    assert_eq!(
        reason(&object(vec![("cmd", text("delete")), ("ids", whole(1))])),
        RequestError::IdsNotArray
    );
    assert_eq!(
        reason(&object(vec![("cmd", text("delete")), ("ids", JsonValue::Array(vec![]))])),
        RequestError::IdsEmpty
    );
    assert_eq!(
        reason(&object(vec![("cmd", text("delete")), ("ids", JsonValue::Array(vec![whole(1), text("2")]))])),
        RequestError::IdsNotOnlyIntegers
    );
}

#[test]
fn delete_items_takes_an_empty_array() {
    let request = object(vec![("cmd", text("delete_items")), ("ids", JsonValue::Array(vec![]))]);
    match read_request(&request) {
        Ok(IpcRequest::DeleteItems { ids }) => assert!(ids.is_empty()),
        other => panic!("unexpected {:?}", other),
    }
    let request = object(vec![("cmd", text("delete_items")), ("ids", JsonValue::Array(vec![whole(5)]))]);
    match read_request(&request) {
        Ok(IpcRequest::DeleteItems { ids }) => assert_eq!(ids, vec![5]),
        other => panic!("unexpected {:?}", other),
    }
    assert_eq!(
        reason(&object(vec![("cmd", text("delete_items"))])),
        RequestError::DeleteItemsRequiresIds
    );
    assert_eq!(
        reason(&object(vec![("cmd", text("delete_items")), ("ids", text("x"))])),
        RequestError::IdsNotArray
    );
    assert_eq!(
        reason(&object(vec![("cmd", text("delete_items")), ("ids", JsonValue::Array(vec![fraction()]))])),
        RequestError::IdsNotIntegers
    );
}

#[test]
fn commands_without_fields() {
    assert!(matches!(
        read_request(&object(vec![("cmd", text("delete_all_except_starred"))])),
        Ok(IpcRequest::DeleteAllExceptStarred)
    ));
    assert!(matches!(
        read_request(&object(vec![("cmd", text("get_settings"))])),
        Ok(IpcRequest::GetSettings)
    ));
}

#[test]
fn what_is_no_request() {
    assert_eq!(reason(&JsonValue::Array(vec![])), RequestError::NotAnObject);
    assert_eq!(reason(&text("list")), RequestError::NotAnObject);
    assert_eq!(reason(&JsonValue::Null), RequestError::NotAnObject);
    assert_eq!(reason(&object(vec![("limit", whole(1))])), RequestError::MissingCmd);
    assert_eq!(reason(&object(vec![("cmd", whole(1))])), RequestError::CmdNotText);
    assert_eq!(reason(&object(vec![("cmd", text("explode"))])), RequestError::UnknownCmd);
    assert_eq!(reason(&object(vec![("cmd", text(""))])), RequestError::UnknownCmd);
}

#[test]
fn the_command_is_not_read_from_args() {
    let request = object(vec![("args", object(vec![("cmd", text("list"))]))]);
    assert_eq!(reason(&request), RequestError::MissingCmd);
}

#[test]
fn an_unknown_command_is_named_in_lower_case() {
    let request = object(vec![("cmd", text("Explode"))]);
    match read_request(&request) {
        Err(rejection) => {
            assert_eq!(rejection.error, RequestError::UnknownCmd);
            assert_eq!(rejection.message, "unknown cmd: explode");
        }
        Ok(parsed) => panic!("unexpected {:?}", parsed),
    }
}

#[test]
fn error_messages() {
    assert_eq!(error_message(RequestError::NotAnObject, ""), "request must be a JSON object");
    assert_eq!(error_message(RequestError::MissingCmd, ""), "missing cmd");
    assert_eq!(error_message(RequestError::CmdNotText, ""), "cmd must be a string");
    assert_eq!(error_message(RequestError::SearchRequiresQuery, "search"), "search requires query");
    assert_eq!(error_message(RequestError::StarRequiresId, "star"), "star requires id");
    assert_eq!(error_message(RequestError::StarRequiresValue, "star"), "star requires value");
    assert_eq!(error_message(RequestError::CopyRequiresId, "copy"), "copy requires id");
    assert_eq!(error_message(RequestError::DeleteRequiresIds, "delete"), "delete requires ids");
    assert_eq!(
        error_message(RequestError::DeleteItemsRequiresIds, "delete_items"),
        "delete_items requires ids array"
    );
    assert_eq!(error_message(RequestError::IdsNotArray, "delete"), "ids must be an array");
    assert_eq!(error_message(RequestError::IdsEmpty, "delete"), "ids array cannot be empty");
    assert_eq!(
        error_message(RequestError::IdsNotOnlyIntegers, "delete"),
        "ids must contain only integers"
    );
    assert_eq!(
        error_message(RequestError::IdsNotIntegers, "delete_items"),
        "ids must contain integers"
    );
    assert_eq!(error_message(RequestError::UnknownCmd, "foo"), "unknown cmd: foo");
}

#[test]
fn the_first_of_two_members_with_one_key_is_read() {
    let request = object(vec![("cmd", text("copy")), ("id", whole(1)), ("id", whole(2))]);
    assert!(matches!(read_request(&request), Ok(IpcRequest::Copy { id: 1 })));
}

#[test]
fn json_accessors() {
    let value = object(vec![("a", whole(1)), ("b", text("x"))]);
    assert!(matches!(value.get("a"), Some(JsonValue::Number(_))));
    assert!(value.get("c").is_none());
    assert!(whole(1).get("a").is_none());
    assert_eq!(whole(-2).to_i64(), Some(-2));
    assert_eq!(whole(-2).to_u64(), None);
    assert_eq!(big(u64::MAX).to_i64(), None);
    assert_eq!(text("x").to_text(), Some("x"));
    assert_eq!(JsonValue::Bool(false).to_bool(), Some(false));
    assert_eq!(whole(0).to_bool(), None);
    assert!(JsonValue::Array(vec![whole(1)]).to_array().is_some());
    assert!(JsonValue::Null.to_array().is_none());
}

#[test]
fn response_ok_carries_data() {
    let response = IpcResponse::ok(5u32);
    assert!(response.ok);
    assert_eq!(response.data, Some(5));
    assert_eq!(response.error, None);
}

#[test]
fn response_err_carries_the_text() {
    let response: IpcResponse<u32> = IpcResponse::err("boom".to_string());
    assert!(!response.ok);
    assert_eq!(response.data, None);
    assert_eq!(response.error, Some("boom".to_string()));
}

#[test]
fn a_line_of_json_is_read_as_a_request() {
    match parse_request("{\"cmd\":\"list\",\"limit\":10}") {
        Ok(IpcRequest::List { limit, starred_only }) => {
            assert_eq!(limit, Some(10));
            assert!(!starred_only);
        }
        other => panic!("unexpected {:?}", other),
    }
    match parse_request("{\"cmd\":\"list\",\"args\":{\"limit\":10,\"starred_only\":true}}") {
        Ok(IpcRequest::List { limit, starred_only }) => {
            assert_eq!(limit, Some(10));
            assert!(starred_only);
        }
        other => panic!("unexpected {:?}", other),
    }
}

#[test]
fn a_line_with_every_kind_of_value() {
    let line = "{\"cmd\":\"Delete\",\"ids\":[1,-2,3],\"x\":null,\"y\":1.5,\"z\":\"s\",\"w\":false}";
    match parse_request(line) {
        Ok(IpcRequest::Delete { ids }) => assert_eq!(ids, vec![1, -2, 3]),
        other => panic!("unexpected {:?}", other),
    }
    let line = "{\"cmd\":\"delete\",\"ids\":[1,2.5]}";
    match parse_request(line) {
        Err(rejection) => assert_eq!(rejection.error, RequestError::IdsNotOnlyIntegers),
        other => panic!("unexpected {:?}", other),
    }
    let line = "{\"cmd\":\"search\",\"query\":\"caf\\u00e9 \\\"x\\\"\"}";
    match parse_request(line) {
        Ok(IpcRequest::Search { query, limit }) => {
            assert_eq!(query, "caf\u{e9} \"x\"");
            assert_eq!(limit, None);
        }
        other => panic!("unexpected {:?}", other),
    }
}

#[test]
fn a_number_beyond_i64_is_no_id() {
    match parse_request("{\"cmd\":\"copy\",\"id\":18446744073709551615}") {
        Err(rejection) => assert_eq!(rejection.error, RequestError::CopyRequiresId),
        other => panic!("unexpected {:?}", other),
    }
    match parse_request("{\"cmd\":\"list\",\"limit\":18446744073709551615}") {
        Ok(IpcRequest::List { limit, .. }) => assert_eq!(limit, Some(u32::MAX)),
        other => panic!("unexpected {:?}", other),
    }
}

#[test]
fn a_line_that_is_no_json_is_refused() {
    for line in ["", "{", "list", "{\"cmd\":}", "{\"cmd\":\"list\"} trailing"] {
        match parse_request(line) {
            Err(rejection) => {
                assert_eq!(rejection.error, RequestError::InvalidJson);
                assert!(!rejection.message.is_empty());
            }
            other => panic!("unexpected {:?}", other),
        }
    }
}

#[test]
fn a_line_of_json_that_is_no_request_is_refused() {
    match parse_request("[1,2]") {
        Err(rejection) => {
            assert_eq!(rejection.error, RequestError::NotAnObject);
            assert_eq!(rejection.message, "request must be a JSON object");
        }
        other => panic!("unexpected {:?}", other),
    }
    match parse_request("{\"cmd\":\"Frobnicate\"}") {
        Err(rejection) => assert_eq!(rejection.message, "unknown cmd: frobnicate"),
        other => panic!("unexpected {:?}", other),
    }
}

#[test]
fn a_refused_line_is_answered_as_invalid_json() {
    match parse_request("{\"cmd\":\"copy\"}") {
        Err(rejection) => assert_eq!(rejection.response_text(), "invalid json: copy requires id"),
        other => panic!("unexpected {:?}", other),
    }
    match parse_request("{") {
        Err(rejection) => {
            assert!(rejection.response_text().starts_with("invalid json: "));
            assert!(rejection.response_text().len() > "invalid json: ".len());
        }
        other => panic!("unexpected {:?}", other),
    }
}
