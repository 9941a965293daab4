use mem_cli::db::apply_migrations;
use mem_cli::json::Json;
use mem_cli::mcp::{
    db_open_failure, entity_from_uri, error_response, execute_tool, handle_request,
    initialize_result, resource_contents, resource_payload, resource_specs, success_response,
    tool_call_response, tool_specs, Action, RequestError, ToolError, INTERNAL_ERROR,
    INVALID_PARAMS, METHOD_NOT_FOUND,
};
use rusqlite::Connection;

fn setup_conn() -> Connection {
    let conn = Connection::open_in_memory().expect("open in-memory db");
    apply_migrations(&conn).expect("apply migrations");
    conn
}

fn s(t: &str) -> Json {
    Json::Str(t.to_string())
}

fn obj(members: Vec<(&str, Json)>) -> Json {
    Json::Object(members.into_iter().map(|(k, v)| (k.to_string(), v)).collect())
}

fn request(id: Option<Json>, method: &str, params: Json) -> Json {
    let mut members = vec![("jsonrpc", s("2.0"))];
    if let Some(id) = id {
        members.push(("id", id));
    }
    members.push(("method", s(method)));
    members.push(("params", params));
    obj(members)
}

fn respond(action: Action) -> Json {
    match action {
        Action::Respond(r) => r,
        other => panic!("expected a response, got {other:?}"),
    }
}

#[test]
fn tools_list_contains_v1_tools() {
    let req = request(Some(Json::Int(1)), "tools/list", obj(vec![]));
    let response = respond(handle_request(&req, "0.1.0").expect("handle request"));
    let tools = response
        .get("result")
        .and_then(|r| r.get("tools"))
        .and_then(Json::as_array)
        .expect("tools array");
    assert!(tools
        .iter()
        .any(|t| t.get("name").and_then(Json::as_str) == Some("list_facts")));
    assert!(tools
        .iter()
        .any(|t| t.get("name").and_then(Json::as_str) == Some("doctor")));
}

#[test]
fn add_and_list_fact_tool_flow() {
    let conn = setup_conn();
    let add_result =
        execute_tool(&conn, "add_fact", &obj(vec![("content", s("fact-1"))])).expect("add");
    assert!(add_result.get("id").and_then(Json::as_i64).is_some());

    let list_result = execute_tool(&conn, "list_facts", &obj(vec![])).expect("list");
    let records = list_result
        .get("records")
        .and_then(Json::as_array)
        .expect("records");
    assert_eq!(records.len(), 1);
    assert_eq!(records[0].get("content").and_then(Json::as_str), Some("fact-1"));
}

#[test]
fn tag_and_find_by_tag_flow() {
    let conn = setup_conn();
    let add = execute_tool(&conn, "add_fact", &obj(vec![("content", s("auth fact"))]))
        .expect("add");
    let id = add
        .get("id")
        .and_then(Json::as_i64)
        .expect("id in add response");

    execute_tool(
        &conn,
        "tag_record",
        &obj(vec![
            ("entity", s("facts")),
            ("id", Json::Int(id)),
            ("tags", Json::Array(vec![s("Auth")])),
        ]),
    )
    .expect("tag");
    let found = execute_tool(&conn, "find_by_tag", &obj(vec![("tag", s("auth"))])).expect("find");
    let groups = found
        .get("groups")
        .and_then(Json::as_object)
        .expect("groups object");
    let facts = groups
        .iter()
        .find(|(k, _)| k == "facts")
        .and_then(|(_, v)| v.as_array())
        .expect("facts group");
    assert_eq!(facts.len(), 1);
}

#[test]
fn unknown_tool_returns_invalid_params() {
    let conn = setup_conn();
    let err = execute_tool(&conn, "not_exists", &obj(vec![])).expect_err("expected error");
    match err {
        ToolError::InvalidParams(message) => assert!(message.contains("unknown tool")),
        ToolError::Internal(e) => panic!("unexpected internal error: {}", e.message()),
    }
}

#[test]
fn resources_list_exposes_context_resources() {
    let req = request(Some(Json::Int(1)), "resources/list", obj(vec![]));
    let response = respond(handle_request(&req, "0.1.0").expect("handle request"));
    let resources = response
        .get("result")
        .and_then(|r| r.get("resources"))
        .and_then(Json::as_array)
        .expect("resources array");
    assert!(resources
        .iter()
        .any(|r| r.get("uri").and_then(Json::as_str) == Some("mem://facts")));
    assert!(resources
        .iter()
        .any(|r| r.get("uri").and_then(Json::as_str) == Some("mem://commands")));
}

#[test]
fn notification_gets_no_response() {
    let req = request(None, "notifications/initialized", obj(vec![]));
    assert!(matches!(handle_request(&req, "0.1.0"), Ok(Action::Ignore)));
    let req = request(None, "tools/list", obj(vec![]));
    assert!(matches!(handle_request(&req, "0.1.0"), Ok(Action::Ignore)));
}

#[test]
fn request_without_method_is_refused() {
    let req = obj(vec![("jsonrpc", s("2.0")), ("id", Json::Int(3))]);
    assert!(matches!(handle_request(&req, "0.1.0"), Err(RequestError::MissingMethod)));
    let req = obj(vec![("id", Json::Int(3)), ("method", Json::Int(7))]);
    assert!(matches!(handle_request(&req, "0.1.0"), Err(RequestError::MissingMethod)));
}

#[test]
fn unknown_method_is_method_not_found() {
    let req = request(Some(Json::Int(9)), "bogus/method", obj(vec![]));
    let response = respond(handle_request(&req, "0.1.0").unwrap());
    let error = response.get("error").expect("error");
    assert_eq!(error.get("code").and_then(Json::as_i64), Some(METHOD_NOT_FOUND));
    assert_eq!(
        error.get("message").and_then(Json::as_str),
        Some("method not found: bogus/method")
    );
    assert_eq!(response.get("id").and_then(Json::as_i64), Some(9));
    assert_eq!(response.get("jsonrpc").and_then(Json::as_str), Some("2.0"));
}

#[test]
fn initialize_reports_protocol_and_server() {
    let req = request(Some(s("a")), "initialize", obj(vec![]));
    let response = respond(handle_request(&req, "1.2.3").unwrap());
    let result = response.get("result").expect("result");
    assert_eq!(
        result.get("protocolVersion").and_then(Json::as_str),
        Some("2024-11-05")
    );
    let info = result.get("serverInfo").expect("serverInfo");
    assert_eq!(info.get("name").and_then(Json::as_str), Some("mem-cli"));
    assert_eq!(info.get("version").and_then(Json::as_str), Some("1.2.3"));
    assert_eq!(response.get("id").and_then(Json::as_str), Some("a"));
    let direct = initialize_result("1.2.3");
    assert_eq!(direct.get("serverInfo").and_then(|i| i.get("version")).and_then(Json::as_str), Some("1.2.3"));
}

#[test]
fn tools_call_is_handed_to_the_tool_runner() {
    let req = request(
        Some(Json::Int(5)),
        "tools/call",
        obj(vec![("name", s("ping")), ("arguments", obj(vec![]))]),
    );
    match handle_request(&req, "0.1.0").unwrap() {
        Action::CallTool { id, name, args } => {
            assert_eq!(id.and_then(|i| i.as_i64()), Some(5));
            assert_eq!(name, "ping");
            assert!(args.as_object().map(|m| m.is_empty()).unwrap_or(false));
        }
        other => panic!("expected a tool call, got {other:?}"),
    }
    let req = request(Some(Json::Int(6)), "tools/call", obj(vec![("name", s(""))]));
    let response = respond(handle_request(&req, "0.1.0").unwrap());
    let error = response.get("error").expect("error");
    assert_eq!(error.get("code").and_then(Json::as_i64), Some(INVALID_PARAMS));
    assert_eq!(
        error.get("message").and_then(Json::as_str),
        Some("tools/call requires non-empty field: name")
    );
}

#[test]
fn resources_read_checks_uri() {
    let req = request(
        Some(Json::Int(1)),
        "resources/read",
        obj(vec![("uri", s("mem://decisions"))]),
    );
    match handle_request(&req, "0.1.0").unwrap() {
        Action::ReadResource { uri, entity, .. } => {
            assert_eq!(uri, "mem://decisions");
            assert_eq!(entity, "decisions");
        }
        other => panic!("expected a resource read, got {other:?}"),
    }
    let req = request(Some(Json::Int(1)), "resources/read", obj(vec![("uri", s("mem://x"))]));
    let response = respond(handle_request(&req, "0.1.0").unwrap());
    assert_eq!(
        response.get("error").and_then(|e| e.get("message")).and_then(Json::as_str),
        Some("unknown resource uri: mem://x")
    );
    let req = request(Some(Json::Int(1)), "resources/read", Json::Array(vec![]));
    let response = respond(handle_request(&req, "0.1.0").unwrap());
    assert_eq!(
        response.get("error").and_then(|e| e.get("message")).and_then(Json::as_str),
        Some("resources/read params must be an object")
    );
    assert_eq!(entity_from_uri("mem://modules"), Some("modules"));
    assert_eq!(entity_from_uri("mem://tags"), None);
}

#[test]
fn listed_tools_are_all_known() {
    let conn = setup_conn();
    let tools = tool_specs();
    assert_eq!(tools.len(), 13);
    for t in &tools {
        let name = t.get("name").and_then(Json::as_str).expect("name");
        assert!(t.get("description").and_then(Json::as_str).is_some());
        assert!(t.get("inputSchema").and_then(Json::as_object).is_some());
        if let Err(ToolError::InvalidParams(m)) = execute_tool(&conn, name, &obj(vec![])) {
            assert!(!m.starts_with("unknown tool"), "{name} is listed but unknown");
        }
    }
    assert_eq!(resource_specs().len(), 4);
}

#[test]
fn tool_arguments_are_checked() {
    let conn = setup_conn();
    let err = execute_tool(&conn, "add_fact", &obj(vec![])).unwrap_err();
    assert!(matches!(err, ToolError::InvalidParams(m) if m == "missing or invalid field: content"));
    let err = execute_tool(&conn, "add_fact", &Json::Array(vec![])).unwrap_err();
    assert!(matches!(err, ToolError::InvalidParams(m) if m == "tool arguments must be an object"));
    let err = execute_tool(
        &conn,
        "tag_record",
        &obj(vec![("entity", s("users")), ("id", Json::Int(1)), ("tags", Json::Array(vec![s("a")]))]),
    )
    .unwrap_err();
    assert!(matches!(err, ToolError::InvalidParams(m) if m == "unknown entity: users"));
}

#[test]
fn tool_call_response_wraps_result() {
    let conn = setup_conn();
    let r = tool_call_response(&conn, Some(Json::Int(2)), "ping", &obj(vec![]));
    let result = r.get("result").expect("result");
    assert_eq!(result.get("isError").and_then(Json::as_bool), Some(false));
    let structured = result.get("structuredContent").expect("structured");
    assert_eq!(structured.get("message").and_then(Json::as_str), Some("pong"));
    let r = tool_call_response(&conn, Some(Json::Int(2)), "nope", &obj(vec![]));
    let e = r.get("error").expect("error");
    assert_eq!(e.get("code").and_then(Json::as_i64), Some(INVALID_PARAMS));
    assert_eq!(e.get("message").and_then(Json::as_str), Some("unknown tool: nope"));
}

#[test]
fn resource_read_pieces() {
    let conn = setup_conn();
    execute_tool(&conn, "add_command", &obj(vec![("content", s("make"))])).unwrap();
    let payload = resource_payload(&conn, "commands").unwrap();
    assert_eq!(payload.get("entity").and_then(Json::as_str), Some("commands"));
    let records = payload.get("records").and_then(Json::as_array).unwrap();
    assert_eq!(records.len(), 1);
    assert!(resource_payload(&conn, "tags").is_err());
    let r = resource_contents(Some(Json::Int(4)), "mem://commands", "{}");
    let contents = r.get("result").and_then(|x| x.get("contents")).and_then(Json::as_array).unwrap();
    assert_eq!(contents[0].get("mimeType").and_then(Json::as_str), Some("application/json"));
    assert_eq!(contents[0].get("text").and_then(Json::as_str), Some("{}"));
}

#[test]
fn responses_carry_id_or_null() {
    let ok = success_response(None, Json::Bool(true));
    assert!(matches!(ok.get("id"), Some(Json::Null)));
    let err = error_response(Some(Json::Int(8)), INTERNAL_ERROR, "boom");
    assert_eq!(err.get("id").and_then(Json::as_i64), Some(8));
    let f = db_open_failure(Some(Json::Int(1)), "disk");
    assert_eq!(
        f.get("error").and_then(|e| e.get("message")).and_then(Json::as_str),
        Some("failed to open DB: disk")
    );
}

#[test]
fn refused_tags_are_answered_with_the_tag_error() {
    let conn = setup_conn();
    match execute_tool(&conn, "find_by_tag", &obj(vec![("tag", s("bad tag!"))])) {
        Err(ToolError::Internal(e)) => {
            assert_eq!(e.message(), "invalid tag \"bad tag!\": allowed characters are [a-z0-9._-]")
        }
        other => panic!("unexpected {other:?}"),
    }
    let args = obj(vec![("entity", s("facts")), ("id", Json::Int(1)), ("tag", s("   "))]);
    match execute_tool(&conn, "untag_record", &args) {
        Err(ToolError::Internal(e)) => assert_eq!(e.message(), "empty tag"),
        other => panic!("unexpected {other:?}"),
    }
    let r = tool_call_response(&conn, Some(Json::Int(3)), "find_by_tag", &obj(vec![("tag", s("a/b"))]));
    let e = r.get("error").expect("error");
    assert_eq!(e.get("code").and_then(Json::as_i64), Some(INTERNAL_ERROR));
    assert_eq!(
        e.get("message").and_then(Json::as_str),
        Some("invalid tag \"a/b\": allowed characters are [a-z0-9._-]")
    );
    // a tag in normal form after trimming and lowering is accepted
    let found = execute_tool(&conn, "find_by_tag", &obj(vec![("tag", s(" AUTH "))])).unwrap();
    assert_eq!(found.get("tag").and_then(Json::as_str), Some("auth"));
}
