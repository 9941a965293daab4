use mem_cli::commands::{
    cmd_add, cmd_delete, cmd_doctor, cmd_find, cmd_tag, cmd_tags, cmd_untag, tag_report,
    untag_report, Output,
};
use mem_cli::db::TagOutcome;
use mem_cli::json::Json;
use mem_cli::project::{with_mcp_server, Entity};
use rusqlite::Connection;

fn conn() -> Connection {
    Connection::open_in_memory().unwrap()
}

fn strings(v: &[&str]) -> Vec<String> {
    v.iter().map(|s| s.to_string()).collect()
}

fn text(out: Output) -> String {
    match out {
        Output::Text(t) => t,
        other => panic!("expected text, got {other:?}"),
    }
}

fn json(out: Output) -> Json {
    match out {
        Output::Json(j) => j,
        other => panic!("expected JSON, got {other:?}"),
    }
}

#[test]
fn tag_reports_each_tag() {
    let c = conn();
    cmd_add(&c, Entity::Facts, "auth fact").unwrap();
    assert_eq!(
        cmd_tag(&c, Entity::Facts, 1, &strings(&["Auth", " security "])).unwrap(),
        "tagged facts id=1: auth\ntagged facts id=1: security\n"
    );
    assert_eq!(
        cmd_tag(&c, Entity::Facts, 1, &strings(&["AUTH"])).unwrap(),
        "already tagged facts id=1: auth\n"
    );
    assert_eq!(
        cmd_tag(&c, Entity::Facts, 9, &strings(&["auth"])).unwrap(),
        "no active record id=9 in facts\n"
    );
    let err = cmd_tag(&c, Entity::Facts, 1, &strings(&["ok", "bad tag"])).unwrap_err();
    assert_eq!(
        err.message(),
        "invalid tag \"bad tag\": allowed characters are [a-z0-9._-]"
    );
    assert_eq!(tag_report("modules", 3, "x", TagOutcome::Added), "tagged modules id=3: x");
}

#[test]
fn untag_reports_removal() {
    let c = conn();
    cmd_add(&c, Entity::Decisions, "d").unwrap();
    cmd_tag(&c, Entity::Decisions, 1, &strings(&["auth"])).unwrap();
    assert_eq!(
        cmd_untag(&c, Entity::Decisions, 1, "Auth", false).unwrap(),
        "untagged decisions id=1: auth"
    );
    assert_eq!(
        cmd_untag(&c, Entity::Decisions, 1, "auth", false).unwrap(),
        "no active tag auth on decisions id=1"
    );
    assert_eq!(
        cmd_untag(&c, Entity::Decisions, 1, "auth", true).unwrap(),
        "purged tag from decisions id=1: auth"
    );
    assert_eq!(
        cmd_untag(&c, Entity::Decisions, 1, "auth", true).unwrap(),
        "no tag auth on decisions id=1"
    );
    assert_eq!(cmd_untag(&c, Entity::Decisions, 1, "  ", true).unwrap_err().message(), "empty tag");
    assert_eq!(untag_report("facts", 2, "t", false, 0), "no active tag t on facts id=2");
}

#[test]
fn find_groups_by_entity() {
    let c = conn();
    cmd_add(&c, Entity::Facts, "fact-auth").unwrap();
    cmd_add(&c, Entity::Decisions, "dec-auth").unwrap();
    cmd_tag(&c, Entity::Facts, 1, &strings(&["auth"])).unwrap();
    cmd_tag(&c, Entity::Decisions, 1, &strings(&["auth"])).unwrap();
    let t = text(cmd_find(&c, "AUTH", None, false).unwrap());
    assert!(t.starts_with("[facts]\n  ID  CREATED              CONTENT\n"));
    assert!(t.contains("fact-auth\n[decisions]\n"));
    assert!(t.ends_with("dec-auth\n"));
    let only = text(cmd_find(&c, "auth", Some(Entity::Decisions), false).unwrap());
    assert!(only.starts_with("[decisions]\n") && !only.contains("[facts]"));
    assert_eq!(text(cmd_find(&c, "none", None, false).unwrap()), "no records tagged none\n");
    let j = json(cmd_find(&c, "auth", None, true).unwrap());
    assert_eq!(j.get("tag").and_then(Json::as_str), Some("auth"));
    let groups = j.get("groups").and_then(Json::as_object).unwrap();
    assert_eq!(groups.len(), 2);
    assert_eq!(groups[0].0, "facts");
    cmd_delete(&c, Entity::Facts, 1).unwrap();
    let after = text(cmd_find(&c, "auth", None, false).unwrap());
    assert!(!after.contains("[facts]"));
}

#[test]
fn tags_overview_output() {
    let c = conn();
    assert_eq!(text(cmd_tags(&c, false).unwrap()), "(no tags)\n");
    cmd_add(&c, Entity::Facts, "a").unwrap();
    cmd_add(&c, Entity::Modules, "b").unwrap();
    cmd_tag(&c, Entity::Facts, 1, &strings(&["auth", "db"])).unwrap();
    cmd_tag(&c, Entity::Modules, 1, &strings(&["auth"])).unwrap();
    assert_eq!(text(cmd_tags(&c, false).unwrap()), "    2  auth\n    1  db\n");
    let j = json(cmd_tags(&c, true).unwrap());
    let rows = j.as_array().unwrap();
    assert_eq!(rows[0].get("tag").and_then(Json::as_str), Some("auth"));
    assert_eq!(rows[0].get("count").and_then(Json::as_i64), Some(2));
}

#[test]
fn doctor_reports_and_fixes() {
    let c = conn();
    cmd_add(&c, Entity::Facts, "a").unwrap();
    cmd_tag(&c, Entity::Facts, 1, &strings(&["auth"])).unwrap();
    let clean = cmd_doctor(&c, false, false).unwrap();
    assert!(!clean.problems);
    assert_eq!(
        text(clean.output),
        "schema version: 2\ndangling tags: 0\ninvalid entity tags: 0\ndirty tags: 0\ntags on soft-deleted records: 0\nactive records: facts=1 decisions=0 commands=0 modules=0\nsoft-deleted records: facts=0 decisions=0 commands=0 modules=0\nno problems\n"
    );
    c.execute("INSERT INTO tags (entity, record_id, tag) VALUES ('facts', 999, 'ghost')", [])
        .unwrap();
    let found = cmd_doctor(&c, false, false).unwrap();
    assert!(found.problems);
    let t = text(found.output);
    assert!(t.contains("dangling tags: 1\n  facts id=999: ghost\n"));
    assert!(t.ends_with("problems found\n"));
    let fixed = cmd_doctor(&c, true, true).unwrap();
    assert!(!fixed.problems);
    let j = json(fixed.output);
    assert_eq!(j.get("fix").and_then(Json::as_bool), Some(true));
    assert_eq!(j.get("removed").and_then(Json::as_i64), Some(1));
}

fn obj(members: Vec<(&str, Json)>) -> Json {
    Json::Object(members.into_iter().map(|(k, v)| (k.to_string(), v)).collect())
}

#[test]
fn mcp_config_entry() {
    let created = with_mcp_server(None).unwrap().unwrap();
    let servers = created.get("mcpServers").unwrap();
    let entry = servers.get("mem-cli").unwrap();
    assert_eq!(entry.get("command").and_then(Json::as_str), Some("mem-cli"));
    assert_eq!(entry.get("args").and_then(Json::as_array).map(|a| a.len()), Some(1));
    // already registered: nothing to write
    assert!(with_mcp_server(Some(created)).unwrap().is_none());
    // other servers and members are kept
    let other = obj(vec![
        ("mcpServers", obj(vec![("other", obj(vec![("command", Json::Str("x".into()))]))])),
        ("extra", Json::Int(1)),
    ]);
    let merged = with_mcp_server(Some(other)).unwrap().unwrap();
    let servers = merged.get("mcpServers").unwrap();
    assert!(servers.get("other").is_some());
    assert!(servers.get("mem-cli").is_some());
    assert_eq!(merged.get("extra").and_then(Json::as_i64), Some(1));
    // a file without servers gets them
    let plain = with_mcp_server(Some(obj(vec![("a", Json::Bool(true))]))).unwrap().unwrap();
    assert!(plain.get("mcpServers").and_then(|s| s.get("mem-cli")).is_some());
    // shapes the entry cannot go into
    assert_eq!(
        with_mcp_server(Some(Json::Array(vec![]))).unwrap_err().message(),
        "invalid .mcp.json: the file must hold a JSON object"
    );
    assert_eq!(
        with_mcp_server(Some(obj(vec![("mcpServers", Json::Int(3))]))).unwrap_err().message(),
        "invalid .mcp.json: mcpServers must be a JSON object"
    );
}

#[test]
fn commands_refuse_tags_not_in_normal_form() {
    let conn = conn();
    let err = cmd_find(&conn, "bad tag!", None, false).unwrap_err();
    assert_eq!(err.message(), "invalid tag \"bad tag!\": allowed characters are [a-z0-9._-]");
    let err = cmd_untag(&conn, Entity::Facts, 1, "", false).unwrap_err();
    assert_eq!(err.message(), "empty tag");
}
