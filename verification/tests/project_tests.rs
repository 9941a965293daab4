use mem_cli::commands::{
    added_report, cmd_add, cmd_delete, cmd_list, cmd_purge, cmd_update, deleted_report, listing,
    purged_report, table_text, updated_report, Output,
};
use mem_cli::db::{apply_migrations, list_active, Record};
use mem_cli::json::Json;
use mem_cli::project::{
    agents_block, copies_legacy_db, init_marker_plan, merge_agents_md, nearest_marked_depth,
    project_slug, random_id, repo_root, Entity, MarkerPlan, AGENTS_END, AGENTS_START,
};
use mem_cli::slug::{
    data_home, db_dir_components, db_path, dir_from_marker, env_override, parse_marker,
    marker_lookup, resolve_db_dir_from, DbDir, DbDirError, MarkerError,
};
use rusqlite::Connection;

fn comps(parts: &[&str]) -> Vec<String> {
    parts.iter().map(|p| p.to_string()).collect()
}

fn memory_conn() -> Connection {
    Connection::open_in_memory().unwrap()
}

#[test]
fn entity_tables() {
    assert_eq!(Entity::Facts.table(), "facts");
    assert_eq!(Entity::Decisions.table(), "decisions");
    assert_eq!(Entity::Commands.table(), "commands");
    assert_eq!(Entity::Modules.table(), "modules");
}

#[test]
fn repo_root_is_nearest_git_ancestor() {
    let start = comps(&["home", "u", "repo", "src", "deep"]);
    // prefixes of length 0..=5; `.git` in /home/u/repo (length 3) and /home (length 1)
    let flags = vec![false, true, false, true, false, false];
    assert_eq!(repo_root(&start, &flags), comps(&["home", "u", "repo"]));
    // the start itself holds `.git`
    let flags = vec![false, false, false, false, false, true];
    assert_eq!(repo_root(&start, &flags), start);
    // no `.git` anywhere: the start itself
    let flags = vec![false; 6];
    assert_eq!(repo_root(&start, &flags), start);
    // only the filesystem root holds `.git`
    let flags = vec![true, false, false, false, false, false];
    assert_eq!(repo_root(&start, &flags), Vec::<String>::new());
    // missing flags count as unset
    assert_eq!(repo_root(&start, &vec![false, true]), comps(&["home"]));
}

#[test]
fn marker_lookup_walks_up() {
    assert_eq!(nearest_marked_depth(4, &vec![false, false, true, false, false]), Some(2));
    assert_eq!(nearest_marked_depth(4, &vec![true, false, true, false, true]), Some(4));
    assert_eq!(nearest_marked_depth(4, &vec![false; 5]), None);
    assert_eq!(nearest_marked_depth(0, &vec![true]), Some(0));
    assert_eq!(nearest_marked_depth(3, &vec![]), None);
}

#[test]
fn project_slug_joins_name_and_id() {
    assert_eq!(project_slug(Some("My Project"), Some("repo"), "00ff"), "my-project-00ff");
    assert_eq!(project_slug(None, Some("Мой Репо"), "ab"), "мой-репо-ab");
    assert_eq!(project_slug(None, None, "12"), "project-12");
    assert_eq!(project_slug(Some(""), Some("repo"), "x"), "project-x");
}

#[test]
fn random_id_is_sixteen_hex_digits() {
    assert_eq!(random_id(0x0123_4567_89ab_cdef), "0123456789abcdef");
    assert_eq!(random_id(0), "0000000000000000");
    assert_eq!(random_id(u64::MAX), "ffffffffffffffff");
    assert_eq!(random_id(0xdead_beef), "00000000deadbeef");
    for v in [1u64, 42, 0x8000_0000_0000_0000, 987_654_321_012_345] {
        assert_eq!(random_id(v), format!("{:016x}", v));
    }
}

#[test]
fn agents_block_names_the_slug() {
    let block = agents_block("proj-1");
    assert!(block.starts_with(AGENTS_START));
    assert!(block.ends_with(&format!("{}\n", AGENTS_END)));
    assert!(block.contains("The project slug (`proj-1`) is fixed in the `.mem-project` file."));
    assert!(block.contains("`${XDG_DATA_HOME:-~/.local/share}/mem/<slug>/project_context.db`."));
    assert_eq!(
        block,
        "<!-- mem-cli:start -->\n## mem-cli context storage\n\nProject context is stored locally per developer, outside the repository:\n`${XDG_DATA_HOME:-~/.local/share}/mem/<slug>/project_context.db`.\nThe project slug (`proj-1`) is fixed in the `.mem-project` file.\nThe path can be overridden via the `MEMORY_DB_DIR` variable.\n<!-- mem-cli:end -->\n"
    );
}

#[test]
fn agents_md_merge_cases() {
    let block = "<!-- mem-cli:start -->\nNEW\n<!-- mem-cli:end -->\n";
    // empty or blank file: the block alone
    assert_eq!(merge_agents_md("", block), block);
    assert_eq!(merge_agents_md("  \n\t\n", block), block);
    // text without a block: appended after one empty line
    assert_eq!(merge_agents_md("# Agents\n\n\n", block), format!("# Agents\n\n{block}"));
    // an existing block is replaced in place
    let existing = "head\n<!-- mem-cli:start -->\nOLD\n<!-- mem-cli:end -->\ntail\n";
    assert_eq!(merge_agents_md(existing, block), format!("head\n{block}\ntail\n"));
    // merging again keeps the text around the block, and the newline that
    // followed the old block stays after the new one
    let once = merge_agents_md("# Agents", block);
    assert_eq!(once, format!("# Agents\n\n{block}"));
    assert_eq!(merge_agents_md(&once, block), format!("# Agents\n\n{block}\n"));
    // an end marker before the start marker is not a block
    let odd = "<!-- mem-cli:end --> x <!-- mem-cli:start -->";
    assert_eq!(merge_agents_md(odd, block), format!("{odd}\n\n{block}"));
}

#[test]
fn data_home_prefers_absolute_xdg() {
    assert_eq!(data_home(Some("/data"), Some("/home/u")), Some(comps(&["/data"])));
    assert_eq!(
        data_home(Some("relative"), Some("/home/u")),
        Some(comps(&["/home/u", ".local", "share"]))
    );
    assert_eq!(data_home(Some(""), Some("/h")), Some(comps(&["/h", ".local", "share"])));
    assert_eq!(data_home(None, None), None);
    assert_eq!(data_home(Some("rel"), None), None);
}

#[test]
fn resolve_db_dir_precedence() {
    let data = comps(&["/data"]);
    // 1. the override beats everything, a valid or a failed marker lookup alike
    let marker: Result<Option<String>, String> = Ok(Some("proj-abc123".to_string()));
    match resolve_db_dir_from(Some("/tmp/override"), marker, Some(data.clone())) {
        Ok(dir) => assert_eq!(db_dir_components(&dir), comps(&["/tmp/override"])),
        Err(e) => panic!("unexpected {e:?}"),
    }
    let corrupt: Result<Option<String>, String> = Err("corrupt".to_string());
    match resolve_db_dir_from(Some("/tmp/override"), corrupt, None) {
        Ok(dir) => assert_eq!(db_dir_components(&dir), comps(&["/tmp/override"])),
        Err(e) => panic!("unexpected {e:?}"),
    }
    // 2. a marker puts the database under the data directory
    let marker: Result<Option<String>, String> = Ok(Some("proj-abc123".to_string()));
    let dir = resolve_db_dir_from(None, marker, Some(data.clone())).unwrap();
    assert_eq!(db_dir_components(&dir), comps(&["/data", "mem", "proj-abc123"]));
    assert_eq!(db_path(&dir), comps(&["/data", "mem", "proj-abc123", "project_context.db"]));
    // 3. no marker and no override: the legacy directory; an empty override counts as none
    let none: Result<Option<String>, String> = Ok(None);
    let dir = resolve_db_dir_from(None, none, Some(data.clone())).unwrap();
    assert_eq!(db_dir_components(&dir), comps(&[".memory"]));
    let none: Result<Option<String>, String> = Ok(None);
    let dir = resolve_db_dir_from(Some(""), none, None).unwrap();
    assert_eq!(db_dir_components(&dir), comps(&[".memory"]));
    // without an override, a failed marker lookup is the error
    let corrupt: Result<Option<String>, String> = Err("corrupt".to_string());
    match resolve_db_dir_from(Some(""), corrupt, Some(data)) {
        Err(DbDirError::Marker(e)) => assert_eq!(e, "corrupt"),
        other => panic!("unexpected {other:?}"),
    }
    // a marker without a data directory is an error
    let marker: Result<Option<String>, String> = Ok(Some("p".to_string()));
    assert!(matches!(resolve_db_dir_from(None, marker, None), Err(DbDirError::NoDataHome)));
    let err = dir_from_marker(Some("p".to_string()), None).unwrap_err();
    assert_eq!(
        err.message(),
        "failed to determine the data directory (HOME/XDG_DATA_HOME)"
    );
    // the override helpers on their own
    match env_override(Some("/tmp/override")) {
        Some(DbDir::Override(d)) => assert_eq!(d, "/tmp/override"),
        other => panic!("unexpected {other:?}"),
    }
    assert!(env_override(Some("")).is_none());
    assert!(env_override(None).is_none());
    let over = env_override(Some("/tmp/override")).unwrap();
    assert_eq!(db_path(&over), comps(&["/tmp/override", "project_context.db"]));
}

#[test]
fn marker_content_is_validated() {
    assert_eq!(parse_marker("my-proj-deadbeef\n").unwrap(), "my-proj-deadbeef");
    let err = parse_marker("bad/slug").unwrap_err();
    assert_eq!(err.message(), "corrupt marker: invalid slug \"bad/slug\"");
    assert!(parse_marker("  \n").is_err());
}

fn record(id: i64, created: &str, content: &str) -> Record {
    Record {
        id,
        content: content.to_string(),
        created_at: created.to_string(),
        updated_at: created.to_string(),
        deleted_at: None,
    }
}

#[test]
fn record_table_layout() {
    assert_eq!(table_text(&vec![]), "(empty)\n");
    let rs = vec![
        record(1, "2024-01-02 03:04:05", "first"),
        record(12345, "short", "second"),
    ];
    let expected = format!(
        "{:>4}  {:<19}  CONTENT\n{:>4}  {:<19}  {}\n{:>4}  {:<19}  {}\n",
        "ID", "CREATED", 1, "2024-01-02 03:04:05", "first", 12345, "short", "second"
    );
    assert_eq!(table_text(&rs), expected);
    assert!(table_text(&rs).starts_with("  ID  CREATED              CONTENT\n   1  "));
    match listing(&rs, true) {
        Output::Json(Json::Array(items)) => assert_eq!(items.len(), 2),
        other => panic!("unexpected {other:?}"),
    }
    assert!(matches!(listing(&rs, false), Output::Text(_)));
}

#[test]
fn command_reports() {
    assert_eq!(added_report("facts", 7), "added to facts: id=7");
    for id in [0i64, 9, 10, 1234567890, -1, -10, i64::MAX, i64::MIN] {
        assert_eq!(added_report("facts", id), format!("added to facts: id={id}"));
    }
    assert_eq!(deleted_report("facts", 7, 1), "deleted (soft) from facts: id=7");
    assert_eq!(deleted_report("facts", -3, 0), "no active record id=-3 in facts");
    assert_eq!(purged_report("modules", 2, 1), "deleted (purge) from modules: id=2");
    assert_eq!(purged_report("modules", 2, 0), "no record id=2 in modules");
    assert_eq!(
        updated_report("commands", 1, Some(4), false),
        "updated (soft) in commands: id=1 -> id=4"
    );
    assert_eq!(
        updated_report("commands", 1, Some(4), true),
        "updated (purge) in commands: id=1 -> id=4"
    );
    assert_eq!(updated_report("commands", 42, None, true), "no active record id=42 in commands");
}

#[test]
fn record_commands_flow() {
    let conn = memory_conn();
    assert_eq!(cmd_add(&conn, Entity::Facts, "first").unwrap(), "added to facts: id=1");
    assert_eq!(cmd_add(&conn, Entity::Facts, "second").unwrap(), "added to facts: id=2");
    match cmd_list(&conn, Entity::Facts, false).unwrap() {
        Output::Text(t) => {
            assert!(t.starts_with("  ID  CREATED              CONTENT\n"));
            assert!(t.contains("  first\n"));
            assert!(t.ends_with("  second\n"));
        }
        other => panic!("unexpected {other:?}"),
    }
    assert_eq!(cmd_delete(&conn, Entity::Facts, 1).unwrap(), "deleted (soft) from facts: id=1");
    assert_eq!(cmd_delete(&conn, Entity::Facts, 1).unwrap(), "no active record id=1 in facts");
    assert_eq!(
        cmd_update(&conn, Entity::Facts, 2, "third", false).unwrap(),
        "updated (soft) in facts: id=2 -> id=3"
    );
    // a soft-deleted record is not updated, not even by a hard update
    assert_eq!(
        cmd_update(&conn, Entity::Facts, 2, "x", true).unwrap(),
        "no active record id=2 in facts"
    );
    assert_eq!(
        cmd_update(&conn, Entity::Facts, 2, "y", false).unwrap(),
        "no active record id=2 in facts"
    );
    assert_eq!(cmd_purge(&conn, Entity::Facts, 3).unwrap(), "deleted (purge) from facts: id=3");
    assert_eq!(cmd_purge(&conn, Entity::Facts, 3).unwrap(), "no record id=3 in facts");
    match cmd_list(&conn, Entity::Facts, true).unwrap() {
        Output::Json(Json::Array(items)) => assert!(items.is_empty()),
        other => panic!("unexpected {other:?}"),
    }
    apply_migrations(&conn).unwrap();
    assert!(list_active(&conn, "facts").unwrap().is_empty());
    assert_eq!(cmd_list(&conn, Entity::Decisions, false).map(|l| matches!(l, Output::Text(t) if t == "(empty)\n")).unwrap(), true);
}

#[test]
fn find_marker_walks_up_tree() {
    // base (2 components deep) holds the marker; the search starts in base/a/b
    let nested_depth = 4;
    let has_marker = vec![false, false, true, false, false];
    let depth = nearest_marked_depth(nested_depth, &has_marker).expect("marker should be found");
    assert_eq!(depth, 2);
    assert_eq!(parse_marker("my-proj-deadbeef\n").unwrap(), "my-proj-deadbeef");

    // Corrupt slug — error.
    assert!(parse_marker("bad/slug").is_err());
}

#[test]
fn find_marker_absent_returns_none() {
    assert!(nearest_marked_depth(2, &vec![false, false, false]).is_none());
}

#[test]
fn init_decisions() {
    match init_marker_plan(Some(("root".to_string(), "kept-slug".to_string())), Some("X"), None, "00") {
        MarkerPlan::Reuse(dir, slug) => {
            assert_eq!(dir, "root");
            assert_eq!(slug, "kept-slug");
        }
        other => panic!("unexpected {other:?}"),
    }
    match init_marker_plan::<String>(None, Some("My App"), Some("repo"), "abcd") {
        MarkerPlan::Create(slug) => assert_eq!(slug, "my-app-abcd"),
        other => panic!("unexpected {other:?}"),
    }
    match init_marker_plan::<String>(None, None, Some("Repo Dir"), "01") {
        MarkerPlan::Create(slug) => assert_eq!(slug, "repo-dir-01"),
        other => panic!("unexpected {other:?}"),
    }
    match init_marker_plan::<String>(None, None, None, "01") {
        MarkerPlan::Create(slug) => assert_eq!(slug, "project-01"),
        other => panic!("unexpected {other:?}"),
    }
    assert!(copies_legacy_db(true, false));
    assert!(!copies_legacy_db(true, true));
    assert!(!copies_legacy_db(false, false));
}

#[test]
fn marker_lookup_from_what_was_read() {
    let none: Option<(String, Result<String, String>)> = None;
    assert!(matches!(marker_lookup(none), Ok(None)));
    match marker_lookup(Some(("d".to_string(), Ok::<String, String>("proj-abc123\n".to_string())))) {
        Ok(Some((dir, slug))) => {
            assert_eq!(dir, "d");
            assert_eq!(slug, "proj-abc123");
        }
        other => panic!("unexpected {other:?}"),
    }
    match marker_lookup(Some(("d".to_string(), Ok::<String, String>(" bad/slug ".to_string())))) {
        Err(MarkerError::Corrupt(t)) => assert_eq!(t, "bad/slug"),
        other => panic!("unexpected {other:?}"),
    }
    match marker_lookup(Some(("d".to_string(), Err::<String, String>("unreadable".to_string())))) {
        Err(MarkerError::Read(e)) => assert_eq!(e, "unreadable"),
        other => panic!("unexpected {other:?}"),
    }
}
