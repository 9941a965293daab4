use mem_cli::db::{replace_result, tag_outcome, total_removed};
use mem_cli::db::{group_found, removal_step, state_of, Record, RecordState, Removal};
use mem_cli::db::{
    active_tag_rows_sql, find_by_tag_sql, list_active_sql, overview_column, record_column,
    tag_row_column, tags_overview_sql, OverviewField, RecordField, TagRowField,
};
use mem_cli::db::{
    add_tag, apply_migrations, doctor, doctor_fix, find_by_tag, insert, list_active, purge,
    remove_tag, soft_delete, tags_overview, update, TagOutcome, SCHEMA_VERSION,
};
use rusqlite::Connection;

fn setup() -> Connection {
    let conn = Connection::open_in_memory().unwrap();
    apply_migrations(&conn).unwrap();
    conn
}

fn count(conn: &Connection, sql: &str) -> i64 {
    conn.query_row(sql, [], |r| r.get(0)).unwrap()
}

#[test]
fn migrations_create_schema_and_are_idempotent() {
    let conn = Connection::open_in_memory().unwrap();
    apply_migrations(&conn).unwrap();
    apply_migrations(&conn).unwrap();

    let version: i64 = conn
        .query_row("SELECT MAX(version) FROM schema_version", [], |r| r.get(0))
        .unwrap();
    assert_eq!(version, SCHEMA_VERSION);

    for table in ["facts", "decisions", "commands", "modules"] {
        let count: i64 = conn
            .query_row(
                "SELECT COUNT(*) FROM sqlite_master WHERE type='table' AND name=?1",
                [table],
                |r| r.get(0),
            )
            .unwrap();
        assert_eq!(count, 1, "table {table} should exist");
    }
}

#[test]
fn insert_and_list_active() {
    let conn = setup();
    let id1 = insert(&conn, "facts", "first fact").unwrap();
    let id2 = insert(&conn, "facts", "second fact").unwrap();
    assert!(id2 > id1);

    let records = list_active(&conn, "facts").unwrap();
    assert_eq!(records.len(), 2);
    assert_eq!(records[0].content, "first fact");
    assert_eq!(records[1].content, "second fact");
    assert!(records[0].deleted_at.is_none());
}

#[test]
fn insert_rejects_unknown_table() {
    let conn = setup();
    assert!(insert(&conn, "users; DROP TABLE facts", "x").is_err());
}

#[test]
fn soft_delete_hides_from_list() {
    let conn = setup();
    let id = insert(&conn, "facts", "to delete").unwrap();

    assert_eq!(soft_delete(&conn, "facts", id).unwrap(), 1);
    assert!(list_active(&conn, "facts").unwrap().is_empty());
    assert_eq!(soft_delete(&conn, "facts", id).unwrap(), 0);

    assert_eq!(count(&conn, "SELECT COUNT(*) FROM facts"), 1);
}

#[test]
fn purge_removes_row() {
    let conn = setup();
    let id = insert(&conn, "facts", "to purge").unwrap();

    assert_eq!(purge(&conn, "facts", id).unwrap(), 1);
    assert_eq!(count(&conn, "SELECT COUNT(*) FROM facts"), 0);
    assert_eq!(purge(&conn, "facts", id).unwrap(), 0);
}

#[test]
fn update_soft_replaces_record() {
    let conn = setup();
    let old = insert(&conn, "commands", "cargo build").unwrap();

    let new = update(&conn, "commands", old, "make build", false)
        .unwrap()
        .expect("a new record should be returned");
    assert!(new > old);

    let records = list_active(&conn, "commands").unwrap();
    assert_eq!(records.len(), 1);
    assert_eq!(records[0].id, new);
    assert_eq!(records[0].content, "make build");

    assert_eq!(count(&conn, "SELECT COUNT(*) FROM commands"), 2);
}

#[test]
fn update_hard_purges_old_record() {
    let conn = setup();
    let old = insert(&conn, "commands", "cargo build").unwrap();

    let new = update(&conn, "commands", old, "make build", true)
        .unwrap()
        .expect("a new record should be returned");
    assert!(new > old);

    assert_eq!(count(&conn, "SELECT COUNT(*) FROM commands"), 1);
    let records = list_active(&conn, "commands").unwrap();
    assert_eq!(records.len(), 1);
    assert_eq!(records[0].content, "make build");
}

#[test]
fn update_missing_record_is_noop() {
    let conn = setup();

    assert!(update(&conn, "facts", 42, "x", false).unwrap().is_none());
    assert!(update(&conn, "facts", 42, "x", true).unwrap().is_none());
    assert!(list_active(&conn, "facts").unwrap().is_empty());

    let id = insert(&conn, "facts", "a").unwrap();
    soft_delete(&conn, "facts", id).unwrap();
    assert!(update(&conn, "facts", id, "b", false).unwrap().is_none());
}

#[test]
fn add_tag_is_idempotent_and_reactivates() {
    let conn = setup();
    let id = insert(&conn, "facts", "f").unwrap();

    assert_eq!(add_tag(&conn, "facts", id, "Auth").unwrap(), TagOutcome::Added);
    assert_eq!(
        add_tag(&conn, "facts", id, "auth").unwrap(),
        TagOutcome::AlreadyPresent
    );
    assert_eq!(count(&conn, "SELECT COUNT(*) FROM tags"), 1);

    assert_eq!(remove_tag(&conn, "facts", id, "auth", false).unwrap(), 1);
    assert_eq!(add_tag(&conn, "facts", id, "auth").unwrap(), TagOutcome::Added);
    assert_eq!(count(&conn, "SELECT COUNT(*) FROM tags"), 1);
}

#[test]
fn add_tag_requires_active_record() {
    let conn = setup();
    assert_eq!(
        add_tag(&conn, "facts", 999, "auth").unwrap(),
        TagOutcome::NoRecord
    );
    let id = insert(&conn, "facts", "f").unwrap();
    soft_delete(&conn, "facts", id).unwrap();
    assert_eq!(
        add_tag(&conn, "facts", id, "auth").unwrap(),
        TagOutcome::NoRecord
    );
}

#[test]
fn add_tag_rejects_unknown_table() {
    let conn = setup();
    assert!(add_tag(&conn, "users; DROP TABLE facts", 1, "auth").is_err());
}

#[test]
fn find_by_tag_groups_and_hides_deleted() {
    let conn = setup();
    let f = insert(&conn, "facts", "fact-auth").unwrap();
    let d = insert(&conn, "decisions", "dec-auth").unwrap();
    let f2 = insert(&conn, "facts", "fact-other").unwrap();
    add_tag(&conn, "facts", f, "auth").unwrap();
    add_tag(&conn, "decisions", d, "auth").unwrap();
    add_tag(&conn, "facts", f2, "auth").unwrap();
    soft_delete(&conn, "facts", f2).unwrap();

    let groups = find_by_tag(&conn, "AUTH", None).unwrap();
    assert_eq!(groups.len(), 2);
    assert_eq!(groups[0].0, "facts");
    assert_eq!(groups[0].1.len(), 1);
    assert_eq!(groups[0].1[0].content, "fact-auth");
    assert_eq!(groups[1].0, "decisions");

    let only = find_by_tag(&conn, "auth", Some("facts")).unwrap();
    assert_eq!(only.len(), 1);
    assert_eq!(only[0].0, "facts");
}

#[test]
fn tags_overview_counts_active_only() {
    let conn = setup();
    let f = insert(&conn, "facts", "f").unwrap();
    let d = insert(&conn, "decisions", "d").unwrap();
    add_tag(&conn, "facts", f, "auth").unwrap();
    add_tag(&conn, "decisions", d, "auth").unwrap();
    add_tag(&conn, "facts", f, "db").unwrap();
    soft_delete(&conn, "decisions", d).unwrap();

    let overview = tags_overview(&conn).unwrap();
    assert_eq!(
        overview,
        vec![("auth".to_string(), 1), ("db".to_string(), 1)]
    );
}

#[test]
fn purge_cascades_tags() {
    let conn = setup();
    let id = insert(&conn, "facts", "f").unwrap();
    add_tag(&conn, "facts", id, "auth").unwrap();
    assert_eq!(purge(&conn, "facts", id).unwrap(), 1);
    assert_eq!(count(&conn, "SELECT COUNT(*) FROM tags"), 0);
}

#[test]
fn doctor_detects_and_fixes_issues() {
    let conn = setup();
    let f = insert(&conn, "facts", "f").unwrap();
    add_tag(&conn, "facts", f, "auth").unwrap();

    conn.execute(
        "INSERT INTO tags (entity, record_id, tag) VALUES ('facts', 999, 'ghost')",
        [],
    )
    .unwrap();
    conn.execute(
        "INSERT INTO tags (entity, record_id, tag) VALUES ('bogus', 1, 'x')",
        [],
    )
    .unwrap();
    conn.execute(
        "INSERT INTO tags (entity, record_id, tag) VALUES ('facts', ?1, 'Bad Tag')",
        [f],
    )
    .unwrap();

    let report = doctor(&conn).unwrap();
    assert_eq!(report.schema_version, SCHEMA_VERSION);
    assert_eq!(report.dangling.len(), 1);
    assert_eq!(report.invalid_entity.len(), 1);
    assert_eq!(report.dirty.len(), 1);
    assert!(report.has_problems());

    let removed = doctor_fix(&conn, &report).unwrap();
    assert_eq!(removed, 2);

    let after = doctor(&conn).unwrap();
    assert!(after.dangling.is_empty());
    assert!(after.invalid_entity.is_empty());
    assert_eq!(after.dirty.len(), 1);
}

#[test]
fn doctor_reports_tags_on_soft_deleted_as_info() {
    let conn = setup();
    let f = insert(&conn, "facts", "f").unwrap();
    add_tag(&conn, "facts", f, "auth").unwrap();
    soft_delete(&conn, "facts", f).unwrap();

    let report = doctor(&conn).unwrap();
    assert_eq!(report.on_soft_deleted.len(), 1);
    assert!(!report.has_problems());
}

#[test]
fn record_states_from_lookups() {
    assert!(matches!(state_of(None), RecordState::Missing));
    assert!(matches!(state_of(Some(None)), RecordState::Active));
    assert!(matches!(state_of(Some(Some("2024".into()))), RecordState::SoftDeleted));
}

#[test]
fn wrong_column_type_is_reported_by_sqlite() {
    let conn = setup();
    conn.execute("INSERT INTO facts (content) VALUES (x'00')", []).unwrap();
    let err = list_active(&conn, "facts").unwrap_err();
    assert_eq!(
        err.message(),
        "Invalid column type Blob at index: 1, name: content"
    );
}

#[test]
fn decisions_on_database_answers() {
    assert_eq!(tag_outcome(false, None), TagOutcome::NoRecord);
    assert_eq!(tag_outcome(true, Some(3)), TagOutcome::AlreadyPresent);
    assert_eq!(tag_outcome(true, None), TagOutcome::Added);
    assert_eq!(replace_result(0, 9), None);
    assert_eq!(replace_result(1, 9), Some(9));
    assert_eq!(total_removed(&vec![]), 0);
    assert_eq!(total_removed(&vec![1, 0, 1]), 2);
    assert_eq!(total_removed(&vec![usize::MAX, 1]), usize::MAX);
}

#[test]
fn hard_update_of_soft_deleted_record_changes_nothing() {
    let conn = setup();
    let id = insert(&conn, "facts", "a").unwrap();
    assert_eq!(soft_delete(&conn, "facts", id).unwrap(), 1);
    assert_eq!(update(&conn, "facts", id, "b", true).unwrap(), None);
    assert_eq!(count(&conn, &format!("SELECT COUNT(*) FROM facts WHERE id = {id} AND deleted_at IS NOT NULL")), 1);
    assert_eq!(count(&conn, "SELECT COUNT(*) FROM facts WHERE content = 'b'"), 0);
}

#[test]
fn removal_step_of_update() {
    assert_eq!(removal_step(false, true), Removal::SoftDelete);
    assert_eq!(removal_step(false, false), Removal::SoftDelete);
    assert_eq!(removal_step(true, true), Removal::Purge);
    assert_eq!(removal_step(true, false), Removal::Keep);
}

fn rec(id: i64, content: &str) -> Record {
    Record {
        id,
        content: content.to_string(),
        created_at: "t".to_string(),
        updated_at: "t".to_string(),
        deleted_at: None,
    }
}

#[test]
fn grouping_keeps_non_empty_results_in_table_order() {
    let groups = group_found(vec![
        vec![rec(1, "fact-auth")],
        vec![rec(2, "dec-auth"), rec(5, "dec-more")],
        vec![],
        vec![rec(3, "mod")],
    ]);
    assert_eq!(groups.len(), 3);
    assert_eq!(groups[0].0, "facts");
    assert_eq!(groups[0].1, vec![rec(1, "fact-auth")]);
    assert_eq!(groups[1].0, "decisions");
    assert_eq!(groups[1].1, vec![rec(2, "dec-auth"), rec(5, "dec-more")]);
    assert_eq!(groups[2].0, "modules");
    assert_eq!(groups[2].1, vec![rec(3, "mod")]);
    assert!(group_found(vec![vec![], vec![], vec![], vec![]]).is_empty());
}

#[test]
fn queries_select_the_columns_fields_are_read_from() {
    assert_eq!(
        list_active_sql("facts"),
        "SELECT id, content, created_at, updated_at, deleted_at FROM facts WHERE deleted_at IS NULL ORDER BY id"
    );
    assert_eq!(
        find_by_tag_sql("modules"),
        "SELECT e.id, e.content, e.created_at, e.updated_at, e.deleted_at FROM modules e JOIN tags t ON t.entity = ?1 AND t.record_id = e.id WHERE t.tag = ?2 AND t.deleted_at IS NULL AND e.deleted_at IS NULL ORDER BY e.id"
    );
    assert_eq!(
        active_tag_rows_sql(),
        "SELECT id, entity, record_id, tag FROM tags WHERE deleted_at IS NULL ORDER BY id"
    );
    assert!(tags_overview_sql().starts_with("SELECT t.tag, COUNT(*) AS cnt FROM tags t WHERE t.deleted_at IS NULL AND ("));
    assert_eq!(record_column(RecordField::Id), 0);
    assert_eq!(record_column(RecordField::Content), 1);
    assert_eq!(record_column(RecordField::CreatedAt), 2);
    assert_eq!(record_column(RecordField::UpdatedAt), 3);
    assert_eq!(record_column(RecordField::DeletedAt), 4);
    assert_eq!(tag_row_column(TagRowField::Entity), 1);
    assert_eq!(tag_row_column(TagRowField::Tag), 3);
    assert_eq!(overview_column(OverviewField::Count), 1);
    // read back: each field holds what was written to its column
    let conn = setup();
    let id = insert(&conn, "facts", "the content").unwrap();
    let rs = list_active(&conn, "facts").unwrap();
    assert_eq!(rs[0].id, id);
    assert_eq!(rs[0].content, "the content");
    assert_ne!(rs[0].created_at, "the content");
    assert!(rs[0].deleted_at.is_none());
}
