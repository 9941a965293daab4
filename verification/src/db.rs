//! The storage layer: the four entity tables, records, tags and the
//! integrity diagnostics, over SQLite.
use vstd::prelude::*;

use crate::error::MemError;
use crate::sqlite::{
    column_i64, sql_begin, sql_commit, sql_execute, sql_execute_batch, sql_get_opt_text,
    sql_get_text, sql_is_autocommit, sql_last_insert_rowid, sql_next_row, sql_prepare, sql_query,
    sql_statement_execute, sql_transaction_connection, SqlParam,
};
use crate::tags::{normalize_tag, normalize_tag_post, tag_is_normal, tag_normal_form, lemma_normal_tag_is_fixed};
use crate::text::same_text;

verus! {

/// Current database schema version.
pub const SCHEMA_VERSION: i64 = 2;

/// The entity tables, in the order in which they are listed and searched.
pub const ENTITY_TABLES: [&'static str; 4] = ["facts", "decisions", "commands", "modules"];

/// Number of entity tables.
pub const ENTITY_COUNT: usize = 4;

/// The name of the `i`-th entity table (`facts`, `decisions`, `commands`, `modules`).
pub open spec fn entity_name(i: int) -> Seq<char> {
    if i == 0 {
        seq!['f', 'a', 'c', 't', 's']
    } else if i == 1 {
        seq!['d', 'e', 'c', 'i', 's', 'i', 'o', 'n', 's']
    } else if i == 2 {
        seq!['c', 'o', 'm', 'm', 'a', 'n', 'd', 's']
    } else {
        seq!['m', 'o', 'd', 'u', 'l', 'e', 's']
    }
}

/// Whether `t` names one of the entity tables (the whitelist).
pub open spec fn is_entity(t: Seq<char>) -> bool {
    exists|i: int| 0 <= i < ENTITY_COUNT && #[trigger] entity_name(i) == t
}

/// The name of the `i`-th entity table.
pub fn entity_table(i: usize) -> (t: &'static str)
    requires
        i < ENTITY_COUNT,
    ensures
        t@ == entity_name(i as int),
{
    if i == 0 {
        proof {
            reveal_strlit("facts");
        }
        assert("facts"@ =~= entity_name(0));
        "facts"
    } else if i == 1 {
        proof {
            reveal_strlit("decisions");
        }
        assert("decisions"@ =~= entity_name(1));
        "decisions"
    } else if i == 2 {
        proof {
            reveal_strlit("commands");
        }
        assert("commands"@ =~= entity_name(2));
        "commands"
    } else {
        proof {
            reveal_strlit("modules");
        }
        assert("modules"@ =~= entity_name(3));
        "modules"
    }
}

/// Whether `table` is one of the entity tables.
pub fn is_entity_table(table: &str) -> (b: bool)
    ensures
        b == is_entity(table@),
{
    let mut i: usize = 0;
    while i < ENTITY_COUNT
        invariant
            i <= ENTITY_COUNT,
            forall|j: int| 0 <= j < i ==> entity_name(j) != table@,
        decreases ENTITY_COUNT - i,
    {
        if same_text(entity_table(i), table) {
            return true;
        }
        i = i + 1;
    }
    false
}

/// Check that the table name is in the whitelist.
pub fn ensure_valid_table(table: &str) -> (res: Result<(), MemError>)
    ensures
        match res {
            Ok(()) => is_entity(table@),
            Err(MemError::UnknownEntity(t)) => !is_entity(table@) && t@ == table@,
            Err(_) => false,
        },
{
    if is_entity_table(table) {
        Ok(())
    } else {
        Err(MemError::UnknownEntity(String::from_str(table)))
    }
}

/// The failures that come from the database rather than from the arguments.
pub open spec fn db_failure(e: MemError) -> bool {
    ||| e is Storage
    ||| e is TooManyRows
    ||| e is NoRows
}

/// The outcome of an operation on `table` that first checks the whitelist:
/// an unknown table is refused with its name, a known one either succeeds or
/// fails in the database.
pub open spec fn checked_table_outcome<T>(table: Seq<char>, res: Result<T, MemError>) -> bool {
    match res {
        Ok(_) => is_entity(table),
        Err(MemError::UnknownEntity(t)) => !is_entity(table) && t@ == table,
        Err(e) => is_entity(table) && db_failure(e),
    }
}

/// An entity record.
#[derive(Debug, Clone, PartialEq, Eq)]
pub struct Record {
    pub id: i64,
    pub content: String,
    pub created_at: String,
    pub updated_at: String,
    pub deleted_at: Option<String>,
}

fn storage<T>(r: Result<T, rusqlite::Error>) -> (res: Result<T, MemError>)
    ensures
        match r {
            Ok(v) => res == Ok::<T, MemError>(v),
            Err(e) => res == Err::<T, MemError>(MemError::Storage(e)),
        },
{
    match r {
        Ok(v) => Ok(v),
        Err(e) => Err(MemError::Storage(e)),
    }
}

/// `a`, `b` and `c` one after another.
fn concat3(a: &str, b: &str, c: &str) -> (s: String)
    ensures
        s@ == a@ + b@ + c@,
{
    let mut s = String::from_str(a);
    s.append(b);
    s.append(c);
    s
}

/// The column as a string (`Row::get` for `String`: a text value only).
fn column_text(row: &rusqlite::Row, idx: usize) -> (res: Result<String, MemError>)
    ensures
        res matches Err(e) ==> e is Storage,
{
    storage(sql_get_text(row, idx))
}

/// The column as an optional string (`Row::get` for `Option<String>`: null or text).
fn column_opt_text(row: &rusqlite::Row, idx: usize) -> (res: Result<Option<String>, MemError>)
    ensures
        res matches Err(e) ==> e is Storage,
{
    storage(sql_get_opt_text(row, idx))
}

/// The column as an integer (`Row::get` for `i64`: an integer value only).
fn column_int(row: &rusqlite::Row, idx: usize) -> (res: Result<i64, MemError>)
    ensures
        res matches Err(e) ==> e is Storage,
{
    column_i64(row, idx)
}

/// The texts of a list of column names.
pub open spec fn names_view(names: Seq<&'static str>) -> Seq<Seq<char>> {
    names.map_values(|n: &'static str| n@)
}

/// A select list: the columns in order, each behind `prefix`, joined by `, `.
/// The column at position `i` of the query is `names[i]`.
pub open spec fn select_list(names: Seq<Seq<char>>, prefix: Seq<char>) -> Seq<char>
    decreases names.len(),
{
    if names.len() == 0 {
        Seq::empty()
    } else if names.len() == 1 {
        prefix + names[0]
    } else {
        select_list(names.drop_last(), prefix) + ", "@ + prefix + names.last()
    }
}

/// Build the select list of the columns `names`, each behind `prefix`.
fn select_columns(names: &Vec<&'static str>, prefix: &str) -> (s: String)
    ensures
        s@ == select_list(names_view(names@), prefix@),
{
    let ghost all = names_view(names@);
    let mut s = String::new();
    let mut i: usize = 0;
    while i < names.len()
        invariant
            i <= names.len(),
            all == names_view(names@),
            s@ == select_list(all.take(i as int), prefix@),
        decreases names.len() - i,
    {
        let ghost before = s@;
        if i > 0 {
            s.append(", ");
        }
        s.append(prefix);
        s.append(names[i]);
        proof {
            let t = all.take(i + 1);
            assert(t.drop_last() =~= all.take(i as int));
            assert(t.last() == names@[i as int]@);
            if i == 0 {
                assert(s@ =~= prefix@ + t[0]);
            } else {
                assert(s@ =~= before + ", "@ + prefix@ + t.last());
            }
        }
        i = i + 1;
    }
    assert(all.take(names.len() as int) =~= all);
    s
}

/// The fields of a record.
#[derive(Debug, Clone, Copy, PartialEq, Eq, Structural)]
pub enum RecordField {
    Id,
    Content,
    CreatedAt,
    UpdatedAt,
    DeletedAt,
}

/// The columns of a record query, in the order they are selected; the field
/// `f` is read from column `record_column_spec(f)`.
pub open spec fn record_columns() -> Seq<Seq<char>> {
    seq!["id"@, "content"@, "created_at"@, "updated_at"@, "deleted_at"@]
}

/// The column name of a record field.
pub open spec fn record_field_name(f: RecordField) -> Seq<char> {
    match f {
        RecordField::Id => "id"@,
        RecordField::Content => "content"@,
        RecordField::CreatedAt => "created_at"@,
        RecordField::UpdatedAt => "updated_at"@,
        RecordField::DeletedAt => "deleted_at"@,
    }
}

/// The position of a record field among the selected columns.
pub open spec fn record_column_spec(f: RecordField) -> int {
    match f {
        RecordField::Id => 0,
        RecordField::Content => 1,
        RecordField::CreatedAt => 2,
        RecordField::UpdatedAt => 3,
        RecordField::DeletedAt => 4,
    }
}

/// Every field of a record is read from the column of its own name.
pub proof fn law_record_columns(f: RecordField)
    ensures
        0 <= record_column_spec(f) < record_columns().len(),
        record_columns()[record_column_spec(f)] == record_field_name(f),
{
}

/// The column a record field is read from.
pub fn record_column(f: RecordField) -> (i: usize)
    ensures
        i == record_column_spec(f),
{
    match f {
        RecordField::Id => 0,
        RecordField::Content => 1,
        RecordField::CreatedAt => 2,
        RecordField::UpdatedAt => 3,
        RecordField::DeletedAt => 4,
    }
}

/// The columns of a record query, to be selected in this order.
fn record_column_names() -> (names: Vec<&'static str>)
    ensures
        names_view(names@) == record_columns(),
{
    let names = vec!["id", "content", "created_at", "updated_at", "deleted_at"];
    assert(names_view(names@) =~= record_columns());
    names
}

/// Read a record from a row of a query that selects `record_columns()`:
/// each field from the column `record_column` gives for it.
fn read_record(row: &rusqlite::Row) -> (res: Result<Record, MemError>)
    ensures
        res matches Err(e) ==> e is Storage,
{
    let id = column_int(row, record_column(RecordField::Id))?;
    let content = column_text(row, record_column(RecordField::Content))?;
    let created_at = column_text(row, record_column(RecordField::CreatedAt))?;
    let updated_at = column_text(row, record_column(RecordField::UpdatedAt))?;
    let deleted_at = column_opt_text(row, record_column(RecordField::DeletedAt))?;
    Ok(Record { id, content, created_at, updated_at, deleted_at })
}

/// The statement that adds a record to entity table `t`.
pub open spec fn insert_stmt(t: Seq<char>) -> Seq<char> {
    "INSERT INTO "@ + t + " (content) VALUES (?1)"@
}

/// The statement that lists the active records of `t` by ascending id.
pub open spec fn list_active_stmt(t: Seq<char>) -> Seq<char> {
    "SELECT "@ + select_list(record_columns(), ""@) + " FROM "@ + t
        + " WHERE deleted_at IS NULL ORDER BY id"@
}

/// The statement that soft-deletes the active record `?1` of `t`.
pub open spec fn soft_delete_stmt(t: Seq<char>) -> Seq<char> {
    "UPDATE "@ + t
        + " SET deleted_at = datetime('now'), updated_at = datetime('now') WHERE id = ?1 AND deleted_at IS NULL"@
}

/// The statement that removes row `?1` of `t`.
pub open spec fn purge_stmt(t: Seq<char>) -> Seq<char> {
    "DELETE FROM "@ + t + " WHERE id = ?1"@
}

/// The statement that finds the active record `?1` of `t`.
pub open spec fn record_is_active_stmt(t: Seq<char>) -> Seq<char> {
    "SELECT 1 FROM "@ + t + " WHERE id = ?1 AND deleted_at IS NULL"@
}

/// The statement that lists the active records of `t` that carry the active
/// tag `?2` (with `?1` the entity), by ascending id.
pub open spec fn tagged_records_stmt(t: Seq<char>) -> Seq<char> {
    "SELECT "@ + select_list(record_columns(), "e."@) + " FROM "@ + t
        + " e JOIN tags t ON t.entity = ?1 AND t.record_id = e.id WHERE t.tag = ?2 AND t.deleted_at IS NULL AND e.deleted_at IS NULL ORDER BY e.id"@
}

/// The statement that reads `deleted_at` of row `?1` of `t`.
pub open spec fn record_state_stmt(t: Seq<char>) -> Seq<char> {
    "SELECT deleted_at FROM "@ + t + " WHERE id = ?1"@
}

/// The statement that counts the soft-deleted (`deleted`) or active records of `t`.
pub open spec fn count_stmt(t: Seq<char>, deleted: bool) -> Seq<char> {
    "SELECT COUNT(*) FROM "@ + t + (if deleted {
        " WHERE deleted_at IS NOT NULL"@
    } else {
        " WHERE deleted_at IS NULL"@
    })
}

/// The statement that lists the active tag rows by id.
pub open spec fn active_tag_rows_stmt() -> Seq<char> {
    "SELECT "@ + select_list(tag_row_columns(), ""@) + " FROM tags WHERE deleted_at IS NULL ORDER BY id"@
}

/// `sql` is one of the statements on the entity table `t`.
pub open spec fn table_statement(t: Seq<char>, sql: Seq<char>) -> bool {
    ||| sql == insert_stmt(t)
    ||| sql == list_active_stmt(t)
    ||| sql == soft_delete_stmt(t)
    ||| sql == purge_stmt(t)
    ||| sql == record_is_active_stmt(t)
    ||| sql == tagged_records_stmt(t)
    ||| sql == record_state_stmt(t)
    ||| sql == count_stmt(t, false)
    ||| sql == count_stmt(t, true)
}

/// The statements the library sends to SQLite: the schema and its
/// migrations, the tag statements, the diagnostics, and the statements on
/// the entity tables of the whitelist. Every statement is sent through
/// `prepare_statement`, `execute_statement` or `execute_batch_statement`,
/// which take nothing else.
pub open spec fn library_statement(sql: Seq<char>) -> bool {
    ||| sql == SCHEMA_TABLE_SQL@
    ||| sql == MIGRATION_V1@
    ||| sql == MIGRATION_V2@
    ||| sql == RECORD_VERSION_SQL@
    ||| sql == SCHEMA_VERSION_SQL@
    ||| sql == PURGE_TAGS_SQL@
    ||| sql == ACTIVE_TAG_SQL@
    ||| sql == ATTACH_TAG_SQL@
    ||| sql == DELETE_TAG_SQL@
    ||| sql == SOFT_REMOVE_TAG_SQL@
    ||| sql == DELETE_TAG_ROW_SQL@
    ||| sql == tags_overview_sql_spec()
    ||| sql == active_tag_rows_stmt()
    ||| exists|t: Seq<char>| is_entity(t) && #[trigger] table_statement(t, sql)
}

proof fn lemma_table_statement(t: Seq<char>, sql: Seq<char>)
    requires
        is_entity(t),
        table_statement(t, sql),
    ensures
        library_statement(sql),
{
}

/// `part` occurs in `s`.
pub open spec fn has_text(s: Seq<char>, part: Seq<char>) -> bool {
    exists|i: int| 0 <= i && i + part.len() <= s.len() && #[trigger] s.subrange(i, i + part.len()) == part
}

proof fn lemma_has_text(x: Seq<char>, part: Seq<char>, y: Seq<char>)
    ensures
        has_text(x + part + y, part),
{
    let s = x + part + y;
    assert(s.subrange(x.len() as int, (x.len() + part.len()) as int) =~= part);
}

/// The search by tag selects a record of `t` only when it is active and a tag
/// row joins it that names the entity (`?1`), the record's id and the tag
/// (`?2`) and is itself active: a removed tag or a deleted record is never
/// found.
pub proof fn law_tag_search_statement(t: Seq<char>)
    ensures
        has_text(tagged_records_stmt(t), "t.entity = ?1 AND t.record_id = e.id"@),
        has_text(tagged_records_stmt(t), "t.tag = ?2"@),
        has_text(tagged_records_stmt(t), " t.deleted_at IS NULL"@),
        has_text(tagged_records_stmt(t), " e.deleted_at IS NULL"@),
{
    let head = "SELECT "@ + select_list(record_columns(), "e."@) + " FROM "@ + t;
    reveal_strlit(" e JOIN tags t ON t.entity = ?1 AND t.record_id = e.id WHERE t.tag = ?2 AND t.deleted_at IS NULL AND e.deleted_at IS NULL ORDER BY e.id");
    reveal_strlit("t.entity = ?1 AND t.record_id = e.id");
    reveal_strlit("t.tag = ?2");
    reveal_strlit(" t.deleted_at IS NULL");
    reveal_strlit(" e.deleted_at IS NULL");
    reveal_strlit(" e JOIN tags t ON ");
    reveal_strlit(" WHERE ");
    reveal_strlit(" AND");
    reveal_strlit(" ORDER BY e.id");
    let tail = " e JOIN tags t ON t.entity = ?1 AND t.record_id = e.id WHERE t.tag = ?2 AND t.deleted_at IS NULL AND e.deleted_at IS NULL ORDER BY e.id"@;
    let join = "t.entity = ?1 AND t.record_id = e.id"@;
    let tag = "t.tag = ?2"@;
    let active_tag = " t.deleted_at IS NULL"@;
    let active_rec = " e.deleted_at IS NULL"@;
    assert(tail =~= " e JOIN tags t ON "@ + join + (" WHERE "@ + tag + " AND"@ + active_tag + " AND"@
        + active_rec + " ORDER BY e.id"@));
    assert(tagged_records_stmt(t) =~= (head + " e JOIN tags t ON "@) + join + (" WHERE "@ + tag + " AND"@
        + active_tag + " AND"@ + active_rec + " ORDER BY e.id"@));
    lemma_has_text(head + " e JOIN tags t ON "@, join, " WHERE "@ + tag + " AND"@ + active_tag + " AND"@
        + active_rec + " ORDER BY e.id"@);
    assert(tagged_records_stmt(t) =~= (head + " e JOIN tags t ON "@ + join + " WHERE "@) + tag + (" AND"@
        + active_tag + " AND"@ + active_rec + " ORDER BY e.id"@));
    lemma_has_text(head + " e JOIN tags t ON "@ + join + " WHERE "@, tag, " AND"@ + active_tag + " AND"@
        + active_rec + " ORDER BY e.id"@);
    assert(tagged_records_stmt(t) =~= (head + " e JOIN tags t ON "@ + join + " WHERE "@ + tag + " AND"@)
        + active_tag + (" AND"@ + active_rec + " ORDER BY e.id"@));
    lemma_has_text(head + " e JOIN tags t ON "@ + join + " WHERE "@ + tag + " AND"@, active_tag, " AND"@
        + active_rec + " ORDER BY e.id"@);
    assert(tagged_records_stmt(t) =~= (head + " e JOIN tags t ON "@ + join + " WHERE "@ + tag + " AND"@
        + active_tag + " AND"@) + active_rec + " ORDER BY e.id"@);
    lemma_has_text(head + " e JOIN tags t ON "@ + join + " WHERE "@ + tag + " AND"@ + active_tag + " AND"@,
        active_rec, " ORDER BY e.id"@);
}

/// The two counts of a table count the same rows of `t` under complementary
/// conditions: the active ones those whose `deleted_at` is NULL, the
/// soft-deleted ones those whose `deleted_at` is set. So each row is counted
/// in exactly one of them.
pub proof fn law_count_statements(t: Seq<char>)
    ensures
        ({
            let base = "SELECT COUNT(*) FROM "@ + t;
            &&& count_stmt(t, false) == base + " WHERE deleted_at IS NULL"@
            &&& count_stmt(t, true) == base + " WHERE deleted_at IS NOT NULL"@
            &&& has_text(count_stmt(t, false), "deleted_at IS NULL"@)
            &&& has_text(count_stmt(t, true), "deleted_at IS NOT NULL"@)
        }),
{
    let base = "SELECT COUNT(*) FROM "@ + t;
    reveal_strlit(" WHERE deleted_at IS NULL");
    reveal_strlit(" WHERE deleted_at IS NOT NULL");
    reveal_strlit("deleted_at IS NULL");
    reveal_strlit("deleted_at IS NOT NULL");
    reveal_strlit(" WHERE ");
    assert(" WHERE deleted_at IS NULL"@ =~= " WHERE "@ + "deleted_at IS NULL"@);
    assert(" WHERE deleted_at IS NOT NULL"@ =~= " WHERE "@ + "deleted_at IS NOT NULL"@);
    assert(count_stmt(t, false) =~= (base + " WHERE "@) + "deleted_at IS NULL"@ + Seq::<char>::empty());
    lemma_has_text(base + " WHERE "@, "deleted_at IS NULL"@, Seq::<char>::empty());
    assert(count_stmt(t, true) =~= (base + " WHERE "@) + "deleted_at IS NOT NULL"@ + Seq::<char>::empty());
    lemma_has_text(base + " WHERE "@, "deleted_at IS NOT NULL"@, Seq::<char>::empty());
}

proof fn lemma_has_text_extend(x: Seq<char>, part: Seq<char>, y: Seq<char>)
    requires
        has_text(x, part) || has_text(y, part),
    ensures
        has_text(x + y, part),
{
    let s = x + y;
    if has_text(x, part) {
        let i = choose|i: int| 0 <= i && i + part.len() <= x.len() && #[trigger] x.subrange(i, i + part.len()) == part;
        assert(s.subrange(i, i + part.len()) =~= x.subrange(i, i + part.len()));
    } else {
        let i = choose|i: int| 0 <= i && i + part.len() <= y.len() && #[trigger] y.subrange(i, i + part.len()) == part;
        assert(s.subrange(x.len() + i, x.len() + i + part.len()) =~= y.subrange(i, i + part.len()));
    }
}

proof fn lemma_overview_clauses(n: int, k: int)
    requires
        0 <= k < n,
    ensures
        has_text(overview_clauses(n), overview_clause(entity_name(k))),
    decreases n,
{
    let c = overview_clause(entity_name(k));
    if n <= 1 {
        lemma_has_text(Seq::empty(), c, Seq::empty());
        assert(Seq::<char>::empty() + c + Seq::<char>::empty() =~= c);
    } else if k == n - 1 {
        lemma_has_text(overview_clauses(n - 1) + " OR "@, c, Seq::empty());
        assert(overview_clauses(n - 1) + " OR "@ + c + Seq::<char>::empty() =~= overview_clauses(n));
    } else {
        lemma_overview_clauses(n - 1, k);
        lemma_has_text_extend(overview_clauses(n - 1), c, " OR "@ + overview_clause(entity_name(n - 1)));
        assert(overview_clauses(n - 1) + (" OR "@ + overview_clause(entity_name(n - 1))) =~= overview_clauses(n));
    }
}

/// The tag overview counts only active tag rows (`t.deleted_at IS NULL`),
/// groups them by tag, and keeps a row of entity `e` only when it points to an
/// active record of `e`'s table, for each entity table: a removed tag, or a
/// tag of a deleted record, is never counted.
pub proof fn law_overview_statement()
    ensures
        has_text(tags_overview_sql_spec(), " FROM tags t WHERE t.deleted_at IS NULL AND ("@),
        has_text(tags_overview_sql_spec(), " GROUP BY t.tag"@),
        forall|k: int| 0 <= k < ENTITY_COUNT ==> has_text(
            tags_overview_sql_spec(),
            #[trigger] overview_clause(entity_name(k)),
        ),
        forall|t: Seq<char>| has_text(#[trigger] overview_clause(t), "t.entity = '"@ + t + "'"@),
        forall|t: Seq<char>| has_text(#[trigger] overview_clause(t), " e.deleted_at IS NULL"@),
{
    let cols = "SELECT "@ + select_list(overview_columns(), ""@);
    let from = " FROM tags t WHERE t.deleted_at IS NULL AND ("@;
    let clauses = overview_clauses(ENTITY_COUNT as int);
    let tail = ") GROUP BY t.tag ORDER BY t.tag"@;
    let spec = tags_overview_sql_spec();
    assert(spec =~= cols + from + (clauses + tail));
    lemma_has_text(cols, from, clauses + tail);
    reveal_strlit(") GROUP BY t.tag ORDER BY t.tag");
    reveal_strlit(" GROUP BY t.tag");
    reveal_strlit(")");
    reveal_strlit(" ORDER BY t.tag");
    assert(tail =~= ")"@ + " GROUP BY t.tag"@ + " ORDER BY t.tag"@);
    assert(spec =~= (cols + from + clauses + ")"@) + " GROUP BY t.tag"@ + " ORDER BY t.tag"@);
    lemma_has_text(cols + from + clauses + ")"@, " GROUP BY t.tag"@, " ORDER BY t.tag"@);
    assert forall|k: int| 0 <= k < ENTITY_COUNT implies has_text(spec, #[trigger] overview_clause(entity_name(k))) by {
        lemma_overview_clauses(ENTITY_COUNT as int, k);
        lemma_has_text_extend(clauses, overview_clause(entity_name(k)), tail);
        lemma_has_text_extend(cols + from, overview_clause(entity_name(k)), clauses + tail);
        assert(cols + from + (clauses + tail) =~= spec);
    }
    reveal_strlit("(t.entity = '");
    reveal_strlit("t.entity = '");
    reveal_strlit("(");
    reveal_strlit("'");
    reveal_strlit("' AND EXISTS (SELECT 1 FROM ");
    reveal_strlit(" e WHERE e.id = t.record_id AND e.deleted_at IS NULL))");
    reveal_strlit(" e WHERE e.id = t.record_id AND");
    reveal_strlit(" e.deleted_at IS NULL");
    reveal_strlit("))");
    reveal_strlit(" AND EXISTS (SELECT 1 FROM ");
    assert forall|t: Seq<char>| has_text(#[trigger] overview_clause(t), "t.entity = '"@ + t + "'"@) by {
        let rest = " AND EXISTS (SELECT 1 FROM "@ + t + " e WHERE e.id = t.record_id AND e.deleted_at IS NULL))"@;
        assert("(t.entity = '"@ =~= "("@ + "t.entity = '"@);
        assert("' AND EXISTS (SELECT 1 FROM "@ =~= "'"@ + " AND EXISTS (SELECT 1 FROM "@);
        assert(overview_clause(t) =~= "("@ + ("t.entity = '"@ + t + "'"@) + rest);
        lemma_has_text("("@, "t.entity = '"@ + t + "'"@, rest);
    }
    assert forall|t: Seq<char>| has_text(#[trigger] overview_clause(t), " e.deleted_at IS NULL"@) by {
        let front = "(t.entity = '"@ + t + "' AND EXISTS (SELECT 1 FROM "@ + t + " e WHERE e.id = t.record_id AND"@;
        assert(" e WHERE e.id = t.record_id AND e.deleted_at IS NULL))"@ =~= " e WHERE e.id = t.record_id AND"@
            + " e.deleted_at IS NULL"@ + "))"@);
        assert(overview_clause(t) =~= front + " e.deleted_at IS NULL"@ + "))"@);
        lemma_has_text(front, " e.deleted_at IS NULL"@, "))"@);
    }
}

/// Compile one of the library's statements.
fn prepare_statement<'conn>(conn: &'conn rusqlite::Connection, sql: &str) -> (res: Result<
    rusqlite::Statement<'conn>,
    MemError,
>)
    requires
        library_statement(sql@),
    ensures
        res matches Err(e) ==> e is Storage,
{
    storage(sql_prepare(conn, sql))
}

/// Run one of the library's statements with `params`; the number of rows changed.
fn execute_statement(conn: &rusqlite::Connection, sql: &str, params: &[SqlParam]) -> (res: Result<
    usize,
    MemError,
>)
    requires
        library_statement(sql@),
    ensures
        res matches Err(e) ==> e is Storage,
{
    storage(sql_execute(conn, sql, params))
}

/// Run the statements of one of the library's scripts (the schema and its migrations).
fn execute_batch_statement(conn: &rusqlite::Connection, sql: &str) -> (res: Result<(), MemError>)
    requires
        library_statement(sql@),
    ensures
        res matches Err(e) ==> e is Storage,
{
    storage(sql_execute_batch(conn, sql))
}

/// Run a query whose rows are records and collect them in order.
fn query_records(conn: &rusqlite::Connection, sql: &str, params: &[SqlParam]) -> (res: Result<
    Vec<Record>,
    MemError,
>)
    requires
        library_statement(sql@),
    ensures
        res matches Err(e) ==> e is Storage || e is TooManyRows,
{
    let mut stmt = prepare_statement(conn, sql)?;
    let mut rows = storage(sql_query(&mut stmt, params))?;
    let mut out: Vec<Record> = Vec::new();
    loop
        decreases usize::MAX - out.len(),
    {
        let next = storage(sql_next_row(&mut rows))?;
        match next {
            None => {
                return Ok(out);
            },
            Some(row) => {
                let rec = read_record(row)?;
                if out.len() == usize::MAX {
                    return Err(MemError::TooManyRows);
                }
                out.push(rec);
            },
        }
    }
}

/// No parameters.
fn no_params() -> (p: Vec<SqlParam>)
    ensures
        p@.len() == 0,
{
    Vec::new()
}

/// One text parameter `?1`.
fn text_param(text: &str) -> (p: Vec<SqlParam>)
    ensures
        p@.len() == 1,
        p@[0] matches SqlParam::Text(t) && t@ == text@,
{
    vec![SqlParam::Text(String::from_str(text))]
}

/// One integer parameter `?1`.
fn integer_param(n: i64) -> (p: Vec<SqlParam>)
    ensures
        p@ == seq![SqlParam::Integer(n)],
{
    let p = vec![SqlParam::Integer(n)];
    assert(p@ =~= seq![SqlParam::Integer(n)]);
    p
}

/// The parameters naming one record: `?1` its entity, `?2` its id.
fn record_ref_params(table: &str, id: i64) -> (p: Vec<SqlParam>)
    ensures
        p@.len() == 2,
        p@[0] matches SqlParam::Text(t) && t@ == table@,
        p@[1] == SqlParam::Integer(id),
{
    vec![SqlParam::Text(String::from_str(table)), SqlParam::Integer(id)]
}

/// The parameters naming one tag in one entity: `?1` the entity, `?2` the tag.
fn entity_tag_params(table: &str, tag: &String) -> (p: Vec<SqlParam>)
    ensures
        p@.len() == 2,
        p@[0] matches SqlParam::Text(t) && t@ == table@,
        p@[1] matches SqlParam::Text(t) && t@ == tag@,
{
    vec![SqlParam::Text(String::from_str(table)), SqlParam::Text(tag.clone())]
}

/// The SQL that adds a record to `table`.
pub fn insert_sql(table: &str) -> (sql: String)
    ensures
        sql@ == "INSERT INTO "@ + table@ + " (content) VALUES (?1)"@,
{
    concat3("INSERT INTO ", table, " (content) VALUES (?1)")
}

/// Add a record to an entity. Returns the id of the new row.
pub fn insert(conn: &rusqlite::Connection, table: &str, content: &str) -> (res: Result<i64, MemError>)
    ensures
        checked_table_outcome(table@, res),
{
    ensure_valid_table(table)?;
    let sql = insert_sql(table);
    proof {
        lemma_table_statement(table@, sql@);
    }
    let params = text_param(content);
    execute_statement(conn, sql.as_str(), params.as_slice())?;
    Ok(sql_last_insert_rowid(conn))
}

/// The SQL that lists the active records of `table` by ascending id,
/// selecting `record_columns()` in order.
pub fn list_active_sql(table: &str) -> (sql: String)
    ensures
        sql@ == "SELECT "@ + select_list(record_columns(), ""@) + " FROM "@ + table@
            + " WHERE deleted_at IS NULL ORDER BY id"@,
{
    let mut sql = String::from_str("SELECT ");
    let columns = select_columns(&record_column_names(), "");
    sql.append(columns.as_str());
    sql.append(" FROM ");
    sql.append(table);
    sql.append(" WHERE deleted_at IS NULL ORDER BY id");
    sql
}

/// Return the active (non-deleted) records of an entity, by ascending id.
pub fn list_active(conn: &rusqlite::Connection, table: &str) -> (res: Result<Vec<Record>, MemError>)
    ensures
        checked_table_outcome(table@, res),
{
    ensure_valid_table(table)?;
    let sql = list_active_sql(table);
    proof {
        lemma_table_statement(table@, sql@);
    }
    let params = no_params();
    query_records(conn, sql.as_str(), params.as_slice())
}

/// The SQL that soft-deletes the active record `?1` of `table`.
pub fn soft_delete_sql(table: &str) -> (sql: String)
    ensures
        sql@ == "UPDATE "@ + table@
            + " SET deleted_at = datetime('now'), updated_at = datetime('now') WHERE id = ?1 AND deleted_at IS NULL"@,
{
    concat3(
        "UPDATE ",
        table,
        " SET deleted_at = datetime('now'), updated_at = datetime('now') WHERE id = ?1 AND deleted_at IS NULL",
    )
}

/// Soft delete: set `deleted_at` for an active record.
/// Returns the number of affected rows.
pub fn soft_delete(conn: &rusqlite::Connection, table: &str, id: i64) -> (res: Result<usize, MemError>)
    ensures
        checked_table_outcome(table@, res),
{
    ensure_valid_table(table)?;
    let sql = soft_delete_sql(table);
    proof {
        lemma_table_statement(table@, sql@);
    }
    let params = integer_param(id);
    execute_statement(conn, sql.as_str(), params.as_slice())
}

/// The SQL that removes the tags of record `?2` in entity `?1`.
pub const PURGE_TAGS_SQL: &'static str = "DELETE FROM tags WHERE entity = ?1 AND record_id = ?2";

/// The SQL that physically removes row `?1` of `table`.
pub fn purge_sql(table: &str) -> (sql: String)
    ensures
        sql@ == "DELETE FROM "@ + table@ + " WHERE id = ?1"@,
{
    concat3("DELETE FROM ", table, " WHERE id = ?1")
}

/// Remove the tags of row `id` of `table`, then the row.
fn purge_rows(conn: &rusqlite::Connection, table: &str, id: i64) -> (res: Result<usize, MemError>)
    requires
        is_entity(table@),
    ensures
        res matches Err(e) ==> db_failure(e),
{
    let tag_params = record_ref_params(table, id);
    execute_statement(conn, PURGE_TAGS_SQL, tag_params.as_slice())?;
    let sql = purge_sql(table);
    proof {
        lemma_table_statement(table@, sql@);
    }
    let params = integer_param(id);
    execute_statement(conn, sql.as_str(), params.as_slice())
}

/// Hard delete: physically remove a row and its tags, in one transaction
/// (the caller's, when one is already open). Returns the number of deleted
/// entity rows.
pub fn purge(conn: &rusqlite::Connection, table: &str, id: i64) -> (res: Result<usize, MemError>)
    ensures
        checked_table_outcome(table@, res),
{
    ensure_valid_table(table)?;
    if sql_is_autocommit(conn) {
        let tx = storage(sql_begin(conn))?;
        let removed = purge_rows(sql_transaction_connection(&tx), table, id)?;
        storage(sql_commit(tx))?;
        Ok(removed)
    } else {
        purge_rows(conn, table, id)
    }
}

/// What `update` returns: the id of the new record when a record was
/// removed, `None` when none was.
pub open spec fn replace_result_spec(removed: usize, new_id: i64) -> Option<i64> {
    if removed > 0 {
        Some(new_id)
    } else {
        None
    }
}

/// What `update` returns, from the number of records it removed and the id
/// of the record it then added.
pub fn replace_result(removed: usize, new_id: i64) -> (r: Option<i64>)
    ensures
        r == replace_result_spec(removed, new_id),
{
    if removed > 0 {
        Some(new_id)
    } else {
        None
    }
}

/// How `update` removes the record it replaces.
#[derive(Debug, Clone, Copy, PartialEq, Eq, Structural)]
pub enum Removal {
    /// Mark the record deleted (a record that is not active stays as it is).
    SoftDelete,
    /// Remove the record and its tags.
    Purge,
    /// Remove nothing: `update` then adds nothing and returns `Ok(None)`.
    Keep,
}

/// The removal step of `update`: a soft update marks the record deleted; a
/// hard one purges it when it is active and keeps everything otherwise.
pub open spec fn removal_step_spec(hard: bool, active: bool) -> Removal {
    if !hard {
        Removal::SoftDelete
    } else if active {
        Removal::Purge
    } else {
        Removal::Keep
    }
}

/// The removal step of `update`, from the mode and whether the record is
/// active. A hard update of a record that is not active removes nothing, so
/// `update` returns `Ok(None)` and leaves the database as it was.
pub fn removal_step(hard: bool, active: bool) -> (step: Removal)
    ensures
        step == removal_step_spec(hard, active),
{
    if !hard {
        Removal::SoftDelete
    } else if active {
        Removal::Purge
    } else {
        Removal::Keep
    }
}

/// Update a record: remove the old one (`soft_delete`, or `purge` when `hard`)
/// and add a new one with `content`, in one transaction. Returns the id of the
/// new record, or `None` when there is no active record `id` (nothing changes).
pub fn update(
    conn: &rusqlite::Connection,
    table: &str,
    id: i64,
    content: &str,
    hard: bool,
) -> (res: Result<Option<i64>, MemError>)
    ensures
        checked_table_outcome(table@, res),
{
    ensure_valid_table(table)?;
    let tx = storage(sql_begin(conn))?;
    let removed: usize = {
        let c = sql_transaction_connection(&tx);
        let active = if hard {
            record_is_active(c, table, id)?
        } else {
            true
        };
        match removal_step(hard, active) {
            Removal::SoftDelete => soft_delete(c, table, id)?,
            Removal::Purge => purge(c, table, id)?,
            Removal::Keep => 0,
        }
    };
    if removed == 0 {
        return Ok(replace_result(removed, id));
    }
    let new_id = insert(sql_transaction_connection(&tx), table, content)?;
    storage(sql_commit(tx))?;
    Ok(replace_result(removed, new_id))
}

/// Run a query and say whether it gives at least one row.
fn query_has_row(conn: &rusqlite::Connection, sql: &str, params: &[SqlParam]) -> (res: Result<
    bool,
    MemError,
>)
    requires
        library_statement(sql@),
    ensures
        res matches Err(e) ==> e is Storage,
{
    let mut stmt = prepare_statement(conn, sql)?;
    let mut rows = storage(sql_query(&mut stmt, params))?;
    let next = storage(sql_next_row(&mut rows))?;
    Ok(next.is_some())
}

/// Run a query and read column 0 of its first row as an integer, if there is a row.
fn query_first_i64(conn: &rusqlite::Connection, sql: &str, params: &[SqlParam]) -> (res: Result<
    Option<i64>,
    MemError,
>)
    requires
        library_statement(sql@),
    ensures
        res matches Err(e) ==> e is Storage,
{
    let mut stmt = prepare_statement(conn, sql)?;
    let mut rows = storage(sql_query(&mut stmt, params))?;
    let next = storage(sql_next_row(&mut rows))?;
    match next {
        None => Ok(None),
        Some(row) => {
            let v = column_int(row, 0)?;
            Ok(Some(v))
        },
    }
}

/// Run a query that gives one row and read its column 0 as an integer.
fn query_one_i64(conn: &rusqlite::Connection, sql: &str, params: &[SqlParam]) -> (res: Result<
    i64,
    MemError,
>)
    requires
        library_statement(sql@),
    ensures
        res matches Err(e) ==> e is Storage || e is NoRows,
{
    match query_first_i64(conn, sql, params)? {
        Some(v) => Ok(v),
        None => Err(MemError::NoRows),
    }
}

/// The SQL that finds the active record `?1` of `table`.
pub fn record_is_active_sql(table: &str) -> (sql: String)
    ensures
        sql@ == "SELECT 1 FROM "@ + table@ + " WHERE id = ?1 AND deleted_at IS NULL"@,
{
    concat3("SELECT 1 FROM ", table, " WHERE id = ?1 AND deleted_at IS NULL")
}

/// Whether an active (non-deleted) record `id` exists in `table`.
pub fn record_is_active(conn: &rusqlite::Connection, table: &str, id: i64) -> (res: Result<
    bool,
    MemError,
>)
    ensures
        checked_table_outcome(table@, res),
{
    ensure_valid_table(table)?;
    let sql = record_is_active_sql(table);
    proof {
        lemma_table_statement(table@, sql@);
    }
    let params = integer_param(id);
    query_has_row(conn, sql.as_str(), params.as_slice())
}

/// Outcome of adding a tag to a record.
#[derive(Debug, Clone, Copy, PartialEq, Eq, Structural)]
pub enum TagOutcome {
    /// The tag was newly attached (or a soft-deleted tag was reactivated).
    Added,
    /// The tag was already present and active (no change).
    AlreadyPresent,
    /// No active record with the given id exists in the entity.
    NoRecord,
}

/// The outcome of a tag operation on `table` with tag `tag`: the table is
/// checked first, then the tag is normalized, then the database is used.
pub open spec fn tag_op_outcome<T>(table: Seq<char>, tag: Seq<char>, res: Result<T, MemError>) -> bool {
    let normal = tag_is_normal(tag_normal_form(tag));
    match res {
        Ok(_) => is_entity(table) && normal,
        Err(MemError::UnknownEntity(t)) => !is_entity(table) && t@ == table,
        Err(e) => is_entity(table) && if normal {
            db_failure(e)
        } else {
            normalize_tag_post(tag, Err(e))
        },
    }
}

/// The SQL that finds the active tag `?3` of record `?2` in entity `?1`.
pub const ACTIVE_TAG_SQL: &'static str = "SELECT id FROM tags WHERE entity = ?1 AND record_id = ?2 AND tag = ?3 AND deleted_at IS NULL";

/// The SQL that attaches tag `?3` to record `?2` of entity `?1`, reactivating it if it was removed.
pub const ATTACH_TAG_SQL: &'static str = "INSERT INTO tags (entity, record_id, tag) VALUES (?1, ?2, ?3) ON CONFLICT (entity, record_id, tag) DO UPDATE SET deleted_at = NULL";

/// The SQL that physically removes tag `?3` of record `?2` in entity `?1`.
pub const DELETE_TAG_SQL: &'static str = "DELETE FROM tags WHERE entity = ?1 AND record_id = ?2 AND tag = ?3";

/// The SQL that soft-removes the active tag `?3` of record `?2` in entity `?1`.
pub const SOFT_REMOVE_TAG_SQL: &'static str = "UPDATE tags SET deleted_at = datetime('now') WHERE entity = ?1 AND record_id = ?2 AND tag = ?3 AND deleted_at IS NULL";

/// The parameters of the statements on one tag row: `?1` the entity, `?2`
/// the record id, `?3` the tag.
fn tag_params(table: &str, record_id: i64, tag: &String) -> (p: Vec<SqlParam>)
    ensures
        p@.len() == 3,
        p@[0] matches SqlParam::Text(t) && t@ == table@,
        p@[1] == SqlParam::Integer(record_id),
        p@[2] matches SqlParam::Text(t) && t@ == tag@,
{
    vec![
        SqlParam::Text(String::from_str(table)),
        SqlParam::Integer(record_id),
        SqlParam::Text(tag.clone()),
    ]
}

/// The outcome of attaching a tag, from the lookups: whether the record is
/// active, and the id of the tag row already active on it, if any.
pub open spec fn tag_outcome_spec(record_active: bool, present: Option<i64>) -> TagOutcome {
    if !record_active {
        TagOutcome::NoRecord
    } else if present is Some {
        TagOutcome::AlreadyPresent
    } else {
        TagOutcome::Added
    }
}

/// The outcome of attaching a tag, from the lookups (see `tag_outcome_spec`).
pub fn tag_outcome(record_active: bool, present: Option<i64>) -> (o: TagOutcome)
    ensures
        o == tag_outcome_spec(record_active, present),
{
    if !record_active {
        TagOutcome::NoRecord
    } else if present.is_some() {
        TagOutcome::AlreadyPresent
    } else {
        TagOutcome::Added
    }
}

/// Attach a (normalized) tag to an active record. Idempotent: an active tag
/// is left as it is, a soft-deleted one is reactivated.
pub fn add_tag(conn: &rusqlite::Connection, table: &str, record_id: i64, tag: &str) -> (res: Result<
    TagOutcome,
    MemError,
>)
    ensures
        tag_op_outcome(table@, tag@, res),
{
    ensure_valid_table(table)?;
    let tag = normalize_tag(tag)?;
    let active = record_is_active(conn, table, record_id)?;
    if !active {
        return Ok(tag_outcome(active, None));
    }
    let params = tag_params(table, record_id, &tag);
    let present = query_first_i64(conn, ACTIVE_TAG_SQL, params.as_slice())?;
    if present.is_none() {
        execute_statement(conn, ATTACH_TAG_SQL, params.as_slice())?;
    }
    Ok(tag_outcome(active, present))
}

/// The statement that removes a tag: the physical delete when `hard`, else
/// the soft removal of the active tag.
pub fn remove_tag_sql(hard: bool) -> (sql: &'static str)
    ensures
        sql@ == if hard {
            DELETE_TAG_SQL@
        } else {
            SOFT_REMOVE_TAG_SQL@
        },
{
    if hard {
        DELETE_TAG_SQL
    } else {
        SOFT_REMOVE_TAG_SQL
    }
}

/// Remove a tag from a record: soft by default, `hard` removes the row.
/// Returns the number of affected tag rows.
pub fn remove_tag(
    conn: &rusqlite::Connection,
    table: &str,
    record_id: i64,
    tag: &str,
    hard: bool,
) -> (res: Result<usize, MemError>)
    ensures
        tag_op_outcome(table@, tag@, res),
{
    ensure_valid_table(table)?;
    let tag = normalize_tag(tag)?;
    let params = tag_params(table, record_id, &tag);
    execute_statement(conn, remove_tag_sql(hard), params.as_slice())
}

/// The position of an entity table in the listing order.
pub open spec fn entity_rank(t: Seq<char>) -> int {
    choose|i: int| 0 <= i < ENTITY_COUNT && entity_name(i) == t
}

/// The SQL that lists the active records of `table` carrying the active tag `?2`
/// (with `?1` the entity name), by ascending id, selecting `record_columns()`
/// of the record in order.
pub fn find_by_tag_sql(table: &str) -> (sql: String)
    ensures
        sql@ == "SELECT "@ + select_list(record_columns(), "e."@) + " FROM "@ + table@
            + " e JOIN tags t ON t.entity = ?1 AND t.record_id = e.id WHERE t.tag = ?2 AND t.deleted_at IS NULL AND e.deleted_at IS NULL ORDER BY e.id"@,
{
    let mut sql = String::from_str("SELECT ");
    let columns = select_columns(&record_column_names(), "e.");
    sql.append(columns.as_str());
    sql.append(" FROM ");
    sql.append(table);
    sql.append(
        " e JOIN tags t ON t.entity = ?1 AND t.record_id = e.id WHERE t.tag = ?2 AND t.deleted_at IS NULL AND e.deleted_at IS NULL ORDER BY e.id",
    );
    sql
}

/// The shape of a successful `find_by_tag`: non-empty groups, named by
/// entity tables in the listing order, each at most once, and only the
/// filtered entity when there is a filter.
pub open spec fn tag_groups_wf(groups: Seq<(String, Vec<Record>)>, filter: Option<Seq<char>>) -> bool {
    &&& forall|i: int| 0 <= i < groups.len() ==> (#[trigger] groups[i]).1@.len() > 0
    &&& forall|i: int| 0 <= i < groups.len() ==> exists|k: int|
        0 <= k < ENTITY_COUNT && (#[trigger] groups[i]).0@ == entity_name(k)
    &&& forall|i: int, j: int| 0 <= i < j < groups.len() ==> entity_rank((#[trigger] groups[i]).0@)
        < entity_rank((#[trigger] groups[j]).0@)
    &&& forall|i: int| 0 <= i < groups.len() ==> match filter {
        Some(f) => (#[trigger] groups[i]).0@ == f,
        None => true,
    }
}

/// Whether the search with `filter` queries the `k`-th entity table.
pub open spec fn searched(filter: Option<Seq<char>>, k: int) -> bool {
    match filter {
        Some(f) => f == entity_name(k),
        None => true,
    }
}

/// The groups of the per-entity results: `found[k]` is what the query of
/// the `k`-th entity table gave; each non-empty one becomes a group named
/// after its table, in table order.
pub open spec fn groups_of(found: Seq<Seq<Record>>) -> Seq<(Seq<char>, Seq<Record>)>
    decreases found.len(),
{
    if found.len() == 0 {
        Seq::empty()
    } else {
        let k = found.len() - 1;
        let earlier = groups_of(found.drop_last());
        if k < ENTITY_COUNT && found.last().len() > 0 {
            earlier.push((entity_name(k), found.last()))
        } else {
            earlier
        }
    }
}

/// The groups as names and records.
pub open spec fn group_views(groups: Seq<(String, Vec<Record>)>) -> Seq<(Seq<char>, Seq<Record>)> {
    groups.map_values(|g: (String, Vec<Record>)| (g.0@, g.1@))
}

/// The groups of a search with `filter`: well formed, and exactly the
/// non-empty results of the queries of the searched tables, one per table,
/// in table order (a table not searched gives nothing).
pub open spec fn found_groups(groups: Seq<(String, Vec<Record>)>, filter: Option<Seq<char>>) -> bool {
    &&& tag_groups_wf(groups, filter)
    &&& exists|found: Seq<Seq<Record>>|
        found.len() == ENTITY_COUNT && (forall|k: int|
            0 <= k < ENTITY_COUNT && !searched(filter, k) ==> (#[trigger] found[k]).len() == 0)
            && group_views(groups) == #[trigger] groups_of(found)
}

/// The results as records.
pub open spec fn found_views(found: Seq<Vec<Record>>) -> Seq<Seq<Record>> {
    found.map_values(|v: Vec<Record>| v@)
}

/// Group the per-entity results of a tag search: `found[k]` is what the
/// query of the `k`-th entity table gave; each non-empty one becomes a group
/// named after its table, in table order.
pub fn group_found(found: Vec<Vec<Record>>) -> (groups: Vec<(String, Vec<Record>)>)
    ensures
        group_views(groups@) == groups_of(found_views(found@)),
{
    let ghost all = found_views(found@);
    let n = found.len();
    let mut rest = found;
    let mut groups: Vec<(String, Vec<Record>)> = Vec::new();
    let mut k: usize = 0;
    while k < n
        invariant
            k <= n,
            n == all.len(),
            rest@.len() == n - k,
            found_views(rest@) == all.skip(k as int),
            group_views(groups@) == groups_of(all.take(k as int)),
        decreases n - k,
    {
        let ghost before = groups@;
        let ghost old_rest = rest@;
        let records = rest.remove(0);
        proof {
            assert forall|i: int| 0 <= i < rest@.len() implies #[trigger] found_views(rest@)[i]
                == all.skip(k + 1)[i] by {
                assert(rest@[i] == old_rest[i + 1]);
                assert(found_views(old_rest)[i + 1] == all.skip(k as int)[i + 1]);
                assert(all.skip(k as int)[i + 1] == all.skip(k + 1)[i]);
            }
            assert(found_views(rest@) =~= all.skip(k + 1));
            assert(records@ == all[k as int]) by {
                assert(all.skip(k as int)[0] == all[k as int]);
            }
            assert(all.take(k + 1).drop_last() =~= all.take(k as int));
        }
        if k < ENTITY_COUNT && records.len() > 0 {
            let name = entity_table(k);
            groups.push((String::from_str(name), records));
            proof {
                assert(group_views(groups@) =~= group_views(before).push((entity_name(k as int), all[k as int])));
            }
        }
        k = k + 1;
    }
    assert(all.take(n as int) =~= all);
    groups
}

/// The groups of the results are non-empty, named after their tables in
/// table order, and only of searched tables.
proof fn lemma_groups_of_wf(found: Seq<Seq<Record>>, filter: Option<Seq<char>>)
    requires
        found.len() <= ENTITY_COUNT,
        forall|k: int| 0 <= k < found.len() && !searched(filter, k) ==> (#[trigger] found[k]).len() == 0,
    ensures
        forall|i: int|
            0 <= i < groups_of(found).len() ==> (#[trigger] groups_of(found)[i]).1.len() > 0 && 0
                <= entity_rank(groups_of(found)[i].0) < found.len() && groups_of(found)[i].0
                == entity_name(entity_rank(groups_of(found)[i].0)) && searched(
                filter,
                entity_rank(groups_of(found)[i].0),
            ),
        forall|i: int, j: int|
            0 <= i < j < groups_of(found).len() ==> entity_rank((#[trigger] groups_of(found)[i]).0)
                < entity_rank((#[trigger] groups_of(found)[j]).0),
        forall|i: int|
            0 <= i < groups_of(found).len() ==> match filter {
                Some(f) => (#[trigger] groups_of(found)[i]).0 == f,
                None => true,
            },
    decreases found.len(),
{
    if found.len() > 0 {
        let prev = found.drop_last();
        assert forall|k: int| 0 <= k < prev.len() && !searched(filter, k) implies (
        #[trigger] prev[k]).len() == 0 by {
            assert(prev[k] == found[k]);
        }
        lemma_groups_of_wf(prev, filter);
        let k = found.len() - 1;
        if k < ENTITY_COUNT && found.last().len() > 0 {
            lemma_entity_rank(k);
            let gs = groups_of(found);
            let pg = groups_of(prev);
            assert(gs == pg.push((entity_name(k), found.last())));
            assert(searched(filter, k));
            assert forall|i: int| 0 <= i < gs.len() implies (#[trigger] gs[i]).1.len() > 0 && 0
                <= entity_rank(gs[i].0) < found.len() && gs[i].0 == entity_name(entity_rank(gs[i].0))
                && searched(filter, entity_rank(gs[i].0)) by {
                if i < pg.len() {
                    assert(gs[i] == pg[i]);
                }
            }
            assert forall|i: int, j: int| 0 <= i < j < gs.len() implies entity_rank(
                (#[trigger] gs[i]).0,
            ) < entity_rank((#[trigger] gs[j]).0) by {
                assert(gs[i] == pg[i]);
                if j < pg.len() {
                    assert(gs[j] == pg[j]);
                }
            }
            assert forall|i: int| 0 <= i < gs.len() implies match filter {
                Some(f) => (#[trigger] gs[i]).0 == f,
                None => true,
            } by {
                if i < pg.len() {
                    assert(gs[i] == pg[i]);
                }
            }
        }
    }
}

proof fn lemma_entity_rank(k: int)
    requires
        0 <= k < ENTITY_COUNT,
    ensures
        entity_rank(entity_name(k)) == k,
{
    let t = entity_name(k);
    assert(0 <= k < ENTITY_COUNT && entity_name(k) == t);
    let r = entity_rank(t);
    assert(0 <= r < ENTITY_COUNT && entity_name(r) == t);
    if r != k {
        assert(entity_name(r).len() != t.len() || entity_name(r)[0] != t[0] || entity_name(r)[1] != t[1]);
    }
}

/// Active records carrying the (normalized) tag, grouped per entity in the
/// order of `ENTITY_TABLES`, leaving out entities with no such record.
/// Soft-deleted records and soft-deleted tags are left out. `entity_filter`
/// narrows the search to one entity.
pub fn find_by_tag(conn: &rusqlite::Connection, tag: &str, entity_filter: Option<&str>) -> (res:
    Result<Vec<(String, Vec<Record>)>, MemError>)
    ensures
        ({
            let normal = tag_is_normal(tag_normal_form(tag@));
            match res {
                Ok(groups) => normal && match entity_filter {
                    Some(f) => is_entity(f@) && found_groups(groups@, Some(f@)),
                    None => found_groups(groups@, None),
                },
                Err(MemError::UnknownEntity(t)) => normal && (entity_filter matches Some(f) && !is_entity(f@)
                    && t@ == f@),
                Err(e) => if !normal {
                    normalize_tag_post(tag@, Err(e))
                } else {
                    db_failure(e) && (entity_filter matches Some(f) ==> is_entity(f@))
                },
            }
        }),
{
    let norm = normalize_tag(tag)?;
    if let Some(t) = entity_filter {
        ensure_valid_table(t)?;
    }
    let ghost filter = match entity_filter {
        Some(f) => Some(f@),
        None => None::<Seq<char>>,
    };
    let mut results: Vec<Vec<Record>> = Vec::new();
    let mut k: usize = 0;
    while k < ENTITY_COUNT
        invariant
            k <= ENTITY_COUNT,
            filter == match entity_filter {
                Some(f) => Some(f@),
                None => None::<Seq<char>>,
            },
            results@.len() == k,
            forall|j: int|
                0 <= j < k && !searched(filter, j) ==> (#[trigger] results@[j])@.len() == 0,
            tag_is_normal(tag_normal_form(tag@)),
            entity_filter matches Some(f) ==> is_entity(f@),
        decreases ENTITY_COUNT - k,
    {
        let table = entity_table(k);
        let wanted = match entity_filter {
            Some(f) => same_text(f, table),
            None => true,
        };
        assert(wanted == searched(filter, k as int));
        if wanted {
            let sql = find_by_tag_sql(table);
            proof {
                assert(is_entity(table@)) by {
                    assert(entity_name(k as int) == table@);
                }
                lemma_table_statement(table@, sql@);
            }
            let params = entity_tag_params(table, &norm);
            let records = query_records(conn, sql.as_str(), params.as_slice())?;
            results.push(records);
        } else {
            results.push(Vec::new());
        }
        k = k + 1;
    }
    let ghost found = found_views(results@);
    let groups = group_found(results);
    proof {
        assert forall|j: int| 0 <= j < found.len() && !searched(filter, j) implies (
        #[trigger] found[j]).len() == 0 by {
            assert(found[j] == results@[j]@);
        }
        lemma_groups_of_wf(found, filter);
        let gs = groups_of(found);
        assert forall|i: int| 0 <= i < groups@.len() implies #[trigger] groups@[i].0@ == gs[i].0
            && groups@[i].1@ == gs[i].1 by {
            assert(group_views(groups@)[i] == gs[i]);
        }
        assert forall|i: int| 0 <= i < groups@.len() implies exists|m: int|
            0 <= m < ENTITY_COUNT && (#[trigger] groups@[i]).0@ == entity_name(m) by {
            assert(groups@[i].0@ == gs[i].0);
            let m = entity_rank(gs[i].0);
            assert(0 <= m < ENTITY_COUNT && groups@[i].0@ == entity_name(m));
        }
        assert forall|i: int, j: int| 0 <= i < j < groups@.len() implies entity_rank(
            (#[trigger] groups@[i]).0@,
        ) < entity_rank((#[trigger] groups@[j]).0@) by {
            assert(groups@[i].0@ == gs[i].0);
            assert(groups@[j].0@ == gs[j].0);
        }
        assert(tag_groups_wf(groups@, filter));
        assert(found.len() == ENTITY_COUNT);
        assert(group_views(groups@) == groups_of(found));
    }
    Ok(groups)
}

/// The clause of the tag overview that keeps tags of active records of entity `t`.
pub open spec fn overview_clause(t: Seq<char>) -> Seq<char> {
    "(t.entity = '"@ + t + "' AND EXISTS (SELECT 1 FROM "@ + t
        + " e WHERE e.id = t.record_id AND e.deleted_at IS NULL))"@
}

/// The clauses of the first `n` entity tables joined with ` OR `.
pub open spec fn overview_clauses(n: int) -> Seq<char>
    decreases n,
{
    if n <= 1 {
        overview_clause(entity_name(0))
    } else {
        overview_clauses(n - 1) + " OR "@ + overview_clause(entity_name(n - 1))
    }
}

/// The columns of the tag overview: the tag and the number of its rows.
#[derive(Debug, Clone, Copy, PartialEq, Eq, Structural)]
pub enum OverviewField {
    Tag,
    Count,
}

/// The columns of the tag overview, in the order they are selected.
pub open spec fn overview_columns() -> Seq<Seq<char>> {
    seq!["t.tag"@, "COUNT(*) AS cnt"@]
}

/// The position of an overview field among the selected columns.
pub open spec fn overview_column_spec(f: OverviewField) -> int {
    match f {
        OverviewField::Tag => 0,
        OverviewField::Count => 1,
    }
}

/// The tag is read from the tag column and the count from the count.
pub proof fn law_overview_columns()
    ensures
        overview_columns()[overview_column_spec(OverviewField::Tag)] == "t.tag"@,
        overview_columns()[overview_column_spec(OverviewField::Count)] == "COUNT(*) AS cnt"@,
{
}

/// The column an overview field is read from.
pub fn overview_column(f: OverviewField) -> (i: usize)
    ensures
        i == overview_column_spec(f),
{
    match f {
        OverviewField::Tag => 0,
        OverviewField::Count => 1,
    }
}

/// The head of the tag overview query, up to its clauses.
pub open spec fn overview_head() -> Seq<char> {
    "SELECT "@ + select_list(overview_columns(), ""@)
        + " FROM tags t WHERE t.deleted_at IS NULL AND ("@
}

/// The SQL of the tag overview: each active tag with the number of active
/// records of known entities that carry it, ordered by tag; it selects
/// `overview_columns()` in order.
pub open spec fn tags_overview_sql_spec() -> Seq<char> {
    overview_head() + overview_clauses(ENTITY_COUNT as int) + ") GROUP BY t.tag ORDER BY t.tag"@
}

/// Build the SQL of the tag overview.
pub fn tags_overview_sql() -> (sql: String)
    ensures
        sql@ == tags_overview_sql_spec(),
{
    let mut sql = String::from_str("SELECT ");
    let names = vec!["t.tag", "COUNT(*) AS cnt"];
    assert(names_view(names@) =~= overview_columns());
    let columns = select_columns(&names, "");
    sql.append(columns.as_str());
    sql.append(" FROM tags t WHERE t.deleted_at IS NULL AND (");
    let ghost head = sql@;
    let mut k: usize = 0;
    while k < ENTITY_COUNT
        invariant
            k <= ENTITY_COUNT,
            head == overview_head(),
            k == 0 ==> sql@ == head,
            k > 0 ==> sql@ == head + overview_clauses(k as int),
        decreases ENTITY_COUNT - k,
    {
        let table = entity_table(k);
        if k > 0 {
            sql.append(" OR ");
        }
        sql.append("(t.entity = '");
        sql.append(table);
        sql.append("' AND EXISTS (SELECT 1 FROM ");
        sql.append(table);
        sql.append(" e WHERE e.id = t.record_id AND e.deleted_at IS NULL))");
        proof {
            if k == 0 {
                assert(sql@ =~= head + overview_clauses(1));
            } else {
                assert(sql@ =~= head + overview_clauses((k + 1) as int));
            }
        }
        k = k + 1;
    }
    sql.append(") GROUP BY t.tag ORDER BY t.tag");
    sql
}

/// Overview of all active tags with the count of active records carrying each,
/// ordered by tag.
pub fn tags_overview(conn: &rusqlite::Connection) -> (res: Result<Vec<(String, i64)>, MemError>)
    ensures
        res matches Err(e) ==> e is Storage || e is TooManyRows,
{
    let sql = tags_overview_sql();
    let params = no_params();
    let mut stmt = prepare_statement(conn, sql.as_str())?;
    let mut rows = storage(sql_query(&mut stmt, params.as_slice()))?;
    let mut out: Vec<(String, i64)> = Vec::new();
    loop
        decreases usize::MAX - out.len(),
    {
        let next = storage(sql_next_row(&mut rows))?;
        match next {
            None => {
                return Ok(out);
            },
            Some(row) => {
                let tag = column_text(row, overview_column(OverviewField::Tag))?;
                let count = column_int(row, overview_column(OverviewField::Count))?;
                if out.len() == usize::MAX {
                    return Err(MemError::TooManyRows);
                }
                out.push((tag, count));
            },
        }
    }
}

/// An active tag row, as examined by the diagnostics.
#[derive(Debug)]
pub struct TagIssue {
    pub id: i64,
    pub entity: String,
    pub record_id: i64,
    pub tag: String,
}

/// A copy of the tag row.
pub fn copy_issue(issue: &TagIssue) -> (c: TagIssue)
    ensures
        c == *issue,
{
    TagIssue {
        id: issue.id,
        entity: issue.entity.clone(),
        record_id: issue.record_id,
        tag: issue.tag.clone(),
    }
}

/// What the entity table says of the record a tag row points to.
#[derive(Debug, Clone, Copy, PartialEq, Eq, Structural)]
pub enum RecordState {
    /// The record exists and is active.
    Active,
    /// The record exists and is soft-deleted.
    SoftDeleted,
    /// No row with that id exists (it was purged).
    Missing,
    /// Not looked up: the tag row names no known entity.
    Unchecked,
}

/// The groups into which the diagnostics sort tag rows.
#[derive(Debug, Clone, Copy, PartialEq, Eq, Structural)]
pub enum TagBucket {
    /// Tag rows whose record was purged.
    Dangling,
    /// Tag rows whose entity is not in the whitelist.
    InvalidEntity,
    /// Tag rows whose tag is not in normal form.
    Dirty,
    /// Tag rows of soft-deleted records (informational).
    OnSoftDeleted,
}

/// A stored tag is dirty when it is not in the form `normalize_tag` produces.
pub open spec fn tag_dirty(tag: Seq<char>) -> bool {
    !tag_is_normal(tag)
}

/// Whether a tag row with record state `state` belongs to `bucket`. A row of
/// an unknown entity is only `InvalidEntity`; any other row may be `Dirty`
/// and, after its record state, `Dangling` or `OnSoftDeleted`.
pub open spec fn in_bucket(bucket: TagBucket, issue: TagIssue, state: RecordState) -> bool {
    let known = is_entity(issue.entity@);
    match bucket {
        TagBucket::InvalidEntity => !known,
        TagBucket::Dirty => known && tag_dirty(issue.tag@),
        TagBucket::Dangling => known && state == RecordState::Missing,
        TagBucket::OnSoftDeleted => known && state == RecordState::SoftDeleted,
    }
}

/// The tag rows of `rows` that belong to `bucket`, in their order.
pub open spec fn select_bucket(rows: Seq<(TagIssue, RecordState)>, bucket: TagBucket) -> Seq<
    TagIssue,
>
    decreases rows.len(),
{
    if rows.len() == 0 {
        Seq::empty()
    } else {
        let prev = select_bucket(rows.drop_last(), bucket);
        let (issue, state) = rows.last();
        if in_bucket(bucket, issue, state) {
            prev.push(issue)
        } else {
            prev
        }
    }
}

/// A bucket is non-empty exactly when some row belongs to it.
pub proof fn lemma_select_nonempty(rows: Seq<(TagIssue, RecordState)>, bucket: TagBucket)
    ensures
        select_bucket(rows, bucket).len() > 0 <==> exists|i: int|
            0 <= i < rows.len() && in_bucket(bucket, (#[trigger] rows[i]).0, rows[i].1),
    decreases rows.len(),
{
    if rows.len() > 0 {
        let prev = rows.drop_last();
        lemma_select_nonempty(prev, bucket);
        if exists|i: int| 0 <= i < prev.len() && in_bucket(bucket, (#[trigger] prev[i]).0, prev[i].1) {
            let i = choose|i: int| 0 <= i < prev.len() && in_bucket(bucket, (#[trigger] prev[i]).0, prev[i].1);
            assert(rows[i] == prev[i]);
        }
        if exists|i: int| 0 <= i < rows.len() && in_bucket(bucket, (#[trigger] rows[i]).0, rows[i].1) {
            let i = choose|i: int| 0 <= i < rows.len() && in_bucket(bucket, (#[trigger] rows[i]).0, rows[i].1);
            if i < rows.len() - 1 {
                assert(rows[i] == prev[i]);
            }
        }
    }
}

/// The tag rows sorted into the buckets of the diagnostics.
#[derive(Debug)]
pub struct TagFindings {
    pub dangling: Vec<TagIssue>,
    pub invalid_entity: Vec<TagIssue>,
    pub dirty: Vec<TagIssue>,
    pub on_soft_deleted: Vec<TagIssue>,
}

/// The findings are the rows sorted into their buckets.
pub open spec fn findings_of(f: TagFindings, rows: Seq<(TagIssue, RecordState)>) -> bool {
    &&& f.dangling@ == select_bucket(rows, TagBucket::Dangling)
    &&& f.invalid_entity@ == select_bucket(rows, TagBucket::InvalidEntity)
    &&& f.dirty@ == select_bucket(rows, TagBucket::Dirty)
    &&& f.on_soft_deleted@ == select_bucket(rows, TagBucket::OnSoftDeleted)
}

/// Whether a stored tag differs from its normal form or has none.
pub fn tag_is_dirty(tag: &str) -> (b: bool)
    ensures
        b == tag_dirty(tag@),
{
    match normalize_tag(tag) {
        Ok(n) => {
            let same = same_text(n.as_str(), tag);
            proof {
                if tag_is_normal(tag@) {
                    lemma_normal_tag_is_fixed(tag@);
                }
            }
            !same
        },
        Err(_) => {
            proof {
                if tag_is_normal(tag@) {
                    lemma_normal_tag_is_fixed(tag@);
                }
            }
            true
        },
    }
}

/// Sort tag rows, each with the state of its record, into the buckets of the
/// diagnostics.
pub fn classify_tag_rows(rows: &Vec<(TagIssue, RecordState)>) -> (f: TagFindings)
    ensures
        findings_of(f, rows@),
{
    let mut f = TagFindings {
        dangling: Vec::new(),
        invalid_entity: Vec::new(),
        dirty: Vec::new(),
        on_soft_deleted: Vec::new(),
    };
    let mut i: usize = 0;
    while i < rows.len()
        invariant
            i <= rows.len(),
            findings_of(f, rows@.take(i as int)),
        decreases rows.len() - i,
    {
        let (issue, state) = &rows[i];
        let state = *state;
        proof {
            assert(rows@.take(i + 1).drop_last() =~= rows@.take(i as int));
            assert(rows@.take(i + 1).last() == rows@[i as int]);
        }
        if !is_entity_table(issue.entity.as_str()) {
            f.invalid_entity.push(copy_issue(issue));
        } else {
            if tag_is_dirty(issue.tag.as_str()) {
                f.dirty.push(copy_issue(issue));
            }
            match state {
                RecordState::Missing => f.dangling.push(copy_issue(issue)),
                RecordState::SoftDeleted => f.on_soft_deleted.push(copy_issue(issue)),
                _ => {},
            }
        }
        i = i + 1;
    }
    assert(rows@.take(rows@.len() as int) =~= rows@);
    f
}

/// Integrity and diagnostics report for the tag store and the database.
#[derive(Debug)]
pub struct DoctorReport {
    pub schema_version: i64,
    /// Active tag rows whose record was purged.
    pub dangling: Vec<TagIssue>,
    /// Active tag rows whose entity is not in the whitelist.
    pub invalid_entity: Vec<TagIssue>,
    /// Active tag rows whose tag would not pass normalization unchanged.
    pub dirty: Vec<TagIssue>,
    /// Active tag rows attached to soft-deleted records (informational).
    pub on_soft_deleted: Vec<TagIssue>,
    /// Active record counts per entity.
    pub active_counts: Vec<(String, i64)>,
    /// Soft-deleted record counts per entity.
    pub soft_deleted_counts: Vec<(String, i64)>,
}

/// Whether a report holds integrity problems (informational findings aside).
pub open spec fn report_has_problems(r: DoctorReport) -> bool {
    r.dangling@.len() > 0 || r.invalid_entity@.len() > 0 || r.dirty@.len() > 0
}

impl DoctorReport {
    /// Whether there are integrity problems (excluding informational findings).
    pub fn has_problems(&self) -> (b: bool)
        ensures
            b == report_has_problems(*self),
    {
        self.dangling.len() > 0 || self.invalid_entity.len() > 0 || self.dirty.len() > 0
    }
}

/// The per-entity counts are listed by entity table, in order.
pub open spec fn counts_wf(counts: Seq<(String, i64)>) -> bool {
    &&& counts.len() == ENTITY_COUNT
    &&& forall|i: int| 0 <= i < ENTITY_COUNT ==> (#[trigger] counts[i]).0@ == entity_name(i)
}

/// The report sorts the rows (each with the state of its record) into its
/// buckets and lists the counts by entity.
pub open spec fn report_of(r: DoctorReport, rows: Seq<(TagIssue, RecordState)>) -> bool {
    &&& r.dangling@ == select_bucket(rows, TagBucket::Dangling)
    &&& r.invalid_entity@ == select_bucket(rows, TagBucket::InvalidEntity)
    &&& r.dirty@ == select_bucket(rows, TagBucket::Dirty)
    &&& r.on_soft_deleted@ == select_bucket(rows, TagBucket::OnSoftDeleted)
    &&& forall|i: int| 0 <= i < rows.len() ==> ((#[trigger] rows[i]).1 == RecordState::Unchecked
        <==> !is_entity(rows[i].0.entity@))
    &&& counts_wf(r.active_counts@)
    &&& counts_wf(r.soft_deleted_counts@)
}

/// The report says there are problems exactly when some examined tag row
/// names an unknown entity, holds a tag not in normal form, or points to a
/// purged record.
pub proof fn law_problems_iff_bad_row(r: DoctorReport, rows: Seq<(TagIssue, RecordState)>)
    requires
        report_of(r, rows),
    ensures
        report_has_problems(r) <==> exists|i: int|
            0 <= i < rows.len() && {
                let (issue, state) = #[trigger] rows[i];
                ||| !is_entity(issue.entity@)
                ||| tag_dirty(issue.tag@)
                ||| state == RecordState::Missing
            },
{
    lemma_select_nonempty(rows, TagBucket::Dangling);
    lemma_select_nonempty(rows, TagBucket::InvalidEntity);
    lemma_select_nonempty(rows, TagBucket::Dirty);
    if exists|i: int|
        0 <= i < rows.len() && {
            let (issue, state) = #[trigger] rows[i];
            ||| !is_entity(issue.entity@)
            ||| tag_dirty(issue.tag@)
            ||| state == RecordState::Missing
        } {
        let i = choose|i: int|
            0 <= i < rows.len() && {
                let (issue, state) = #[trigger] rows[i];
                ||| !is_entity(issue.entity@)
                ||| tag_dirty(issue.tag@)
                ||| state == RecordState::Missing
            };
        if !is_entity(rows[i].0.entity@) {
            assert(in_bucket(TagBucket::InvalidEntity, rows[i].0, rows[i].1));
        } else if tag_dirty(rows[i].0.tag@) {
            assert(in_bucket(TagBucket::Dirty, rows[i].0, rows[i].1));
        } else {
            assert(in_bucket(TagBucket::Dangling, rows[i].0, rows[i].1));
        }
    }
}

/// The SQL that reads the schema version (0 before any migration).
pub const SCHEMA_VERSION_SQL: &'static str = "SELECT COALESCE(MAX(version), 0) FROM schema_version";

/// The fields of a tag row.
#[derive(Debug, Clone, Copy, PartialEq, Eq, Structural)]
pub enum TagRowField {
    Id,
    Entity,
    RecordId,
    Tag,
}

/// The columns of a tag row query, in the order they are selected.
pub open spec fn tag_row_columns() -> Seq<Seq<char>> {
    seq!["id"@, "entity"@, "record_id"@, "tag"@]
}

/// The column name of a tag row field.
pub open spec fn tag_row_field_name(f: TagRowField) -> Seq<char> {
    match f {
        TagRowField::Id => "id"@,
        TagRowField::Entity => "entity"@,
        TagRowField::RecordId => "record_id"@,
        TagRowField::Tag => "tag"@,
    }
}

/// The position of a tag row field among the selected columns.
pub open spec fn tag_row_column_spec(f: TagRowField) -> int {
    match f {
        TagRowField::Id => 0,
        TagRowField::Entity => 1,
        TagRowField::RecordId => 2,
        TagRowField::Tag => 3,
    }
}

/// Every field of a tag row is read from the column of its own name.
pub proof fn law_tag_row_columns(f: TagRowField)
    ensures
        0 <= tag_row_column_spec(f) < tag_row_columns().len(),
        tag_row_columns()[tag_row_column_spec(f)] == tag_row_field_name(f),
{
}

/// The column a tag row field is read from.
pub fn tag_row_column(f: TagRowField) -> (i: usize)
    ensures
        i == tag_row_column_spec(f),
{
    match f {
        TagRowField::Id => 0,
        TagRowField::Entity => 1,
        TagRowField::RecordId => 2,
        TagRowField::Tag => 3,
    }
}

/// The SQL that lists the active tag rows by id, selecting `tag_row_columns()`
/// in order.
pub fn active_tag_rows_sql() -> (sql: String)
    ensures
        sql@ == "SELECT "@ + select_list(tag_row_columns(), ""@)
            + " FROM tags WHERE deleted_at IS NULL ORDER BY id"@,
{
    let names = vec!["id", "entity", "record_id", "tag"];
    assert(names_view(names@) =~= tag_row_columns());
    let mut sql = String::from_str("SELECT ");
    let columns = select_columns(&names, "");
    sql.append(columns.as_str());
    sql.append(" FROM tags WHERE deleted_at IS NULL ORDER BY id");
    sql
}

/// Read all active tag rows, by id.
fn active_tag_rows(conn: &rusqlite::Connection) -> (res: Result<Vec<TagIssue>, MemError>)
    ensures
        res matches Err(e) ==> e is Storage || e is TooManyRows,
{
    let params = no_params();
    let sql = active_tag_rows_sql();
    let mut stmt = prepare_statement(conn, sql.as_str())?;
    let mut rows = storage(sql_query(&mut stmt, params.as_slice()))?;
    let mut out: Vec<TagIssue> = Vec::new();
    loop
        decreases usize::MAX - out.len(),
    {
        let next = storage(sql_next_row(&mut rows))?;
        match next {
            None => {
                return Ok(out);
            },
            Some(row) => {
                let id = column_int(row, tag_row_column(TagRowField::Id))?;
                let entity = column_text(row, tag_row_column(TagRowField::Entity))?;
                let record_id = column_int(row, tag_row_column(TagRowField::RecordId))?;
                let tag = column_text(row, tag_row_column(TagRowField::Tag))?;
                if out.len() == usize::MAX {
                    return Err(MemError::TooManyRows);
                }
                out.push(TagIssue { id, entity, record_id, tag });
            },
        }
    }
}

/// The SQL that reads `deleted_at` of row `?1` of `table`.
pub fn record_state_sql(table: &str) -> (sql: String)
    ensures
        sql@ == "SELECT deleted_at FROM "@ + table@ + " WHERE id = ?1"@,
{
    concat3("SELECT deleted_at FROM ", table, " WHERE id = ?1")
}

/// The state of a record from what its lookup found: no row (`None`), or
/// the row's `deleted_at`.
pub open spec fn state_of_spec(found: Option<Option<String>>) -> RecordState {
    match found {
        None => RecordState::Missing,
        Some(Some(_)) => RecordState::SoftDeleted,
        Some(None) => RecordState::Active,
    }
}

/// The state of a record from what its lookup found: missing when there is
/// no row, soft-deleted when `deleted_at` is set, else active.
pub fn state_of(found: Option<Option<String>>) -> (s: RecordState)
    ensures
        s == state_of_spec(found),
{
    match found {
        None => RecordState::Missing,
        Some(Some(_)) => RecordState::SoftDeleted,
        Some(None) => RecordState::Active,
    }
}

/// The state of record `id` of `table`, as `state_of` gives it from the lookup
/// of its `deleted_at`: missing, soft-deleted or active. The lookup's answer
/// comes from the database and is not stated.
fn record_state(conn: &rusqlite::Connection, table: &str, id: i64) -> (res: Result<
    RecordState,
    MemError,
>)
    requires
        is_entity(table@),
    ensures
        match res {
            Ok(s) => exists|found: Option<Option<String>>| s == #[trigger] state_of_spec(found),
            Err(e) => e is Storage,
        },
{
    let sql = record_state_sql(table);
    proof {
        lemma_table_statement(table@, sql@);
    }
    let params = integer_param(id);
    let mut stmt = prepare_statement(conn, sql.as_str())?;
    let mut rows = storage(sql_query(&mut stmt, params.as_slice()))?;
    let next = storage(sql_next_row(&mut rows))?;
    match next {
        None => Ok(state_of(None)),
        Some(row) => {
            let deleted_at = column_opt_text(row, 0)?;
            Ok(state_of(Some(deleted_at)))
        },
    }
}

/// The SQL that counts the active (`deleted` false) or soft-deleted records of `table`.
pub fn count_sql(table: &str, deleted: bool) -> (sql: String)
    ensures
        sql@ == "SELECT COUNT(*) FROM "@ + table@ + (if deleted {
            " WHERE deleted_at IS NOT NULL"@
        } else {
            " WHERE deleted_at IS NULL"@
        }),
{
    if deleted {
        concat3("SELECT COUNT(*) FROM ", table, " WHERE deleted_at IS NOT NULL")
    } else {
        concat3("SELECT COUNT(*) FROM ", table, " WHERE deleted_at IS NULL")
    }
}

/// Every active tag row with the state of its record; rows of unknown
/// entities are not looked up.
fn examine_tag_rows(conn: &rusqlite::Connection) -> (res: Result<
    Vec<(TagIssue, RecordState)>,
    MemError,
>)
    ensures
        match res {
            Ok(rows) => forall|j: int| 0 <= j < rows@.len() ==> ((#[trigger] rows@[j]).1
                == RecordState::Unchecked <==> !is_entity(rows@[j].0.entity@)),
            Err(e) => db_failure(e),
        },
{
    let tag_rows = active_tag_rows(conn)?;
    let mut checked: Vec<(TagIssue, RecordState)> = Vec::new();
    let mut i: usize = 0;
    while i < tag_rows.len()
        invariant
            i <= tag_rows.len(),
            checked@.len() == i,
            forall|j: int| 0 <= j < i ==> ((#[trigger] checked@[j]).1 == RecordState::Unchecked
                <==> !is_entity(checked@[j].0.entity@)),
        decreases tag_rows.len() - i,
    {
        let issue = &tag_rows[i];
        let state = if is_entity_table(issue.entity.as_str()) {
            record_state(conn, issue.entity.as_str(), issue.record_id)?
        } else {
            RecordState::Unchecked
        };
        checked.push((copy_issue(issue), state));
        i = i + 1;
    }
    Ok(checked)
}

/// The number of active (`deleted` false) or soft-deleted records of each
/// entity table, in order.
fn entity_counts(conn: &rusqlite::Connection, deleted: bool) -> (res: Result<
    Vec<(String, i64)>,
    MemError,
>)
    ensures
        match res {
            Ok(counts) => counts_wf(counts@),
            Err(e) => db_failure(e),
        },
{
    let params = no_params();
    let mut counts: Vec<(String, i64)> = Vec::new();
    let mut k: usize = 0;
    while k < ENTITY_COUNT
        invariant
            k <= ENTITY_COUNT,
            counts@.len() == k,
            forall|j: int| 0 <= j < k ==> (#[trigger] counts@[j]).0@ == entity_name(j),
        decreases ENTITY_COUNT - k,
    {
        let table = entity_table(k);
        let sql = count_sql(table, deleted);
        proof {
            assert(is_entity(table@)) by {
                assert(entity_name(k as int) == table@);
            }
            lemma_table_statement(table@, sql@);
        }
        let n = query_one_i64(conn, sql.as_str(), params.as_slice())?;
        counts.push((String::from_str(table), n));
        k = k + 1;
    }
    Ok(counts)
}

/// A report that sorts some examined rows, or a database failure.
pub open spec fn doctor_post(res: Result<DoctorReport, MemError>) -> bool {
    &&& res is Ok ==> exists|rows: Seq<(TagIssue, RecordState)>| #[trigger] report_of(res->Ok_0, rows)
    &&& res is Err ==> db_failure(res->Err_0)
}

/// Run the integrity checks over the tag store and collect general database
/// diagnostics: every active tag row is examined with the state of its record.
pub fn doctor(conn: &rusqlite::Connection) -> (res: Result<DoctorReport, MemError>)
    ensures
        doctor_post(res),
{
    let params = no_params();
    let schema_version = query_one_i64(conn, SCHEMA_VERSION_SQL, params.as_slice())?;
    let checked = examine_tag_rows(conn)?;
    let findings = classify_tag_rows(&checked);
    let active_counts = entity_counts(conn, false)?;
    let soft_deleted_counts = entity_counts(conn, true)?;
    let TagFindings { dangling, invalid_entity, dirty, on_soft_deleted } = findings;
    let report = DoctorReport {
        schema_version,
        dangling,
        invalid_entity,
        dirty,
        on_soft_deleted,
        active_counts,
        soft_deleted_counts,
    };
    assert(report_of(report, checked@));
    let res = Ok(report);
    assert(report_of(res->Ok_0, checked@));
    assert(doctor_post(res));
    res
}

/// The ids of the tag rows the safe repair removes: the dangling ones, then
/// those with an invalid entity.
pub open spec fn fix_targets_spec(r: DoctorReport) -> Seq<i64> {
    r.dangling@.map_values(|i: TagIssue| i.id) + r.invalid_entity@.map_values(|i: TagIssue| i.id)
}

/// The ids of the tag rows that `doctor_fix` removes, in order.
pub fn fix_targets(report: &DoctorReport) -> (ids: Vec<i64>)
    ensures
        ids@ == fix_targets_spec(*report),
{
    let mut ids: Vec<i64> = Vec::new();
    let mut i: usize = 0;
    while i < report.dangling.len()
        invariant
            i <= report.dangling@.len(),
            ids@ == report.dangling@.take(i as int).map_values(|i: TagIssue| i.id),
        decreases report.dangling.len() - i,
    {
        ids.push(report.dangling[i].id);
        proof {
            assert(report.dangling@.take(i + 1).map_values(|i: TagIssue| i.id) =~= report.dangling@.take(
                i as int,
            ).map_values(|i: TagIssue| i.id).push(report.dangling@[i as int].id));
        }
        i = i + 1;
    }
    assert(report.dangling@.take(report.dangling@.len() as int) =~= report.dangling@);
    let ghost first = ids@;
    let mut j: usize = 0;
    while j < report.invalid_entity.len()
        invariant
            j <= report.invalid_entity@.len(),
            first == report.dangling@.map_values(|i: TagIssue| i.id),
            ids@ == first + report.invalid_entity@.take(j as int).map_values(|i: TagIssue| i.id),
        decreases report.invalid_entity.len() - j,
    {
        ids.push(report.invalid_entity[j].id);
        proof {
            assert(report.invalid_entity@.take(j + 1).map_values(|i: TagIssue| i.id)
                =~= report.invalid_entity@.take(j as int).map_values(|i: TagIssue| i.id).push(
                report.invalid_entity@[j as int].id,
            ));
        }
        j = j + 1;
    }
    assert(report.invalid_entity@.take(report.invalid_entity@.len() as int)
        =~= report.invalid_entity@);
    assert(ids@ =~= fix_targets_spec(*report));
    ids
}

/// `issues` without the rows whose id is among `ids`, in their order.
pub open spec fn without_ids(issues: Seq<TagIssue>, ids: Seq<i64>) -> Seq<TagIssue>
    decreases issues.len(),
{
    if issues.len() == 0 {
        Seq::empty()
    } else {
        let prev = without_ids(issues.drop_last(), ids);
        if ids.contains(issues.last().id) {
            prev
        } else {
            prev.push(issues.last())
        }
    }
}

/// The examined rows without those whose tag row id is among `ids`.
pub open spec fn rows_without_ids(rows: Seq<(TagIssue, RecordState)>, ids: Seq<i64>) -> Seq<
    (TagIssue, RecordState),
>
    decreases rows.len(),
{
    if rows.len() == 0 {
        Seq::empty()
    } else {
        let prev = rows_without_ids(rows.drop_last(), ids);
        if ids.contains(rows.last().0.id) {
            prev
        } else {
            prev.push(rows.last())
        }
    }
}

proof fn lemma_select_without(rows: Seq<(TagIssue, RecordState)>, ids: Seq<i64>, bucket: TagBucket)
    ensures
        select_bucket(rows_without_ids(rows, ids), bucket) == without_ids(select_bucket(rows, bucket), ids),
    decreases rows.len(),
{
    if rows.len() > 0 {
        let p = rows.drop_last();
        let (x, st) = rows.last();
        lemma_select_without(p, ids, bucket);
        let kp = rows_without_ids(p, ids);
        let kept = rows_without_ids(rows, ids);
        let sp = select_bucket(p, bucket);
        let sr = select_bucket(rows, bucket);
        if in_bucket(bucket, x, st) {
            assert(sr == sp.push(x));
            assert(sr.drop_last() =~= sp);
            assert(sr.last() == x);
        } else {
            assert(sr == sp);
        }
        if !ids.contains(x.id) {
            assert(kept == kp.push(rows.last()));
            assert(kept.drop_last() =~= kp);
            assert(kept.last() == rows.last());
        } else {
            assert(kept == kp);
        }
    }
}

proof fn lemma_without_all(issues: Seq<TagIssue>, ids: Seq<i64>)
    requires
        forall|i: int| 0 <= i < issues.len() ==> ids.contains(#[trigger] issues[i].id),
    ensures
        without_ids(issues, ids).len() == 0,
    decreases issues.len(),
{
    if issues.len() > 0 {
        let p = issues.drop_last();
        assert forall|i: int| 0 <= i < p.len() implies ids.contains(#[trigger] p[i].id) by {
            assert(p[i] == issues[i]);
        }
        lemma_without_all(p, ids);
        assert(ids.contains(issues[issues.len() - 1].id));
    }
}

proof fn lemma_without_excludes(issues: Seq<TagIssue>, ids: Seq<i64>)
    ensures
        forall|i: int| 0 <= i < without_ids(issues, ids).len() ==> !ids.contains(
            #[trigger] without_ids(issues, ids)[i].id,
        ),
    decreases issues.len(),
{
    if issues.len() > 0 {
        lemma_without_excludes(issues.drop_last(), ids);
        let prev = without_ids(issues.drop_last(), ids);
        let w = without_ids(issues, ids);
        assert forall|i: int| 0 <= i < w.len() implies !ids.contains(#[trigger] w[i].id) by {
            if i < prev.len() {
                assert(w[i] == prev[i]);
            }
        }
    }
}

/// What the safe repair does to the diagnosis: it removes exactly the tag rows
/// of `fix_targets_spec(r)`, so the report of the repaired store examines the
/// same rows without those. No row the repair removed is reported, so no
/// dangling row and no row of an unknown entity is left, and the other
/// findings are those of the rows that stay.
pub proof fn law_repair_removes_targets(r: DoctorReport, rows: Seq<(TagIssue, RecordState)>)
    requires
        report_of(r, rows),
    ensures
        ({
            let ids = fix_targets_spec(r);
            let kept = rows_without_ids(rows, ids);
            &&& without_ids(r.dangling@, ids).len() == 0
            &&& without_ids(r.invalid_entity@, ids).len() == 0
            &&& forall|b: TagBucket| #[trigger] select_bucket(kept, b) == without_ids(
                select_bucket(rows, b),
                ids,
            )
            &&& forall|i: int| 0 <= i < kept.len() ==> !ids.contains((#[trigger] kept[i]).0.id)
        }),
{
    let ids = fix_targets_spec(r);
    let d = r.dangling@.map_values(|i: TagIssue| i.id);
    let v = r.invalid_entity@.map_values(|i: TagIssue| i.id);
    assert(ids == d + v);
    assert forall|i: int| 0 <= i < r.dangling@.len() implies ids.contains(#[trigger] r.dangling@[i].id) by {
        assert(ids[i] == r.dangling@[i].id);
    }
    assert forall|i: int| 0 <= i < r.invalid_entity@.len() implies ids.contains(
        #[trigger] r.invalid_entity@[i].id,
    ) by {
        assert(ids[d.len() + i] == r.invalid_entity@[i].id);
    }
    lemma_without_all(r.dangling@, ids);
    lemma_without_all(r.invalid_entity@, ids);
    assert forall|b: TagBucket| #[trigger] select_bucket(rows_without_ids(rows, ids), b) == without_ids(
        select_bucket(rows, b),
        ids,
    ) by {
        lemma_select_without(rows, ids, b);
    }
    lemma_rows_without_excludes(rows, ids);
}

proof fn lemma_rows_without_excludes(rows: Seq<(TagIssue, RecordState)>, ids: Seq<i64>)
    ensures
        forall|i: int| 0 <= i < rows_without_ids(rows, ids).len() ==> !ids.contains(
            (#[trigger] rows_without_ids(rows, ids)[i]).0.id,
        ),
        forall|i: int| 0 <= i < rows_without_ids(rows, ids).len() ==> exists|j: int|
            0 <= j < rows.len() && rows[j] == #[trigger] rows_without_ids(rows, ids)[i],
    decreases rows.len(),
{
    if rows.len() > 0 {
        lemma_rows_without_excludes(rows.drop_last(), ids);
        let prev = rows_without_ids(rows.drop_last(), ids);
        let w = rows_without_ids(rows, ids);
        assert forall|i: int| 0 <= i < w.len() implies !ids.contains((#[trigger] w[i]).0.id) by {
            if i < prev.len() {
                assert(w[i] == prev[i]);
            }
        }
        assert forall|i: int| 0 <= i < w.len() implies exists|j: int|
            0 <= j < rows.len() && rows[j] == #[trigger] w[i] by {
            if i < prev.len() {
                assert(w[i] == prev[i]);
                let j = choose|j: int| 0 <= j < rows.drop_last().len() && rows.drop_last()[j] == prev[i];
                assert(rows[j] == rows.drop_last()[j]);
            } else {
                assert(rows[rows.len() - 1] == w[i]);
            }
        }
    }
}

/// Whether `id` is among `ids`.
fn contains_id(ids: &Vec<i64>, id: i64) -> (b: bool)
    ensures
        b == ids@.contains(id),
{
    let mut i: usize = 0;
    while i < ids.len()
        invariant
            i <= ids.len(),
            forall|j: int| 0 <= j < i ==> ids@[j] != id,
        decreases ids.len() - i,
    {
        if ids[i] == id {
            return true;
        }
        i = i + 1;
    }
    false
}

/// The rows of `issues` whose id is not among `ids`, in order.
fn drop_ids(issues: Vec<TagIssue>, ids: &Vec<i64>) -> (kept: Vec<TagIssue>)
    ensures
        kept@ == without_ids(issues@, ids@),
{
    let ghost all = issues@;
    let mut kept: Vec<TagIssue> = Vec::new();
    let mut i: usize = 0;
    while i < issues.len()
        invariant
            i <= issues.len(),
            issues@ == all,
            kept@ == without_ids(all.take(i as int), ids@),
        decreases issues.len() - i,
    {
        let issue = &issues[i];
        proof {
            assert(all.take(i + 1).drop_last() =~= all.take(i as int));
            assert(all.take(i + 1).last() == all[i as int]);
        }
        if !contains_id(ids, issue.id) {
            kept.push(copy_issue(issue));
        }
        i = i + 1;
    }
    assert(all.take(all.len() as int) =~= all);
    kept
}

/// The report of the tag store after the safe repair of `report`: the rows
/// the repair removed (`fix_targets`) are taken out of every bucket; the
/// counts and the schema version, which the repair does not touch, stay.
/// It is the diagnosis of the rows that stay, so it reports no dangling row
/// and no row of an unknown entity.
pub fn report_after_fix(report: DoctorReport) -> (after: DoctorReport)
    ensures
        ({
            let ids = fix_targets_spec(report);
            &&& after.schema_version == report.schema_version
            &&& after.dangling@ == without_ids(report.dangling@, ids)
            &&& after.invalid_entity@ == without_ids(report.invalid_entity@, ids)
            &&& after.dirty@ == without_ids(report.dirty@, ids)
            &&& after.on_soft_deleted@ == without_ids(report.on_soft_deleted@, ids)
            &&& after.active_counts@ == report.active_counts@
            &&& after.soft_deleted_counts@ == report.soft_deleted_counts@
            &&& forall|rows: Seq<(TagIssue, RecordState)>| #[trigger] report_of(report, rows)
                ==> report_of(after, rows_without_ids(rows, ids)) && after.dangling@.len() == 0
                && after.invalid_entity@.len() == 0
        }),
{
    let ids = fix_targets(&report);
    let ghost r0 = report;
    let DoctorReport {
        schema_version,
        dangling,
        invalid_entity,
        dirty,
        on_soft_deleted,
        active_counts,
        soft_deleted_counts,
    } = report;
    let after = DoctorReport {
        schema_version,
        dangling: drop_ids(dangling, &ids),
        invalid_entity: drop_ids(invalid_entity, &ids),
        dirty: drop_ids(dirty, &ids),
        on_soft_deleted: drop_ids(on_soft_deleted, &ids),
        active_counts,
        soft_deleted_counts,
    };
    proof {
        assert forall|rows: Seq<(TagIssue, RecordState)>| #[trigger] report_of(r0, rows) implies report_of(
            after,
            rows_without_ids(rows, ids@),
        ) && after.dangling@.len() == 0 && after.invalid_entity@.len() == 0 by {
            law_repair_removes_targets(r0, rows);
            let kept = rows_without_ids(rows, ids@);
            assert(select_bucket(kept, TagBucket::Dangling) == without_ids(select_bucket(rows, TagBucket::Dangling), ids@));
            assert(select_bucket(kept, TagBucket::InvalidEntity) == without_ids(select_bucket(rows, TagBucket::InvalidEntity), ids@));
            assert(select_bucket(kept, TagBucket::Dirty) == without_ids(select_bucket(rows, TagBucket::Dirty), ids@));
            assert(select_bucket(kept, TagBucket::OnSoftDeleted) == without_ids(select_bucket(rows, TagBucket::OnSoftDeleted), ids@));
            lemma_rows_without_excludes(rows, ids@);
            assert forall|i: int| 0 <= i < kept.len() implies ((#[trigger] kept[i]).1 == RecordState::Unchecked
                <==> !is_entity(kept[i].0.entity@)) by {
                let j = choose|j: int| 0 <= j < rows.len() && rows[j] == kept[i];
                assert(rows[j].1 == RecordState::Unchecked <==> !is_entity(rows[j].0.entity@));
            }
        }
    }
    after
}

/// The SQL that removes tag row `?1`.
pub const DELETE_TAG_ROW_SQL: &'static str = "DELETE FROM tags WHERE id = ?1";

/// The sum of `counts`, saturating at `usize::MAX`.
pub open spec fn saturating_total(counts: Seq<usize>) -> usize
    decreases counts.len(),
{
    if counts.len() == 0 {
        0
    } else {
        let t = saturating_total(counts.drop_last()) + counts.last();
        if t > usize::MAX {
            usize::MAX
        } else {
            t as usize
        }
    }
}

/// The number of removed tag rows: the counts of the statements, summed
/// (saturating at `usize::MAX`).
pub fn total_removed(counts: &Vec<usize>) -> (n: usize)
    ensures
        n == saturating_total(counts@),
{
    let mut n: usize = 0;
    let mut i: usize = 0;
    while i < counts.len()
        invariant
            i <= counts.len(),
            n == saturating_total(counts@.take(i as int)),
        decreases counts.len() - i,
    {
        proof {
            assert(counts@.take(i + 1).drop_last() =~= counts@.take(i as int));
        }
        n = n.saturating_add(counts[i]);
        i = i + 1;
    }
    assert(counts@.take(counts.len() as int) =~= counts@);
    n
}

/// Safe repair: physically remove the dangling tags and the tags with an
/// invalid entity, in one transaction. Returns the number of removed tag rows
/// (saturating at `usize::MAX`).
pub fn doctor_fix(conn: &rusqlite::Connection, report: &DoctorReport) -> (res: Result<
    usize,
    MemError,
>)
    ensures
        res matches Err(e) ==> db_failure(e),
        res matches Ok(n) ==> exists|counts: Seq<usize>|
            counts.len() == fix_targets_spec(*report).len() && n == #[trigger] saturating_total(
                counts,
            ),
{
    let targets = fix_targets(report);
    let tx = storage(sql_begin(conn))?;
    let mut counts: Vec<usize> = Vec::new();
    {
        let c = sql_transaction_connection(&tx);
        let mut stmt = prepare_statement(c, DELETE_TAG_ROW_SQL)?;
        let mut i: usize = 0;
        while i < targets.len()
            invariant
                i <= targets.len(),
                counts@.len() == i,
            decreases targets.len() - i,
        {
            let params = integer_param(targets[i]);
            let n = storage(sql_statement_execute(&mut stmt, params.as_slice()))?;
            counts.push(n);
            i = i + 1;
        }
    }
    storage(sql_commit(tx))?;
    Ok(total_removed(&counts))
}

/// The SQL that creates the schema version table.
pub const SCHEMA_TABLE_SQL: &'static str = "CREATE TABLE IF NOT EXISTS schema_version (version INTEGER NOT NULL);";

/// Migration v1: the entity tables with the shared fields.
pub const MIGRATION_V1: &'static str = "
CREATE TABLE IF NOT EXISTS facts (
    id         INTEGER PRIMARY KEY AUTOINCREMENT,
    content    TEXT NOT NULL,
    created_at TEXT NOT NULL DEFAULT (datetime('now')),
    updated_at TEXT NOT NULL DEFAULT (datetime('now')),
    deleted_at TEXT
);
CREATE TABLE IF NOT EXISTS decisions (
    id         INTEGER PRIMARY KEY AUTOINCREMENT,
    content    TEXT NOT NULL,
    created_at TEXT NOT NULL DEFAULT (datetime('now')),
    updated_at TEXT NOT NULL DEFAULT (datetime('now')),
    deleted_at TEXT
);
CREATE TABLE IF NOT EXISTS commands (
    id         INTEGER PRIMARY KEY AUTOINCREMENT,
    content    TEXT NOT NULL,
    created_at TEXT NOT NULL DEFAULT (datetime('now')),
    updated_at TEXT NOT NULL DEFAULT (datetime('now')),
    deleted_at TEXT
);
CREATE TABLE IF NOT EXISTS modules (
    id         INTEGER PRIMARY KEY AUTOINCREMENT,
    content    TEXT NOT NULL,
    created_at TEXT NOT NULL DEFAULT (datetime('now')),
    updated_at TEXT NOT NULL DEFAULT (datetime('now')),
    deleted_at TEXT
);
";

/// Migration v2: the tags table (thematic labels for records) and its indexes.
pub const MIGRATION_V2: &'static str = "
CREATE TABLE IF NOT EXISTS tags (
    id         INTEGER PRIMARY KEY AUTOINCREMENT,
    entity     TEXT    NOT NULL,
    record_id  INTEGER NOT NULL,
    tag        TEXT    NOT NULL,
    created_at TEXT    NOT NULL DEFAULT (datetime('now')),
    deleted_at TEXT,
    UNIQUE (entity, record_id, tag)
);
CREATE INDEX IF NOT EXISTS idx_tags_tag    ON tags (tag);
CREATE INDEX IF NOT EXISTS idx_tags_record ON tags (entity, record_id);
";

/// The versions a database at version `current` still has to go through, in order.
pub open spec fn pending_spec(current: i64) -> Seq<i64> {
    if current < 1 {
        seq![1i64, 2i64]
    } else if current < 2 {
        seq![2i64]
    } else {
        Seq::empty()
    }
}

/// The migrations to apply to a database at schema version `current`.
pub fn pending_migrations(current: i64) -> (v: Vec<i64>)
    ensures
        v@ == pending_spec(current),
{
    let mut v: Vec<i64> = Vec::new();
    if current < 1 {
        v.push(1);
    }
    if current < 2 {
        v.push(2);
    }
    assert(v@ =~= pending_spec(current));
    v
}

/// Migrations are idempotent: a database at the current schema version (or a
/// later one) has none left, and every pending version is above `current` and
/// at most the current schema version, in increasing order.
pub proof fn law_migrations_idempotent(current: i64)
    ensures
        current >= SCHEMA_VERSION ==> pending_spec(current).len() == 0,
        forall|i: int| 0 <= i < pending_spec(current).len() ==> current < #[trigger] pending_spec(
            current,
        )[i] <= SCHEMA_VERSION,
        forall|i: int, j: int| 0 <= i < j < pending_spec(current).len() ==> #[trigger] pending_spec(
            current,
        )[i] < #[trigger] pending_spec(current)[j],
        pending_spec(current).len() > 0 ==> pending_spec(current).last() == SCHEMA_VERSION,
{
}

/// The SQL text of migration `version`.
fn migration_sql(version: i64) -> (sql: &'static str)
    requires
        version == 1 || version == 2,
    ensures
        sql@ == if version == 1 {
            MIGRATION_V1@
        } else {
            MIGRATION_V2@
        },
{
    if version == 1 {
        MIGRATION_V1
    } else {
        MIGRATION_V2
    }
}

/// The SQL that records that migration `?1` was applied.
pub const RECORD_VERSION_SQL: &'static str = "INSERT INTO schema_version (version) VALUES (?1)";

/// Apply the schema migrations that the database has not had yet (idempotent).
pub fn apply_migrations(conn: &rusqlite::Connection) -> (res: Result<(), MemError>)
    ensures
        res matches Err(e) ==> db_failure(e),
{
    execute_batch_statement(conn, SCHEMA_TABLE_SQL)?;
    let params = no_params();
    let current = query_one_i64(conn, SCHEMA_VERSION_SQL, params.as_slice())?;
    let pending = pending_migrations(current);
    let mut i: usize = 0;
    while i < pending.len()
        invariant
            i <= pending.len(),
            pending@ == pending_spec(current),
        decreases pending.len() - i,
    {
        let version = pending[i];
        execute_batch_statement(conn, migration_sql(version))?;
        let params = integer_param(version);
        execute_statement(conn, RECORD_VERSION_SQL, params.as_slice())?;
        i = i + 1;
    }
    Ok(())
}

} // verus!
