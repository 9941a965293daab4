//! The record commands of the command line: each brings the schema up to
//! date, runs its storage operation and gives back what it reports.
use vstd::prelude::*;

use crate::db::{
    add_tag, apply_migrations, db_failure, doctor, doctor_fix, entity_name, find_by_tag, insert,
    fix_targets_spec, report_after_fix, rows_without_ids,
    list_active, purge, remove_tag, report_has_problems, report_of, soft_delete, found_groups,
    tags_overview, update, DoctorReport, Record, RecordState, TagIssue, TagOutcome,
};
use crate::error::{decimal_text, i64_text, signed_text, usize_text, MemError};
use crate::json::{array, items_view, json_str, lemma_items_view, object2, Json, JsonV};
use crate::mcp::{
    doctor_result_json, doctor_result_view, found_view, groups_to_json, records_to_json,
    records_view,
};
use crate::tags::{normalize_tag, normalize_tag_post, tag_is_normal, tag_normal_form};
use crate::project::{entity_index, Entity};
use crate::text::push_char;

verus! {

/// `n` spaces.
pub open spec fn spaces(n: nat) -> Seq<char> {
    Seq::new(n, |i: int| ' ')
}

/// `s` right-aligned in a field of `width` characters (`{:>width}`).
pub open spec fn pad_left(s: Seq<char>, width: nat) -> Seq<char> {
    if s.len() >= width {
        s
    } else {
        spaces((width - s.len()) as nat) + s
    }
}

/// `s` left-aligned in a field of `width` characters (`{:<width}`).
pub open spec fn pad_right(s: Seq<char>, width: nat) -> Seq<char> {
    if s.len() >= width {
        s
    } else {
        s + spaces((width - s.len()) as nat)
    }
}

/// Width of the id column of the record table.
pub const ID_WIDTH: usize = 4;

/// Width of the creation-time column of the record table.
pub const CREATED_WIDTH: usize = 19;

/// One line of the record table: id, creation time and content.
pub open spec fn table_row(r: Record) -> Seq<char> {
    pad_left(signed_text(r.id as int), ID_WIDTH as nat) + seq![' ', ' '] + pad_right(
        r.created_at@,
        CREATED_WIDTH as nat,
    ) + seq![' ', ' '] + r.content@ + seq!['\n']
}

/// The heading line of the record table.
pub open spec fn table_header() -> Seq<char> {
    pad_left("ID"@, ID_WIDTH as nat) + seq![' ', ' '] + pad_right("CREATED"@, CREATED_WIDTH as nat)
        + "  CONTENT\n"@
}

/// The lines of the records, in order.
pub open spec fn table_rows(rs: Seq<Record>) -> Seq<char>
    decreases rs.len(),
{
    if rs.len() == 0 {
        Seq::empty()
    } else {
        table_rows(rs.drop_last()) + table_row(rs.last())
    }
}

/// The record table: `(empty)` when there is no record, else a heading and
/// one line per record.
pub open spec fn table_spec(rs: Seq<Record>) -> Seq<char> {
    if rs.len() == 0 {
        "(empty)\n"@
    } else {
        table_header() + table_rows(rs)
    }
}

fn push_spaces(s: &mut String, n: usize)
    ensures
        final(s)@ == old(s)@ + spaces(n as nat),
{
    let mut i: usize = 0;
    while i < n
        invariant
            i <= n,
            s@ == old(s)@ + spaces(i as nat),
        decreases n - i,
    {
        push_char(s, ' ');
        proof {
            assert(old(s)@ + spaces((i + 1) as nat) =~= (old(s)@ + spaces(i as nat)).push(' '));
        }
        i = i + 1;
    }
}

/// Append `t` right-aligned in a field of `width` characters.
fn push_left_padded(s: &mut String, t: &str, width: usize)
    ensures
        final(s)@ == old(s)@ + pad_left(t@, width as nat),
{
    let n = t.unicode_len();
    if n < width {
        push_spaces(s, width - n);
    }
    s.append(t);
    proof {
        if n < width {
            assert(old(s)@ + spaces((width - n) as nat) + t@ =~= old(s)@ + pad_left(
                t@,
                width as nat,
            ));
        }
    }
}

/// Append `t` left-aligned in a field of `width` characters.
fn push_right_padded(s: &mut String, t: &str, width: usize)
    ensures
        final(s)@ == old(s)@ + pad_right(t@, width as nat),
{
    let n = t.unicode_len();
    s.append(t);
    if n < width {
        push_spaces(s, width - n);
        proof {
            assert(old(s)@ + t@ + spaces((width - n) as nat) =~= old(s)@ + pad_right(
                t@,
                width as nat,
            ));
        }
    }
}

/// The records as a simple table, one line each.
#[verifier::spinoff_prover]
#[verifier::rlimit(40)]
pub fn table_text(records: &Vec<Record>) -> (text: String)
    ensures
        text@ == table_spec(records@),
{
    if records.len() == 0 {
        proof {
            reveal_strlit("(empty)\n");
        }
        return String::from_str("(empty)\n");
    }
    let mut text = String::new();
    push_left_padded(&mut text, "ID", ID_WIDTH);
    text.append("  ");
    push_right_padded(&mut text, "CREATED", CREATED_WIDTH);
    text.append("  CONTENT\n");
    proof {
        reveal_strlit("  ");
        assert("  "@ =~= seq![' ', ' ']);
        assert(text@ =~= table_header());
    }
    let ghost header = text@;
    let mut i: usize = 0;
    while i < records.len()
        invariant
            i <= records.len(),
            header == table_header(),
            text@ == header + table_rows(records@.take(i as int)),
        decreases records.len() - i,
    {
        let r = &records[i];
        let ghost before = text@;
        let id = i64_text(r.id);
        push_left_padded(&mut text, id.as_str(), ID_WIDTH);
        text.append("  ");
        push_right_padded(&mut text, r.created_at.as_str(), CREATED_WIDTH);
        text.append("  ");
        text.append(r.content.as_str());
        push_char(&mut text, '\n');
        proof {
            reveal_strlit("  ");
            assert("  "@ =~= seq![' ', ' ']);
            assert(records@.take(i + 1).drop_last() =~= records@.take(i as int));
            assert(records@.take(i + 1).last() == *r);
            assert(text@ =~= before + table_row(*r));
        }
        i = i + 1;
    }
    assert(records@.take(records.len() as int) =~= records@);
    text
}

/// What a command shows: JSON (`--json`) or text.
#[derive(Debug)]
pub enum Output {
    /// A JSON value, printed on one line.
    Json(Json),
    /// Text, printed as it is.
    Text(String),
}

/// `l` shows the records `rs`, as JSON when `json` is set, else as a table.
pub open spec fn shows_records(l: Output, rs: Seq<Record>, json: bool) -> bool {
    match l {
        Output::Json(j) => json && j@ == records_view(rs),
        Output::Text(t) => !json && t@ == table_spec(rs),
    }
}

/// The listing of the records: as JSON when `json` is set, else as a table.
pub fn listing(records: &Vec<Record>, json: bool) -> (l: Output)
    ensures
        shows_records(l, records@, json),
{
    if json {
        Output::Json(records_to_json(records))
    } else {
        Output::Text(table_text(records))
    }
}

/// What `add` reports for the new record `id` of `table`.
pub open spec fn added_text(table: Seq<char>, id: i64) -> Seq<char> {
    "added to "@ + table + ": id="@ + signed_text(id as int)
}

/// What `delete` reports when record `id` of `table` was soft-deleted.
pub open spec fn soft_deleted_text(table: Seq<char>, id: i64) -> Seq<char> {
    "deleted (soft) from "@ + table + ": id="@ + signed_text(id as int)
}

/// What `purge` reports when record `id` of `table` was removed.
pub open spec fn purged_text(table: Seq<char>, id: i64) -> Seq<char> {
    "deleted (purge) from "@ + table + ": id="@ + signed_text(id as int)
}

/// What `delete` and `update` report when `table` has no active record `id`.
pub open spec fn no_active_text(table: Seq<char>, id: i64) -> Seq<char> {
    "no active record id="@ + signed_text(id as int) + " in "@ + table
}

/// What `purge` reports when `table` has no record `id`.
pub open spec fn no_record_text(table: Seq<char>, id: i64) -> Seq<char> {
    "no record id="@ + signed_text(id as int) + " in "@ + table
}

/// What `update` reports when record `id` of `table` was replaced by `new_id`.
pub open spec fn updated_text(table: Seq<char>, id: i64, new_id: i64, hard: bool) -> Seq<char> {
    "updated ("@ + (if hard {
        "purge"@
    } else {
        "soft"@
    }) + ") in "@ + table + ": id="@ + signed_text(id as int) + " -> id="@ + signed_text(
        new_id as int,
    )
}

/// `a`, `b`, `c` and `d` one after another.
fn concat4(a: &str, b: &str, c: &str, d: &str) -> (s: String)
    ensures
        s@ == a@ + b@ + c@ + d@,
{
    let mut s = String::from_str(a);
    s.append(b);
    s.append(c);
    s.append(d);
    s
}

/// The report of `add`.
pub fn added_report(table: &str, id: i64) -> (msg: String)
    ensures
        msg@ == added_text(table@, id),
{
    let digits = i64_text(id);
    concat4("added to ", table, ": id=", digits.as_str())
}

/// The report of `delete`, from the number of records it changed.
pub fn deleted_report(table: &str, id: i64, changed: usize) -> (msg: String)
    ensures
        msg@ == if changed > 0 {
            soft_deleted_text(table@, id)
        } else {
            no_active_text(table@, id)
        },
{
    let digits = i64_text(id);
    if changed > 0 {
        concat4("deleted (soft) from ", table, ": id=", digits.as_str())
    } else {
        concat4("no active record id=", digits.as_str(), " in ", table)
    }
}

/// The report of `purge`, from the number of records it removed.
pub fn purged_report(table: &str, id: i64, removed: usize) -> (msg: String)
    ensures
        msg@ == if removed > 0 {
            purged_text(table@, id)
        } else {
            no_record_text(table@, id)
        },
{
    let digits = i64_text(id);
    if removed > 0 {
        concat4("deleted (purge) from ", table, ": id=", digits.as_str())
    } else {
        concat4("no record id=", digits.as_str(), " in ", table)
    }
}

/// The report of `update`, from the id of the new record (`None` when there
/// was no active record to replace).
pub fn updated_report(table: &str, id: i64, new_id: Option<i64>, hard: bool) -> (msg: String)
    ensures
        msg@ == match new_id {
            Some(n) => updated_text(table@, id, n, hard),
            None => no_active_text(table@, id),
        },
{
    let digits = i64_text(id);
    match new_id {
        Some(n) => {
            let mode = if hard {
                "purge"
            } else {
                "soft"
            };
            let mut msg = concat4("updated (", mode, ") in ", table);
            let new_digits = i64_text(n);
            msg.append(": id=");
            msg.append(digits.as_str());
            msg.append(" -> id=");
            msg.append(new_digits.as_str());
            msg
        },
        None => concat4("no active record id=", digits.as_str(), " in ", table),
    }
}

/// The table name of the entity, as a spec value.
pub open spec fn table_of(entity: Entity) -> Seq<char> {
    entity_name(entity_index(entity))
}

/// `add`: add a record with `content` to the entity.
pub fn cmd_add(conn: &rusqlite::Connection, entity: Entity, content: &str) -> (res: Result<
    String,
    MemError,
>)
    ensures
        match res {
            Ok(msg) => exists|id: i64| msg@ == #[trigger] added_text(table_of(entity), id),
            Err(e) => db_failure(e),
        },
{
    apply_migrations(conn)?;
    let table = entity.table();
    let id = insert(conn, table, content)?;
    let msg = added_report(table, id);
    assert(msg@ == added_text(table_of(entity), id));
    Ok(msg)
}

/// `list`: the active records of the entity, as JSON or as a table.
pub fn cmd_list(conn: &rusqlite::Connection, entity: Entity, json: bool) -> (res: Result<
    Output,
    MemError,
>)
    ensures
        match res {
            Ok(l) => exists|rs: Seq<Record>| #[trigger] shows_records(l, rs, json),
            Err(e) => db_failure(e),
        },
{
    apply_migrations(conn)?;
    let records = list_active(conn, entity.table())?;
    let l = listing(&records, json);
    assert(shows_records(l, records@, json));
    Ok(l)
}

/// `delete`: soft-delete record `id` of the entity.
pub fn cmd_delete(conn: &rusqlite::Connection, entity: Entity, id: i64) -> (res: Result<
    String,
    MemError,
>)
    ensures
        match res {
            Ok(msg) => msg@ == soft_deleted_text(table_of(entity), id) || msg@ == no_active_text(
                table_of(entity),
                id,
            ),
            Err(e) => db_failure(e),
        },
{
    apply_migrations(conn)?;
    let table = entity.table();
    let changed = soft_delete(conn, table, id)?;
    Ok(deleted_report(table, id, changed))
}

/// `purge`: remove record `id` of the entity and its tags.
pub fn cmd_purge(conn: &rusqlite::Connection, entity: Entity, id: i64) -> (res: Result<
    String,
    MemError,
>)
    ensures
        match res {
            Ok(msg) => msg@ == purged_text(table_of(entity), id) || msg@ == no_record_text(
                table_of(entity),
                id,
            ),
            Err(e) => db_failure(e),
        },
{
    apply_migrations(conn)?;
    let table = entity.table();
    let removed = purge(conn, table, id)?;
    Ok(purged_report(table, id, removed))
}

/// `update`: replace record `id` of the entity by a new one with `content`
/// (the old one soft-deleted, or purged when `hard`).
pub fn cmd_update(
    conn: &rusqlite::Connection,
    entity: Entity,
    id: i64,
    content: &str,
    hard: bool,
) -> (res: Result<String, MemError>)
    ensures
        match res {
            Ok(msg) => msg@ == no_active_text(table_of(entity), id) || exists|new_id: i64|
                msg@ == #[trigger] updated_text(table_of(entity), id, new_id, hard),
            Err(e) => db_failure(e),
        },
{
    apply_migrations(conn)?;
    let table = entity.table();
    let new_id = update(conn, table, id, content, hard)?;
    let msg = updated_report(table, id, new_id, hard);
    if let Some(n) = new_id {
        assert(msg@ == updated_text(table_of(entity), id, n, hard));
    }
    Ok(msg)
}

// ---------------------------------------------------------------------------
// Tags

/// The texts of the strings.
pub open spec fn texts(v: Seq<String>) -> Seq<Seq<char>> {
    v.map_values(|t: String| t@)
}

/// What `tag` reports for one tag (already in normal form).
pub open spec fn tag_line(table: Seq<char>, id: i64, tag: Seq<char>, o: TagOutcome) -> Seq<char> {
    match o {
        TagOutcome::Added => "tagged "@ + table + " id="@ + signed_text(id as int) + ": "@ + tag,
        TagOutcome::AlreadyPresent => "already tagged "@ + table + " id="@ + signed_text(id as int)
            + ": "@ + tag,
        TagOutcome::NoRecord => no_active_text(table, id),
    }
}

/// What `tag` reports: one line per tag, in order, with its outcome.
pub open spec fn tag_lines(
    table: Seq<char>,
    id: i64,
    tags: Seq<Seq<char>>,
    outs: Seq<TagOutcome>,
) -> Seq<char>
    decreases tags.len(),
{
    if tags.len() == 0 {
        Seq::empty()
    } else {
        tag_lines(table, id, tags.drop_last(), outs.drop_last()) + tag_line(
            table,
            id,
            tag_normal_form(tags.last()),
            outs.last(),
        ) + seq!['\n']
    }
}

/// The report of one tag.
pub fn tag_report(table: &str, id: i64, tag: &str, outcome: TagOutcome) -> (msg: String)
    ensures
        msg@ == tag_line(table@, id, tag@, outcome),
{
    let digits = i64_text(id);
    match outcome {
        TagOutcome::Added => {
            let mut msg = concat4("tagged ", table, " id=", digits.as_str());
            msg.append(": ");
            msg.append(tag);
            msg
        },
        TagOutcome::AlreadyPresent => {
            let mut msg = concat4("already tagged ", table, " id=", digits.as_str());
            msg.append(": ");
            msg.append(tag);
            msg
        },
        TagOutcome::NoRecord => concat4("no active record id=", digits.as_str(), " in ", table),
    }
}

/// `tag`: attach each tag to record `id` of the entity.
pub fn cmd_tag(conn: &rusqlite::Connection, entity: Entity, id: i64, tags: &Vec<String>) -> (res:
    Result<String, MemError>)
    ensures
        match res {
            Ok(text) => exists|outs: Seq<TagOutcome>|
                outs.len() == tags@.len() && text@ == #[trigger] tag_lines(
                    table_of(entity),
                    id,
                    texts(tags@),
                    outs,
                ),
            Err(e) => db_failure(e) || exists|i: int|
                0 <= i < tags@.len() && normalize_tag_post((#[trigger] tags@[i])@, Err(e)),
        },
{
    apply_migrations(conn)?;
    let table = entity.table();
    let ghost names = texts(tags@);
    let mut text = String::new();
    let ghost mut outs: Seq<TagOutcome> = Seq::empty();
    let mut i: usize = 0;
    while i < tags.len()
        invariant
            i <= tags.len(),
            table@ == table_of(entity),
            crate::db::is_entity(table@),
            names == texts(tags@),
            outs.len() == i,
            text@ == tag_lines(table@, id, names.take(i as int), outs),
        decreases tags.len() - i,
    {
        let tag = tags[i].as_str();
        let outcome = match add_tag(conn, table, id, tag) {
            Ok(o) => o,
            Err(e) => {
                assert(tags@[i as int]@ == tag@);
                return Err(e);
            },
        };
        let normalized = match normalize_tag(tag) {
            Ok(t) => t,
            Err(e) => {
                assert(tags@[i as int]@ == tag@);
                return Err(e);
            },
        };
        let line = tag_report(table, id, normalized.as_str(), outcome);
        text.append(line.as_str());
        push_char(&mut text, '\n');
        proof {
            let prev = outs;
            outs = outs.push(outcome);
            let taken = names.take(i + 1);
            assert(taken.drop_last() =~= names.take(i as int));
            assert(outs.drop_last() =~= prev);
            assert(taken.last() == tag@);
        }
        i = i + 1;
    }
    assert(names.take(tags.len() as int) =~= names);
    Ok(text)
}

/// What `untag` reports (the tag in normal form, `removed` the number of tag
/// rows changed).
pub open spec fn untag_text(table: Seq<char>, id: i64, tag: Seq<char>, hard: bool, removed: usize) -> Seq<char> {
    if removed > 0 {
        (if hard {
            "purged tag from "@
        } else {
            "untagged "@
        }) + table + " id="@ + signed_text(id as int) + ": "@ + tag
    } else {
        (if hard {
            "no tag "@
        } else {
            "no active tag "@
        }) + tag + " on "@ + table + " id="@ + signed_text(id as int)
    }
}

/// The report of `untag`.
pub fn untag_report(table: &str, id: i64, tag: &str, hard: bool, removed: usize) -> (msg: String)
    ensures
        msg@ == untag_text(table@, id, tag@, hard, removed),
{
    let digits = i64_text(id);
    if removed > 0 {
        let head = if hard {
            "purged tag from "
        } else {
            "untagged "
        };
        let mut msg = concat4(head, table, " id=", digits.as_str());
        msg.append(": ");
        msg.append(tag);
        msg
    } else {
        let head = if hard {
            "no tag "
        } else {
            "no active tag "
        };
        let mut msg = concat4(head, tag, " on ", table);
        msg.append(" id=");
        msg.append(digits.as_str());
        msg
    }
}

/// The error of a command on `tag` after the schema is brought up to date:
/// a database failure, or, when the tag is not in normal form, the tag's own
/// error (a tag in normal form is never refused).
pub open spec fn refused_or_failed(tag: Seq<char>, e: MemError) -> bool {
    if tag_is_normal(tag_normal_form(tag)) {
        db_failure(e)
    } else {
        db_failure(e) || normalize_tag_post(tag, Err(e))
    }
}

/// `untag`: remove a tag from record `id` of the entity (soft, or purged when `hard`).
pub fn cmd_untag(conn: &rusqlite::Connection, entity: Entity, id: i64, tag: &str, hard: bool) -> (res:
    Result<String, MemError>)
    ensures
        match res {
            Ok(msg) => tag_is_normal(tag_normal_form(tag@)) && exists|n: usize|
                msg@ == #[trigger] untag_text(table_of(entity), id, tag_normal_form(tag@), hard, n),
            Err(e) => refused_or_failed(tag@, e),
        },
{
    apply_migrations(conn)?;
    let table = entity.table();
    let removed = remove_tag(conn, table, id, tag, hard)?;
    let normalized = normalize_tag(tag)?;
    let msg = untag_report(table, id, normalized.as_str(), hard, removed);
    assert(msg@ == untag_text(table_of(entity), id, tag_normal_form(tag@), hard, removed));
    Ok(msg)
}

// ---------------------------------------------------------------------------
// Finding by tag

/// The text of `find`: each group as a heading `[entity]` and a record
/// table, or a note when nothing carries the tag.
pub open spec fn found_text(tag: Seq<char>, groups: Seq<(String, Vec<Record>)>) -> Seq<char> {
    if groups.len() == 0 {
        "no records tagged "@ + tag + seq!['\n']
    } else {
        group_sections(groups)
    }
}

/// The sections of the groups, in order.
pub open spec fn group_sections(groups: Seq<(String, Vec<Record>)>) -> Seq<char>
    decreases groups.len(),
{
    if groups.len() == 0 {
        Seq::empty()
    } else {
        group_sections(groups.drop_last()) + seq!['['] + groups.last().0@ + "]\n"@ + table_spec(
            groups.last().1@,
        )
    }
}

/// `out` shows the groups found for `tag`: as JSON when `json` is set, else as text.
pub open spec fn shows_found(out: Output, tag: Seq<char>, groups: Seq<(String, Vec<Record>)>, json: bool) -> bool {
    match out {
        Output::Json(j) => json && j@ == found_view(tag, groups),
        Output::Text(t) => !json && t@ == found_text(tag, groups),
    }
}

/// The text of the groups found for `tag`.
pub fn found_report(tag: &str, groups: &Vec<(String, Vec<Record>)>) -> (text: String)
    ensures
        text@ == found_text(tag@, groups@),
{
    if groups.len() == 0 {
        let mut text = String::from_str("no records tagged ");
        text.append(tag);
        push_char(&mut text, '\n');
        proof {
            reveal_strlit("no records tagged ");
        }
        return text;
    }
    let mut text = String::new();
    let mut i: usize = 0;
    while i < groups.len()
        invariant
            i <= groups.len(),
            text@ == group_sections(groups@.take(i as int)),
        decreases groups.len() - i,
    {
        let (name, records) = &groups[i];
        let ghost before = text@;
        push_char(&mut text, '[');
        text.append(name.as_str());
        text.append("]\n");
        let table = table_text(records);
        text.append(table.as_str());
        proof {
            assert(groups@.take(i + 1).drop_last() =~= groups@.take(i as int));
            assert(groups@.take(i + 1).last() == groups@[i as int]);
            assert(text@ =~= before + seq!['['] + name@ + "]\n"@ + table_spec(records@));
        }
        i = i + 1;
    }
    assert(groups@.take(groups.len() as int) =~= groups@);
    text
}

/// The entity table to search, when the search is narrowed to one entity.
pub open spec fn filter_of(entity: Option<Entity>) -> Option<Seq<char>> {
    match entity {
        Some(e) => Some(table_of(e)),
        None => None,
    }
}

/// `find`: the active records carrying the tag, grouped by entity (all
/// entities, or only `entity`).
pub fn cmd_find(conn: &rusqlite::Connection, tag: &str, entity: Option<Entity>, json: bool) -> (res:
    Result<Output, MemError>)
    ensures
        match res {
            Ok(out) => tag_is_normal(tag_normal_form(tag@)) && exists|groups: Seq<(String, Vec<Record>)>|
                found_groups(groups, filter_of(entity)) && #[trigger] shows_found(
                    out,
                    tag_normal_form(tag@),
                    groups,
                    json,
                ),
            Err(e) => refused_or_failed(tag@, e),
        },
{
    apply_migrations(conn)?;
    let filter = match entity {
        Some(e) => Some(e.table()),
        None => None,
    };
    let groups = find_by_tag(conn, tag, filter)?;
    let normalized = normalize_tag(tag)?;
    let out = if json {
        Output::Json(object2("tag", Json::Str(normalized), "groups", groups_to_json(&groups)))
    } else {
        Output::Text(found_report(normalized.as_str(), &groups))
    };
    assert(shows_found(out, tag_normal_form(tag@), groups@, json));
    Ok(out)
}

// ---------------------------------------------------------------------------
// Tag overview

/// One line of the tag overview: the count right-aligned, then the tag.
pub open spec fn tag_count_line(row: (String, i64)) -> Seq<char> {
    pad_left(signed_text(row.1 as int), 5) + seq![' ', ' '] + row.0@ + seq!['\n']
}

/// The lines of the tag overview, in order.
pub open spec fn tag_count_lines(rows: Seq<(String, i64)>) -> Seq<char>
    decreases rows.len(),
{
    if rows.len() == 0 {
        Seq::empty()
    } else {
        tag_count_lines(rows.drop_last()) + tag_count_line(rows.last())
    }
}

/// The text of `tags`: one line per tag with its number of active records,
/// or a note when there is no tag.
pub open spec fn tags_text(rows: Seq<(String, i64)>) -> Seq<char> {
    if rows.len() == 0 {
        "(no tags)\n"@
    } else {
        tag_count_lines(rows)
    }
}

/// One row of the tag overview as JSON.
pub open spec fn tag_count_view(row: (String, i64)) -> JsonV {
    JsonV::Object(seq![("tag"@, JsonV::Str(row.0@)), ("count"@, JsonV::Int(row.1))])
}

/// `out` shows the tag overview `rows`: as JSON when `json` is set, else as text.
pub open spec fn shows_tags(out: Output, rows: Seq<(String, i64)>, json: bool) -> bool {
    match out {
        Output::Json(j) => json && j@ == JsonV::Array(rows.map_values(|r: (String, i64)| tag_count_view(r))),
        Output::Text(t) => !json && t@ == tags_text(rows),
    }
}

/// The tag overview, as JSON when `json` is set, else as text.
pub fn tags_output(rows: &Vec<(String, i64)>, json: bool) -> (out: Output)
    ensures
        shows_tags(out, rows@, json),
{
    if json {
        let mut items: Vec<Json> = Vec::new();
        let mut i: usize = 0;
        while i < rows.len()
            invariant
                i <= rows.len(),
                items@.len() == i,
                forall|k: int| 0 <= k < i ==> (#[trigger] items@[k])@ == tag_count_view(rows@[k]),
            decreases rows.len() - i,
        {
            let (tag, count) = &rows[i];
            items.push(object2("tag", json_str(tag.as_str()), "count", Json::Int(*count)));
            i = i + 1;
        }
        proof {
            lemma_items_view(items@);
            assert(items_view(items@) =~= rows@.map_values(|r: (String, i64)| tag_count_view(r)));
        }
        return Output::Json(array(items));
    }
    if rows.len() == 0 {
        proof {
            reveal_strlit("(no tags)\n");
        }
        return Output::Text(String::from_str("(no tags)\n"));
    }
    let mut text = String::new();
    let mut i: usize = 0;
    while i < rows.len()
        invariant
            i <= rows.len(),
            text@ == tag_count_lines(rows@.take(i as int)),
        decreases rows.len() - i,
    {
        let (tag, count) = &rows[i];
        let ghost before = text@;
        let digits = i64_text(*count);
        push_left_padded(&mut text, digits.as_str(), 5);
        text.append("  ");
        text.append(tag.as_str());
        push_char(&mut text, '\n');
        proof {
            reveal_strlit("  ");
            assert("  "@ =~= seq![' ', ' ']);
            assert(rows@.take(i + 1).drop_last() =~= rows@.take(i as int));
            assert(rows@.take(i + 1).last() == rows@[i as int]);
            assert(text@ =~= before + tag_count_line(rows@[i as int]));
        }
        i = i + 1;
    }
    assert(rows@.take(rows.len() as int) =~= rows@);
    Output::Text(text)
}

/// `tags`: every active tag with its number of active records.
pub fn cmd_tags(conn: &rusqlite::Connection, json: bool) -> (res: Result<Output, MemError>)
    ensures
        match res {
            Ok(out) => exists|rows: Seq<(String, i64)>| #[trigger] shows_tags(out, rows, json),
            Err(e) => db_failure(e),
        },
{
    apply_migrations(conn)?;
    let rows = tags_overview(conn)?;
    let out = tags_output(&rows, json);
    assert(shows_tags(out, rows@, json));
    Ok(out)
}

// ---------------------------------------------------------------------------
// Diagnostics

/// One tag row of the diagnostics: its entity, record id and tag.
pub open spec fn issue_line(i: TagIssue) -> Seq<char> {
    seq![' ', ' '] + i.entity@ + " id="@ + signed_text(i.record_id as int) + ": "@ + i.tag@ + seq![
        '\n',
    ]
}

/// The tag rows of one finding, in order.
pub open spec fn issue_lines(rows: Seq<TagIssue>) -> Seq<char>
    decreases rows.len(),
{
    if rows.len() == 0 {
        Seq::empty()
    } else {
        issue_lines(rows.drop_last()) + issue_line(rows.last())
    }
}

/// One finding: its title, its number of tag rows, then the rows.
pub open spec fn issue_section(title: Seq<char>, rows: Seq<TagIssue>) -> Seq<char> {
    title + ": "@ + decimal_text(rows.len()) + seq!['\n'] + issue_lines(rows)
}

/// The counts by entity, each as ` name=count`.
pub open spec fn count_items(counts: Seq<(String, i64)>) -> Seq<char>
    decreases counts.len(),
{
    if counts.len() == 0 {
        Seq::empty()
    } else {
        count_items(counts.drop_last()) + seq![' '] + counts.last().0@ + seq!['='] + signed_text(
            counts.last().1 as int,
        )
    }
}

/// A line of counts by entity.
pub open spec fn counts_line(title: Seq<char>, counts: Seq<(String, i64)>) -> Seq<char> {
    title + seq![':'] + count_items(counts) + seq!['\n']
}

/// The text of `doctor`: the schema version, each finding with its tag rows,
/// the record counts, what the repair removed (when it ran), and whether
/// there are problems.
pub open spec fn doctor_text(r: DoctorReport, fix: bool, removed: usize) -> Seq<char> {
    "schema version: "@ + signed_text(r.schema_version as int) + seq!['\n'] + issue_section(
        "dangling tags"@,
        r.dangling@,
    ) + issue_section("invalid entity tags"@, r.invalid_entity@) + issue_section(
        "dirty tags"@,
        r.dirty@,
    ) + issue_section("tags on soft-deleted records"@, r.on_soft_deleted@) + counts_line(
        "active records"@,
        r.active_counts@,
    ) + counts_line("soft-deleted records"@, r.soft_deleted_counts@) + (if fix {
        "removed tag rows: "@ + decimal_text(removed as nat) + seq!['\n']
    } else {
        Seq::empty()
    }) + (if report_has_problems(r) {
        "problems found\n"@
    } else {
        "no problems\n"@
    })
}

fn push_issue_section(text: &mut String, title: &str, rows: &Vec<TagIssue>)
    ensures
        final(text)@ == old(text)@ + issue_section(title@, rows@),
{
    text.append(title);
    text.append(": ");
    let n = usize_text(rows.len());
    text.append(n.as_str());
    push_char(text, '\n');
    proof {
        reveal_strlit(": ");
    }
    let ghost head = text@;
    assert(head == old(text)@ + title@ + ": "@ + decimal_text(rows@.len()) + seq!['\n']);
    let mut i: usize = 0;
    while i < rows.len()
        invariant
            i <= rows.len(),
            text@ == head + issue_lines(rows@.take(i as int)),
        decreases rows.len() - i,
    {
        let row = &rows[i];
        let ghost before = text@;
        text.append("  ");
        text.append(row.entity.as_str());
        text.append(" id=");
        let digits = i64_text(row.record_id);
        text.append(digits.as_str());
        text.append(": ");
        text.append(row.tag.as_str());
        push_char(text, '\n');
        proof {
            reveal_strlit("  ");
            assert("  "@ =~= seq![' ', ' ']);
            assert(rows@.take(i + 1).drop_last() =~= rows@.take(i as int));
            assert(rows@.take(i + 1).last() == *row);
            assert(text@ =~= before + issue_line(*row));
        }
        i = i + 1;
    }
    assert(rows@.take(rows.len() as int) =~= rows@);
    assert(text@ =~= old(text)@ + issue_section(title@, rows@));
}

fn push_counts_line(text: &mut String, title: &str, counts: &Vec<(String, i64)>)
    ensures
        final(text)@ == old(text)@ + counts_line(title@, counts@),
{
    text.append(title);
    push_char(text, ':');
    let ghost head = text@;
    let mut i: usize = 0;
    while i < counts.len()
        invariant
            i <= counts.len(),
            text@ == head + count_items(counts@.take(i as int)),
        decreases counts.len() - i,
    {
        let (name, count) = &counts[i];
        let ghost before = text@;
        push_char(text, ' ');
        text.append(name.as_str());
        push_char(text, '=');
        let digits = i64_text(*count);
        text.append(digits.as_str());
        proof {
            assert(counts@.take(i + 1).drop_last() =~= counts@.take(i as int));
            assert(counts@.take(i + 1).last() == counts@[i as int]);
            assert(text@ =~= before + seq![' '] + name@ + seq!['='] + signed_text(*count as int));
        }
        i = i + 1;
    }
    assert(counts@.take(counts.len() as int) =~= counts@);
    push_char(text, '\n');
    assert(text@ =~= old(text)@ + counts_line(title@, counts@));
}

/// The text of the diagnostics report.
pub fn doctor_report_text(r: &DoctorReport, fix: bool, removed: usize) -> (text: String)
    ensures
        text@ == doctor_text(*r, fix, removed),
{
    let mut text = String::from_str("schema version: ");
    let version = i64_text(r.schema_version);
    text.append(version.as_str());
    push_char(&mut text, '\n');
    push_issue_section(&mut text, "dangling tags", &r.dangling);
    push_issue_section(&mut text, "invalid entity tags", &r.invalid_entity);
    push_issue_section(&mut text, "dirty tags", &r.dirty);
    push_issue_section(&mut text, "tags on soft-deleted records", &r.on_soft_deleted);
    push_counts_line(&mut text, "active records", &r.active_counts);
    push_counts_line(&mut text, "soft-deleted records", &r.soft_deleted_counts);
    let ghost body = text@;
    if fix {
        text.append("removed tag rows: ");
        let n = usize_text(removed);
        text.append(n.as_str());
        push_char(&mut text, '\n');
    }
    let ghost with_fix = text@;
    if r.has_problems() {
        text.append("problems found\n");
    } else {
        text.append("no problems\n");
    }
    proof {
        reveal_strlit("schema version: ");
    }
    assert(with_fix == body + (if fix {
        "removed tag rows: "@ + decimal_text(removed as nat) + seq!['\n']
    } else {
        Seq::<char>::empty()
    }));
    assert(text@ =~= doctor_text(*r, fix, removed));
    text
}

/// `out` shows the diagnostics: as JSON when `json` is set, else as text.
pub open spec fn shows_diagnosis(out: Output, r: DoctorReport, fix: bool, removed: usize, json: bool) -> bool {
    match out {
        Output::Json(j) => json && j@ == doctor_result_view(r, fix, removed),
        Output::Text(t) => !json && t@ == doctor_text(r, fix, removed),
    }
}

/// What `doctor` found: how to show it, and whether there are problems
/// (the program then exits with a failure status).
#[derive(Debug)]
pub struct Diagnosis {
    /// The report, as JSON or as text.
    pub output: Output,
    /// Whether the report shows integrity problems.
    pub problems: bool,
}

/// `doctor`: diagnose the tag store; with `fix`, also remove the dangling
/// tags and the tags of unknown entities and show the report of the
/// repaired store, which has neither left.
pub fn cmd_doctor(conn: &rusqlite::Connection, fix: bool, json: bool) -> (res: Result<
    Diagnosis,
    MemError,
>)
    ensures
        match res {
            Ok(d) => exists|r: DoctorReport, n: usize|
                (!fix ==> n == 0) && (fix ==> r.dangling@.len() == 0 && r.invalid_entity@.len() == 0)
                    && d.problems == report_has_problems(r) && #[trigger] shows_diagnosis(
                    d.output,
                    r,
                    fix,
                    n,
                    json,
                ) && exists|rows: Seq<(TagIssue, RecordState)>| #[trigger] report_of(r, rows),
            Err(e) => db_failure(e),
        },
{
    apply_migrations(conn)?;
    let report = doctor(conn)?;
    let removed = if fix {
        doctor_fix(conn, &report)?
    } else {
        0
    };
    let ghost before = report;
    let after = if fix {
        report_after_fix(report)
    } else {
        report
    };
    let output = if json {
        Output::Json(doctor_result_json(&after, fix, removed))
    } else {
        Output::Text(doctor_report_text(&after, fix, removed))
    };
    let problems = after.has_problems();
    proof {
        let rows = choose|rows: Seq<(TagIssue, RecordState)>| report_of(before, rows);
        assert(report_of(before, rows));
        if fix {
            assert(report_of(after, rows_without_ids(rows, fix_targets_spec(before))));
        } else {
            assert(report_of(after, rows));
        }
        assert(shows_diagnosis(output, after, fix, removed, json));
    }
    Ok(Diagnosis { output, problems })
}

} // verus!
