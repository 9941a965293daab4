//! The MCP (Model Context Protocol) server logic: JSON-RPC requests in,
//! responses and tool results out. Reading and writing the messages, and
//! opening the database, are left to the caller.
use vstd::prelude::*;

use crate::db::{
    doctor, doctor_fix, entity_name, find_by_tag, insert, is_entity, is_entity_table, list_active,
    add_tag, db_failure, fix_targets_spec, report_after_fix, rows_without_ids, remove_tag, report_of, found_groups, DoctorReport, Record, RecordState, TagIssue,
    TagOutcome,
};
use crate::tags::{normalize_tag_post, tag_is_normal, tag_normal_form};
use crate::error::{message_spec, MemError};
use crate::json::{
    array, copy_json, fields_get, fields_view, items_view, json_get, json_str, lemma_fields_view,
    lemma_items_view, member, object, object1, object2, object3, object4, object5, Json, JsonV,
};
use crate::text::same_text;

verus! {

/// The JSON-RPC version of every response.
pub const JSONRPC_VERSION: &'static str = "2.0";

/// The MCP protocol version the server speaks.
pub const MCP_PROTOCOL_VERSION: &'static str = "2024-11-05";

/// Error code of an unknown method.
pub const METHOD_NOT_FOUND: i64 = -32601;

/// Error code of invalid parameters.
pub const INVALID_PARAMS: i64 = -32602;

/// Error code of an internal error.
pub const INTERNAL_ERROR: i64 = -32603;

/// The value of an optional id: `null` when absent.
pub open spec fn id_view(id: Option<JsonV>) -> JsonV {
    match id {
        Some(v) => v,
        None => JsonV::Null,
    }
}

/// The view of an optional value.
pub open spec fn opt_view(j: Option<Json>) -> Option<JsonV> {
    match j {
        Some(v) => Some(v@),
        None => None,
    }
}

/// A successful JSON-RPC response.
pub open spec fn success_view(id: Option<JsonV>, result: JsonV) -> JsonV {
    JsonV::Object(
        seq![("jsonrpc"@, JsonV::Str("2.0"@)), ("id"@, id_view(id)), ("result"@, result)],
    )
}

/// A JSON-RPC error response.
pub open spec fn error_view(id: Option<JsonV>, code: i64, message: Seq<char>) -> JsonV {
    JsonV::Object(
        seq![
            ("jsonrpc"@, JsonV::Str("2.0"@)),
            ("id"@, id_view(id)),
            ("error"@, JsonV::Object(seq![("code"@, JsonV::Int(code)), ("message"@, JsonV::Str(message))])),
        ],
    )
}

fn id_value(id: Option<Json>) -> (j: Json)
    ensures
        j@ == id_view(opt_view(id)),
{
    match id {
        Some(v) => v,
        None => Json::Null,
    }
}

/// A successful response to the request `id` with `result`.
pub fn success_response(id: Option<Json>, result: Json) -> (r: Json)
    ensures
        r@ == success_view(opt_view(id), result@),
{
    let idv = id_value(id);
    object3("jsonrpc", json_str(JSONRPC_VERSION), "id", idv, "result", result)
}

/// An error response to the request `id`.
pub fn error_response(id: Option<Json>, code: i64, message: &str) -> (r: Json)
    ensures
        r@ == error_view(opt_view(id), code, message@),
{
    let idv = id_value(id);
    let err = object2("code", Json::Int(code), "message", json_str(message));
    object3("jsonrpc", json_str(JSONRPC_VERSION), "id", idv, "error", err)
}

/// `a` followed by `b`.
fn concat2(a: &str, b: &str) -> (s: String)
    ensures
        s@ == a@ + b@,
{
    let mut s = String::from_str(a);
    s.append(b);
    s
}

// ---------------------------------------------------------------------------
// Resources

/// Number of resources.
pub const RESOURCE_COUNT: usize = 4;

/// The URI of the `i`-th resource.
pub open spec fn resource_uri(i: int) -> Seq<char> {
    if i == 0 {
        "mem://facts"@
    } else if i == 1 {
        "mem://decisions"@
    } else if i == 2 {
        "mem://modules"@
    } else {
        "mem://commands"@
    }
}

/// The entity behind the `i`-th resource.
pub open spec fn resource_entity(i: int) -> Seq<char> {
    if i == 0 {
        entity_name(0)
    } else if i == 1 {
        entity_name(1)
    } else if i == 2 {
        entity_name(3)
    } else {
        entity_name(2)
    }
}

fn resource_at(i: usize) -> (r: (&'static str, &'static str))
    requires
        i < RESOURCE_COUNT,
    ensures
        r.0@ == resource_uri(i as int),
        r.1@ == resource_entity(i as int),
{
    if i == 0 {
        proof {
            reveal_strlit("facts");
        }
        assert("facts"@ =~= entity_name(0));
        ("mem://facts", "facts")
    } else if i == 1 {
        proof {
            reveal_strlit("decisions");
        }
        assert("decisions"@ =~= entity_name(1));
        ("mem://decisions", "decisions")
    } else if i == 2 {
        proof {
            reveal_strlit("modules");
        }
        assert("modules"@ =~= entity_name(3));
        ("mem://modules", "modules")
    } else {
        proof {
            reveal_strlit("commands");
        }
        assert("commands"@ =~= entity_name(2));
        ("mem://commands", "commands")
    }
}

/// The entity a resource URI stands for.
pub open spec fn uri_entity(uri: Seq<char>) -> Option<Seq<char>> {
    if exists|i: int| 0 <= i < RESOURCE_COUNT && resource_uri(i) == uri {
        let i = choose|i: int| 0 <= i < RESOURCE_COUNT && resource_uri(i) == uri;
        Some(resource_entity(i))
    } else {
        None
    }
}

proof fn lemma_resource_uris_distinct()
    ensures
        forall|i: int, j: int|
            0 <= i < RESOURCE_COUNT && 0 <= j < RESOURCE_COUNT && i != j ==> resource_uri(i)
                != resource_uri(j),
{
    reveal_strlit("mem://facts");
    reveal_strlit("mem://decisions");
    reveal_strlit("mem://modules");
    reveal_strlit("mem://commands");
    assert("mem://facts"@.len() != "mem://decisions"@.len());
    assert("mem://facts"@.len() != "mem://modules"@.len());
    assert("mem://facts"@.len() != "mem://commands"@.len());
    assert("mem://decisions"@.len() != "mem://modules"@.len());
    assert("mem://decisions"@.len() != "mem://commands"@.len());
    assert("mem://modules"@[6] != "mem://commands"@[6]);
}

/// The entity table behind a resource URI, if it is one of the resources.
pub fn entity_from_uri(uri: &str) -> (r: Option<&'static str>)
    ensures
        match r {
            Some(e) => uri_entity(uri@) == Some(e@),
            None => uri_entity(uri@) is None,
        },
{
    proof {
        lemma_resource_uris_distinct();
    }
    let mut i: usize = 0;
    while i < RESOURCE_COUNT
        invariant
            i <= RESOURCE_COUNT,
            forall|j: int| 0 <= j < i ==> resource_uri(j) != uri@,
        decreases RESOURCE_COUNT - i,
    {
        let (u, e) = resource_at(i);
        if same_text(u, uri) {
            proof {
                lemma_resource_uris_distinct();
                assert(0 <= i < RESOURCE_COUNT && resource_uri(i as int) == uri@);
            }
            return Some(e);
        }
        i = i + 1;
    }
    None
}

/// Every resource stands for an entity table, and its URI leads back to it.
pub proof fn law_resources_name_entities(i: int)
    requires
        0 <= i < RESOURCE_COUNT,
    ensures
        uri_entity(resource_uri(i)) == Some(resource_entity(i)),
        is_entity(resource_entity(i)),
{
    lemma_resource_uris_distinct();
    let k = if i == 0 {
        0int
    } else if i == 1 {
        1int
    } else if i == 2 {
        3int
    } else {
        2int
    };
    assert(entity_name(k) == resource_entity(i));
}

/// The listing entry of the `i`-th resource.
pub open spec fn resource_spec_view(i: int) -> JsonV {
    JsonV::Object(
        seq![
            ("uri"@, JsonV::Str(resource_uri(i))),
            ("name"@, JsonV::Str("mem-cli "@ + resource_entity(i))),
            ("description"@, JsonV::Str("Active "@ + resource_entity(i) + " records from mem-cli context."@)),
            ("mimeType"@, JsonV::Str("application/json"@)),
        ],
    )
}

/// The resources the server exposes, one per entity.
pub fn resource_specs() -> (specs: Vec<Json>)
    ensures
        items_view(specs@).len() == RESOURCE_COUNT,
        forall|i: int| 0 <= i < RESOURCE_COUNT ==> #[trigger] items_view(specs@)[i]
            == resource_spec_view(i),
{
    let mut specs: Vec<Json> = Vec::new();
    let mut i: usize = 0;
    while i < RESOURCE_COUNT
        invariant
            i <= RESOURCE_COUNT,
            specs@.len() == i,
            forall|j: int| 0 <= j < i ==> (#[trigger] specs@[j])@ == resource_spec_view(j),
        decreases RESOURCE_COUNT - i,
    {
        let (uri, entity) = resource_at(i);
        let name = concat2("mem-cli ", entity);
        let mut description = String::from_str("Active ");
        description.append(entity);
        description.append(" records from mem-cli context.");
        let spec = object4(
            "uri",
            json_str(uri),
            "name",
            Json::Str(name),
            "description",
            Json::Str(description),
            "mimeType",
            json_str("application/json"),
        );
        specs.push(spec);
        i = i + 1;
    }
    proof {
        lemma_items_view(specs@);
    }
    specs
}

// ---------------------------------------------------------------------------
// Values of the library as JSON

/// An optional string as JSON: the string, or `null`.
pub open spec fn opt_str_view(s: Option<String>) -> JsonV {
    match s {
        Some(t) => JsonV::Str(t@),
        None => JsonV::Null,
    }
}

/// A record as JSON.
pub open spec fn record_view(r: Record) -> JsonV {
    JsonV::Object(
        seq![
            ("id"@, JsonV::Int(r.id)),
            ("content"@, JsonV::Str(r.content@)),
            ("created_at"@, JsonV::Str(r.created_at@)),
            ("updated_at"@, JsonV::Str(r.updated_at@)),
            ("deleted_at"@, opt_str_view(r.deleted_at)),
        ],
    )
}

/// Records as a JSON array.
pub open spec fn records_view(rs: Seq<Record>) -> JsonV {
    JsonV::Array(rs.map_values(|r: Record| record_view(r)))
}

fn opt_str_json(s: &Option<String>) -> (j: Json)
    ensures
        j@ == opt_str_view(*s),
{
    match s {
        Some(t) => Json::Str(t.clone()),
        None => Json::Null,
    }
}

/// One record as JSON.
pub fn record_to_json(r: &Record) -> (j: Json)
    ensures
        j@ == record_view(*r),
{
    object5(
        "id",
        Json::Int(r.id),
        "content",
        Json::Str(r.content.clone()),
        "created_at",
        Json::Str(r.created_at.clone()),
        "updated_at",
        Json::Str(r.updated_at.clone()),
        "deleted_at",
        opt_str_json(&r.deleted_at),
    )
}

/// Records as a JSON array.
pub fn records_to_json(records: &Vec<Record>) -> (j: Json)
    ensures
        j@ == records_view(records@),
{
    let mut items: Vec<Json> = Vec::new();
    let mut i: usize = 0;
    while i < records.len()
        invariant
            i <= records.len(),
            items@.len() == i,
            forall|k: int| 0 <= k < i ==> (#[trigger] items@[k])@ == record_view(records@[k]),
        decreases records.len() - i,
    {
        items.push(record_to_json(&records[i]));
        i = i + 1;
    }
    proof {
        lemma_items_view(items@);
        assert(items_view(items@) =~= records@.map_values(|r: Record| record_view(r)));
    }
    array(items)
}

/// A tag row as JSON.
pub open spec fn issue_view(i: TagIssue) -> JsonV {
    JsonV::Object(
        seq![
            ("id"@, JsonV::Int(i.id)),
            ("entity"@, JsonV::Str(i.entity@)),
            ("record_id"@, JsonV::Int(i.record_id)),
            ("tag"@, JsonV::Str(i.tag@)),
        ],
    )
}

/// Tag rows as a JSON array.
pub open spec fn issues_view(rows: Seq<TagIssue>) -> JsonV {
    JsonV::Array(rows.map_values(|i: TagIssue| issue_view(i)))
}

/// Tag rows as a JSON array.
pub fn tag_issues_to_json(issues: &Vec<TagIssue>) -> (j: Json)
    ensures
        j@ == issues_view(issues@),
{
    let mut items: Vec<Json> = Vec::new();
    let mut i: usize = 0;
    while i < issues.len()
        invariant
            i <= issues.len(),
            items@.len() == i,
            forall|k: int| 0 <= k < i ==> (#[trigger] items@[k])@ == issue_view(issues@[k]),
        decreases issues.len() - i,
    {
        let issue = &issues[i];
        items.push(
            object4(
                "id",
                Json::Int(issue.id),
                "entity",
                Json::Str(issue.entity.clone()),
                "record_id",
                Json::Int(issue.record_id),
                "tag",
                Json::Str(issue.tag.clone()),
            ),
        );
        i = i + 1;
    }
    proof {
        lemma_items_view(items@);
        assert(items_view(items@) =~= issues@.map_values(|i: TagIssue| issue_view(i)));
    }
    array(items)
}

/// Counts by name as a JSON object.
pub open spec fn counts_view(counts: Seq<(String, i64)>) -> JsonV {
    JsonV::Object(counts.map_values(|c: (String, i64)| (c.0@, JsonV::Int(c.1))))
}

/// Counts by name as a JSON object.
pub fn counts_to_json(counts: &Vec<(String, i64)>) -> (j: Json)
    ensures
        j@ == counts_view(counts@),
{
    let mut members: Vec<(String, Json)> = Vec::new();
    let mut i: usize = 0;
    while i < counts.len()
        invariant
            i <= counts.len(),
            members@.len() == i,
            forall|k: int| 0 <= k < i ==> (#[trigger] members@[k]).0@ == counts@[k].0@ && members@[k].1@
                == JsonV::Int(counts@[k].1),
        decreases counts.len() - i,
    {
        let (name, n) = &counts[i];
        members.push((name.clone(), Json::Int(*n)));
        i = i + 1;
    }
    proof {
        lemma_fields_view(members@);
        assert(fields_view(members@) =~= counts@.map_values(
            |c: (String, i64)| (c.0@, JsonV::Int(c.1)),
        ));
    }
    object(members)
}

/// A diagnostics report as JSON.
pub open spec fn report_view(r: DoctorReport) -> JsonV {
    JsonV::Object(
        seq![
            ("schema_version"@, JsonV::Int(r.schema_version)),
            ("dangling"@, issues_view(r.dangling@)),
            ("invalid_entity"@, issues_view(r.invalid_entity@)),
            ("dirty"@, issues_view(r.dirty@)),
            ("on_soft_deleted"@, issues_view(r.on_soft_deleted@)),
            ("active_counts"@, counts_view(r.active_counts@)),
            ("soft_deleted_counts"@, counts_view(r.soft_deleted_counts@)),
            ("has_problems"@, JsonV::Bool(crate::db::report_has_problems(r))),
        ],
    )
}

/// A diagnostics report as JSON.
pub fn doctor_report_to_json(report: &DoctorReport) -> (j: Json)
    ensures
        j@ == report_view(*report),
{
    let mut m: Vec<(String, Json)> = Vec::new();
    m.push(member("schema_version", Json::Int(report.schema_version)));
    m.push(member("dangling", tag_issues_to_json(&report.dangling)));
    m.push(member("invalid_entity", tag_issues_to_json(&report.invalid_entity)));
    m.push(member("dirty", tag_issues_to_json(&report.dirty)));
    m.push(member("on_soft_deleted", tag_issues_to_json(&report.on_soft_deleted)));
    m.push(member("active_counts", counts_to_json(&report.active_counts)));
    m.push(member("soft_deleted_counts", counts_to_json(&report.soft_deleted_counts)));
    m.push(member("has_problems", Json::Bool(report.has_problems())));
    proof {
        lemma_fields_view(m@);
        assert(fields_view(m@) =~= report_view(*report)->Object_0);
    }
    object(m)
}

/// A count as a JSON number.
pub open spec fn count_view(n: usize) -> JsonV {
    if n <= i64::MAX {
        JsonV::Int(n as i64)
    } else {
        JsonV::UInt(n as u64)
    }
}

/// A count as a JSON number.
pub fn count_to_json(n: usize) -> (j: Json)
    ensures
        j@ == count_view(n),
{
    if n as u64 <= i64::MAX as u64 {
        Json::Int(n as i64)
    } else {
        Json::UInt(n as u64)
    }
}

// ---------------------------------------------------------------------------
// Tool arguments

/// Why a tool call failed.
#[derive(Debug)]
pub enum ToolError {
    /// The arguments are not what the tool takes; the message says why.
    InvalidParams(String),
    /// The operation failed in the library or the database.
    Internal(MemError),
}

/// The message for a missing or mistyped field.
pub open spec fn missing_field(field: Seq<char>) -> Seq<char> {
    "missing or invalid field: "@ + field
}

/// A required non-empty string field.
pub open spec fn required_string(fields: Seq<(Seq<char>, JsonV)>, field: Seq<char>) -> Option<Seq<char>> {
    match fields_get(fields, field) {
        Some(JsonV::Str(s)) => if s.len() > 0 {
            Some(s)
        } else {
            None
        },
        _ => None,
    }
}

/// An invalid-params error whose message is `a` followed by `b`.
pub fn invalid_params(a: &str, b: &str) -> (e: ToolError)
    ensures
        e matches ToolError::InvalidParams(m) && m@ == a@ + b@,
{
    ToolError::InvalidParams(concat2(a, b))
}

/// The members of the tool arguments, which must be an object.
pub fn arg_object(args: &Json) -> (r: Result<&Vec<(String, Json)>, ToolError>)
    ensures
        match args@ {
            JsonV::Object(f) => r matches Ok(g) && fields_view(g@) == f,
            _ => r matches Err(ToolError::InvalidParams(m)) && m@ == "tool arguments must be an object"@,
        },
{
    match args.as_object() {
        Some(f) => Ok(f),
        None => Err(ToolError::InvalidParams(String::from_str("tool arguments must be an object"))),
    }
}

/// A required, non-empty string field.
pub fn get_required_string<'a>(args: &'a Vec<(String, Json)>, field: &str) -> (r: Result<
    &'a str,
    ToolError,
>)
    ensures
        match required_string(fields_view(args@), field@) {
            Some(s) => r matches Ok(t) && t@ == s,
            None => r matches Err(ToolError::InvalidParams(m)) && m@ == missing_field(field@),
        },
{
    let v = crate::json::fields_lookup(args, field);
    match v {
        Some(j) => match j.as_str() {
            Some(s) => {
                if s.unicode_len() > 0 {
                    Ok(s)
                } else {
                    Err(invalid_params("missing or invalid field: ", field))
                }
            },
            None => Err(invalid_params("missing or invalid field: ", field)),
        },
        None => Err(invalid_params("missing or invalid field: ", field)),
    }
}

/// A required integer field.
pub open spec fn required_i64(fields: Seq<(Seq<char>, JsonV)>, field: Seq<char>) -> Option<i64> {
    match fields_get(fields, field) {
        Some(v) => crate::json::json_as_i64(v),
        None => None,
    }
}

/// A required integer field.
pub fn get_required_i64(args: &Vec<(String, Json)>, field: &str) -> (r: Result<i64, ToolError>)
    ensures
        match required_i64(fields_view(args@), field@) {
            Some(i) => r == Ok::<i64, ToolError>(i),
            None => r matches Err(ToolError::InvalidParams(m)) && m@ == missing_field(field@),
        },
{
    match crate::json::fields_lookup(args, field) {
        Some(j) => match j.as_i64() {
            Some(i) => Ok(i),
            None => Err(invalid_params("missing or invalid field: ", field)),
        },
        None => Err(invalid_params("missing or invalid field: ", field)),
    }
}

/// An optional boolean field (anything but a boolean counts as absent).
pub open spec fn optional_bool(fields: Seq<(Seq<char>, JsonV)>, field: Seq<char>) -> Option<bool> {
    match fields_get(fields, field) {
        Some(JsonV::Bool(b)) => Some(b),
        _ => None,
    }
}

/// An optional boolean field.
pub fn get_optional_bool(args: &Vec<(String, Json)>, field: &str) -> (r: Option<bool>)
    ensures
        r == optional_bool(fields_view(args@), field@),
{
    match crate::json::fields_lookup(args, field) {
        Some(j) => j.as_bool(),
        None => None,
    }
}

/// A required entity field: a non-empty string naming an entity table.
pub open spec fn required_entity(fields: Seq<(Seq<char>, JsonV)>, field: Seq<char>) -> Result<
    Seq<char>,
    Seq<char>,
> {
    match required_string(fields, field) {
        None => Err(missing_field(field)),
        Some(e) => if is_entity(e) {
            Ok(e)
        } else {
            Err("unknown entity: "@ + e)
        },
    }
}

/// A required entity field.
pub fn get_required_entity<'a>(args: &'a Vec<(String, Json)>, field: &str) -> (r: Result<
    &'a str,
    ToolError,
>)
    ensures
        match required_entity(fields_view(args@), field@) {
            Ok(e) => r matches Ok(t) && t@ == e,
            Err(m) => r matches Err(ToolError::InvalidParams(t)) && t@ == m,
        },
{
    let entity = get_required_string(args, field)?;
    if is_entity_table(entity) {
        Ok(entity)
    } else {
        Err(invalid_params("unknown entity: ", entity))
    }
}

/// An optional entity field: absent, or a string naming an entity table.
pub open spec fn optional_entity(fields: Seq<(Seq<char>, JsonV)>, field: Seq<char>) -> Result<
    Option<Seq<char>>,
    Seq<char>,
> {
    match fields_get(fields, field) {
        None => Ok(None),
        Some(JsonV::Str(e)) => if is_entity(e) {
            Ok(Some(e))
        } else {
            Err("unknown entity: "@ + e)
        },
        Some(_) => Err("invalid field type: "@ + field),
    }
}

/// An optional entity field.
pub fn get_optional_entity<'a>(args: &'a Vec<(String, Json)>, field: &str) -> (r: Result<
    Option<&'a str>,
    ToolError,
>)
    ensures
        match optional_entity(fields_view(args@), field@) {
            Ok(None) => r matches Ok(None),
            Ok(Some(e)) => r matches Ok(Some(t)) && t@ == e,
            Err(m) => r matches Err(ToolError::InvalidParams(t)) && t@ == m,
        },
{
    let value = match crate::json::fields_lookup(args, field) {
        Some(v) => v,
        None => {
            return Ok(None);
        },
    };
    let entity = match value.as_str() {
        Some(e) => e,
        None => {
            return Err(invalid_params("invalid field type: ", field));
        },
    };
    if is_entity_table(entity) {
        Ok(Some(entity))
    } else {
        Err(invalid_params("unknown entity: ", entity))
    }
}

/// A non-empty string item.
pub open spec fn nonempty_str(v: JsonV) -> bool {
    v matches JsonV::Str(s) && s.len() > 0
}

/// The string of a string item.
pub open spec fn str_of(v: JsonV) -> Seq<char> {
    match v {
        JsonV::Str(s) => s,
        _ => Seq::empty(),
    }
}

/// A required, non-empty array of non-empty strings.
pub open spec fn required_string_array(fields: Seq<(Seq<char>, JsonV)>, field: Seq<char>) -> Result<
    Seq<Seq<char>>,
    Seq<char>,
> {
    match fields_get(fields, field) {
        Some(JsonV::Array(items)) => if items.len() == 0 {
            Err("field must not be empty: "@ + field)
        } else if forall|i: int| 0 <= i < items.len() ==> nonempty_str(#[trigger] items[i]) {
            Ok(items.map_values(|v: JsonV| str_of(v)))
        } else {
            Err("field must be array of strings: "@ + field)
        },
        _ => Err(missing_field(field)),
    }
}

/// A required, non-empty array of non-empty strings.
pub fn get_required_string_array(args: &Vec<(String, Json)>, field: &str) -> (r: Result<
    Vec<String>,
    ToolError,
>)
    ensures
        match required_string_array(fields_view(args@), field@) {
            Ok(ss) => r matches Ok(v) && v@.map_values(|s: String| s@) == ss,
            Err(m) => r matches Err(ToolError::InvalidParams(t)) && t@ == m,
        },
{
    let values = match crate::json::fields_lookup(args, field) {
        Some(j) => match j.as_array() {
            Some(a) => a,
            None => {
                return Err(invalid_params("missing or invalid field: ", field));
            },
        },
        None => {
            return Err(invalid_params("missing or invalid field: ", field));
        },
    };
    let ghost items = items_view(values@);
    proof {
        lemma_items_view(values@);
    }
    if values.len() == 0 {
        return Err(invalid_params("field must not be empty: ", field));
    }
    let mut out: Vec<String> = Vec::new();
    let mut i: usize = 0;
    while i < values.len()
        invariant
            i <= values.len(),
            items == items_view(values@),
            items.len() == values@.len(),
            items.len() > 0,
            fields_get(fields_view(args@), field@) == Some(JsonV::Array(items)),
            forall|k: int| 0 <= k < values@.len() ==> #[trigger] items[k] == values@[k]@,
            forall|k: int| 0 <= k < i ==> nonempty_str(#[trigger] items[k]),
            out@.len() == i,
            forall|k: int| 0 <= k < i ==> (#[trigger] out@[k])@ == str_of(items[k]),
        decreases values.len() - i,
    {
        let ok = match values[i].as_str() {
            Some(s) => {
                if s.unicode_len() > 0 {
                    out.push(String::from_str(s));
                    true
                } else {
                    false
                }
            },
            None => false,
        };
        if !ok {
            assert(!nonempty_str(items[i as int]));
            return Err(invalid_params("field must be array of strings: ", field));
        }
        i = i + 1;
    }
    assert(out@.map_values(|s: String| s@) =~= items.map_values(|v: JsonV| str_of(v)));
    Ok(out)
}

// ---------------------------------------------------------------------------
// Tools

/// The message for arguments that are not an object.
pub open spec fn not_object() -> Seq<char> {
    "tool arguments must be an object"@
}

/// The entity a `list_*` tool lists.
pub open spec fn list_tool_table(name: Seq<char>) -> Option<Seq<char>> {
    if name == "list_facts"@ {
        Some(entity_name(0))
    } else if name == "list_decisions"@ {
        Some(entity_name(1))
    } else if name == "list_modules"@ {
        Some(entity_name(3))
    } else if name == "list_commands"@ {
        Some(entity_name(2))
    } else {
        None
    }
}

/// The entity an `add_*` tool adds to.
pub open spec fn add_tool_table(name: Seq<char>) -> Option<Seq<char>> {
    if name == "add_fact"@ {
        Some(entity_name(0))
    } else if name == "add_decision"@ {
        Some(entity_name(1))
    } else if name == "add_module"@ {
        Some(entity_name(3))
    } else if name == "add_command"@ {
        Some(entity_name(2))
    } else {
        None
    }
}

/// The argument check of `find_by_tag`: `tag` required, `entity` optional.
pub open spec fn find_args_check(args: JsonV) -> Option<Seq<char>> {
    match args {
        JsonV::Object(f) => if required_string(f, "tag"@) is None {
            Some(missing_field("tag"@))
        } else {
            match optional_entity(f, "entity"@) {
                Err(m) => Some(m),
                Ok(_) => None,
            }
        },
        _ => Some(not_object()),
    }
}

/// The argument check of the `add_*` tools: `content` required.
pub open spec fn add_args_check(args: JsonV) -> Option<Seq<char>> {
    match args {
        JsonV::Object(f) => if required_string(f, "content"@) is None {
            Some(missing_field("content"@))
        } else {
            None
        },
        _ => Some(not_object()),
    }
}

/// The argument check of `tag_record`: `entity`, `id` and `tags` required.
pub open spec fn tag_args_check(args: JsonV) -> Option<Seq<char>> {
    match args {
        JsonV::Object(f) => match required_entity(f, "entity"@) {
            Err(m) => Some(m),
            Ok(_) => if required_i64(f, "id"@) is None {
                Some(missing_field("id"@))
            } else {
                match required_string_array(f, "tags"@) {
                    Err(m) => Some(m),
                    Ok(_) => None,
                }
            },
        },
        _ => Some(not_object()),
    }
}

/// The argument check of `untag_record`: `entity`, `id` and `tag` required.
pub open spec fn untag_args_check(args: JsonV) -> Option<Seq<char>> {
    match args {
        JsonV::Object(f) => match required_entity(f, "entity"@) {
            Err(m) => Some(m),
            Ok(_) => if required_i64(f, "id"@) is None {
                Some(missing_field("id"@))
            } else if required_string(f, "tag"@) is None {
                Some(missing_field("tag"@))
            } else {
                None
            },
        },
        _ => Some(not_object()),
    }
}

/// The argument check of `doctor`: an object.
pub open spec fn doctor_args_check(args: JsonV) -> Option<Seq<char>> {
    match args {
        JsonV::Object(_) => None,
        _ => Some(not_object()),
    }
}

/// Why a call of tool `name` with `args` is refused before any work, if it is.
pub open spec fn tool_arg_check(name: Seq<char>, args: JsonV) -> Option<Seq<char>> {
    if name == "ping"@ || list_tool_table(name) is Some {
        None
    } else if name == "find_by_tag"@ {
        find_args_check(args)
    } else if add_tool_table(name) is Some {
        add_args_check(args)
    } else if name == "tag_record"@ {
        tag_args_check(args)
    } else if name == "untag_record"@ {
        untag_args_check(args)
    } else if name == "doctor"@ {
        doctor_args_check(args)
    } else {
        Some("unknown tool: "@ + name)
    }
}

/// The result of `ping`.
pub open spec fn pong_view() -> JsonV {
    JsonV::Object(seq![("ok"@, JsonV::Bool(true)), ("message"@, JsonV::Str("pong"@))])
}

/// A tool outcome that is refused with the message of the check, when there is
/// one, and otherwise is a result or an internal failure.
pub open spec fn tool_outcome(check: Option<Seq<char>>, res: Result<Json, ToolError>) -> bool {
    match check {
        Some(m) => res matches Err(ToolError::InvalidParams(t)) && t@ == m,
        None => res is Ok || res matches Err(ToolError::Internal(_)),
    }
}

/// The tag that tool `name` checks itself before it answers: the `tag`
/// argument of `find_by_tag` and of `untag_record`.
pub open spec fn checked_tag(name: Seq<char>, args: JsonV) -> Option<Seq<char>> {
    if name == "ping"@ || list_tool_table(name) is Some {
        None
    } else if name == "find_by_tag"@ {
        required_string(arg_fields(args), "tag"@)
    } else if add_tool_table(name) is Some || name == "tag_record"@ {
        None
    } else if name == "untag_record"@ {
        required_string(arg_fields(args), "tag"@)
    } else {
        None
    }
}

/// The outcome of a tool whose arguments passed the check and that checks
/// `tag`: a tag that is not in normal form is refused with the tag's own
/// error; a tag in normal form gives a result or a database failure.
pub open spec fn tag_checked_outcome(tag: Seq<char>, res: Result<Json, ToolError>) -> bool {
    if tag_is_normal(tag_normal_form(tag)) {
        res is Ok || (res matches Err(ToolError::Internal(e)) && db_failure(e))
    } else {
        res matches Err(ToolError::Internal(e)) && normalize_tag_post(tag, Err(e))
    }
}

/// The result of a `list_*` tool, and the payload of a resource: the entity
/// and its active records.
pub open spec fn entity_records_view(table: Seq<char>, rs: Seq<Record>) -> JsonV {
    JsonV::Object(seq![("entity"@, JsonV::Str(table)), ("records"@, records_view(rs))])
}

/// The result of an `add_*` tool: the entity and the id of the new record.
pub open spec fn added_view(table: Seq<char>, id: i64) -> JsonV {
    JsonV::Object(seq![("entity"@, JsonV::Str(table)), ("id"@, JsonV::Int(id))])
}

/// Records grouped by entity, as a JSON object from entity to records.
pub open spec fn groups_view(groups: Seq<(String, Vec<Record>)>) -> JsonV {
    JsonV::Object(groups.map_values(|g: (String, Vec<Record>)| (g.0@, records_view(g.1@))))
}

/// The result of `find_by_tag`: the normalized tag and the groups.
pub open spec fn found_view(tag: Seq<char>, groups: Seq<(String, Vec<Record>)>) -> JsonV {
    JsonV::Object(seq![("tag"@, JsonV::Str(tag)), ("groups"@, groups_view(groups))])
}

/// One entry of the result of `tag_record`.
pub open spec fn tag_result_view(tag: Seq<char>, o: TagOutcome) -> JsonV {
    JsonV::Object(seq![("tag"@, JsonV::Str(tag)), ("outcome"@, JsonV::Str(outcome_text(o)))])
}

/// The result of `tag_record`: for each tag, in order, its normal form and
/// what attaching it did.
pub open spec fn tagged_view(
    entity: Seq<char>,
    id: i64,
    tags: Seq<Seq<char>>,
    outcomes: Seq<TagOutcome>,
) -> JsonV {
    JsonV::Object(
        seq![
            ("entity"@, JsonV::Str(entity)),
            ("id"@, JsonV::Int(id)),
            ("results"@, JsonV::Array(Seq::new(tags.len(), |i: int| tag_result_view(tag_normal_form(tags[i]), outcomes[i])))),
        ],
    )
}

/// The result of `untag_record`: the tag in normal form and the number of
/// tag rows changed.
pub open spec fn untagged_view(entity: Seq<char>, id: i64, tag: Seq<char>, hard: bool, affected: usize) -> JsonV {
    JsonV::Object(
        seq![
            ("entity"@, JsonV::Str(entity)),
            ("id"@, JsonV::Int(id)),
            ("tag"@, JsonV::Str(tag)),
            ("hard"@, JsonV::Bool(hard)),
            ("affected"@, count_view(affected)),
        ],
    )
}

/// The result of `doctor`: the report, whether the repair ran, and how many
/// tag rows it removed.
pub open spec fn doctor_result_view(report: DoctorReport, fix: bool, removed: usize) -> JsonV {
    JsonV::Object(
        seq![("report"@, report_view(report)), ("fix"@, JsonV::Bool(fix)), ("removed"@, count_view(removed))],
    )
}

/// The members of the arguments (none when they are not an object).
pub open spec fn arg_fields(args: JsonV) -> Seq<(Seq<char>, JsonV)> {
    match args {
        JsonV::Object(f) => f,
        _ => Seq::empty(),
    }
}

/// The entity filter of `find_by_tag`.
pub open spec fn find_filter(f: Seq<(Seq<char>, JsonV)>) -> Option<Seq<char>> {
    match optional_entity(f, "entity"@) {
        Ok(e) => e,
        Err(_) => None,
    }
}

/// Whether the optional boolean field is present and `true`.
pub open spec fn flag_set(f: Seq<(Seq<char>, JsonV)>, field: Seq<char>) -> bool {
    optional_bool(f, field) == Some(true)
}

/// The tags of `tag_record`.
pub open spec fn tag_list(f: Seq<(Seq<char>, JsonV)>) -> Seq<Seq<char>> {
    match required_string_array(f, "tags"@) {
        Ok(t) => t,
        Err(_) => Seq::empty(),
    }
}

/// `v` has the shape of a listing of `table`: the table's name and a list of
/// records. Which records the database gave is not stated.
pub open spec fn lists_records(table: Seq<char>, v: JsonV) -> bool {
    exists|rs: Seq<Record>| v == #[trigger] entity_records_view(table, rs)
}

/// `v` is a search for the tag of `f`: the tag in normal form and, in
/// entity order, one group for each searched entity whose query gave
/// records, holding exactly those records. What each query gave comes from
/// the database and is not stated.
pub open spec fn finds_tagged(f: Seq<(Seq<char>, JsonV)>, v: JsonV) -> bool {
    &&& tag_is_normal(tag_normal_form(required_string(f, "tag"@)->Some_0))
    &&& exists|groups: Seq<(String, Vec<Record>)>|
        found_groups(groups, find_filter(f)) && v == #[trigger] found_view(
            tag_normal_form(required_string(f, "tag"@)->Some_0),
            groups,
        )
}

/// `v` reports a new record of `table`: the table's name and some id.
pub open spec fn adds_record(table: Seq<char>, v: JsonV) -> bool {
    exists|id: i64| v == #[trigger] added_view(table, id)
}

/// `v` reports, for each tag of `f` in order, its normal form and one
/// outcome; which outcome the database gave is not stated.
pub open spec fn tags_record(f: Seq<(Seq<char>, JsonV)>, v: JsonV) -> bool {
    &&& forall|i: int|
        0 <= i < tag_list(f).len() ==> tag_is_normal(tag_normal_form(#[trigger] tag_list(f)[i]))
    &&& exists|outs: Seq<TagOutcome>|
        outs.len() == tag_list(f).len() && v == #[trigger] tagged_view(
            required_entity(f, "entity"@)->Ok_0,
            required_i64(f, "id"@)->Some_0,
            tag_list(f),
            outs,
        )
}

/// `v` reports the removal of the tag of `f` from its record, with some
/// count of changed rows.
pub open spec fn untags_record(f: Seq<(Seq<char>, JsonV)>, v: JsonV) -> bool {
    &&& tag_is_normal(tag_normal_form(required_string(f, "tag"@)->Some_0))
    &&& exists|n: usize|
        v == #[trigger] untagged_view(
            required_entity(f, "entity"@)->Ok_0,
            required_i64(f, "id"@)->Some_0,
            tag_normal_form(required_string(f, "tag"@)->Some_0),
            flag_set(f, "hard"@),
            n,
        )
}

/// `v` is a diagnostics report that sorts some examined tag rows into its
/// buckets, with whether the repair ran and a count of removed rows (zero
/// when it did not run). After the repair the report is that of the
/// repaired store: no dangling row and no row of an unknown entity is left.
/// Which rows the database holds is not stated.
pub open spec fn diagnoses(f: Seq<(Seq<char>, JsonV)>, v: JsonV) -> bool {
    exists|r: DoctorReport, n: usize|
        (!flag_set(f, "fix"@) ==> n == 0) && (flag_set(f, "fix"@) ==> r.dangling@.len() == 0
            && r.invalid_entity@.len() == 0) && v == #[trigger] doctor_result_view(
            r,
            flag_set(f, "fix"@),
            n,
        ) && exists|rows: Seq<(TagIssue, RecordState)>| #[trigger] report_of(r, rows)
}

/// Whether `v` has the shape of a result of tool `name` for `args`: every
/// part that comes from the arguments is fixed; what comes from the database
/// is not stated.
pub open spec fn tool_result(name: Seq<char>, args: JsonV, v: JsonV) -> bool {
    let f = arg_fields(args);
    if name == "ping"@ {
        v == pong_view()
    } else if list_tool_table(name) is Some {
        lists_records(list_tool_table(name)->Some_0, v)
    } else if name == "find_by_tag"@ {
        finds_tagged(f, v)
    } else if add_tool_table(name) is Some {
        adds_record(add_tool_table(name)->Some_0, v)
    } else if name == "tag_record"@ {
        tags_record(f, v)
    } else if name == "untag_record"@ {
        untags_record(f, v)
    } else if name == "doctor"@ {
        diagnoses(f, v)
    } else {
        false
    }
}

fn internal<T>(r: Result<T, MemError>) -> (res: Result<T, ToolError>)
    ensures
        r is Ok <==> res is Ok,
        r is Ok ==> res == Ok::<T, ToolError>(r->Ok_0),
        r is Err ==> res == Err::<T, ToolError>(ToolError::Internal(r->Err_0)),
        res is Err ==> res->Err_0 is Internal,
{
    match r {
        Ok(v) => Ok(v),
        Err(e) => Err(ToolError::Internal(e)),
    }
}

/// `{"entity": .., "records": [..]}` for the active records of `table`.
fn list_entity(conn: &rusqlite::Connection, table: &str) -> (res: Result<Json, ToolError>)
    ensures
        res is Ok || res matches Err(ToolError::Internal(_)),
        res matches Ok(v) ==> lists_records(table@, v@),
{
    let records = internal(list_active(conn, table))?;
    let v = object2("entity", json_str(table), "records", records_to_json(&records));
    assert(v@ == entity_records_view(table@, records@));
    Ok(v)
}

/// The tag outcome as the tool reports it.
pub open spec fn outcome_text(o: TagOutcome) -> Seq<char> {
    match o {
        TagOutcome::Added => "added"@,
        TagOutcome::AlreadyPresent => "already_present"@,
        TagOutcome::NoRecord => "no_record"@,
    }
}

fn outcome_json(o: TagOutcome) -> (j: Json)
    ensures
        j@ == JsonV::Str(outcome_text(o)),
{
    match o {
        TagOutcome::Added => json_str("added"),
        TagOutcome::AlreadyPresent => json_str("already_present"),
        TagOutcome::NoRecord => json_str("no_record"),
    }
}

/// Records grouped by entity, as a JSON object from entity to records.
pub fn groups_to_json(groups: &Vec<(String, Vec<Record>)>) -> (j: Json)
    ensures
        j@ == groups_view(groups@),
{
    let mut grouped: Vec<(String, Json)> = Vec::new();
    let mut i: usize = 0;
    while i < groups.len()
        invariant
            i <= groups.len(),
            grouped@.len() == i,
            forall|k: int|
                0 <= k < i ==> (#[trigger] grouped@[k]).0@ == groups@[k].0@ && grouped@[k].1@
                    == records_view(groups@[k].1@),
        decreases groups.len() - i,
    {
        let (name, records) = &groups[i];
        grouped.push((name.clone(), records_to_json(records)));
        i = i + 1;
    }
    proof {
        lemma_fields_view(grouped@);
        assert(fields_view(grouped@) =~= groups@.map_values(
            |g: (String, Vec<Record>)| (g.0@, records_view(g.1@)),
        ));
    }
    object(grouped)
}

/// `find_by_tag`: active records carrying a tag, grouped by entity.
fn find_by_tag_tool(conn: &rusqlite::Connection, args: &Json) -> (res: Result<Json, ToolError>)
    ensures
        tool_outcome(find_args_check(args@), res),
        find_args_check(args@) is None ==> tag_checked_outcome(
            required_string(arg_fields(args@), "tag"@)->Some_0,
            res,
        ),
        res matches Ok(v) ==> finds_tagged(arg_fields(args@), v@),
{
    let fields = arg_object(args)?;
    let tag = get_required_string(fields, "tag")?;
    let entity = get_optional_entity(fields, "entity")?;
    let groups = internal(find_by_tag(conn, tag, entity))?;
    let normalized = internal(normalize_tag_text(tag))?;
    let v = object2("tag", Json::Str(normalized), "groups", groups_to_json(&groups));
    assert(v@ == found_view(tag_normal_form(tag@), groups@));
    Ok(v)
}

fn normalize_tag_text(tag: &str) -> (res: Result<String, MemError>)
    ensures
        normalize_tag_post(tag@, res),
{
    crate::tags::normalize_tag(tag)
}

/// `add_*`: add a record to `table`.
fn add_to_entity(conn: &rusqlite::Connection, table: &str, args: &Json) -> (res: Result<
    Json,
    ToolError,
>)
    ensures
        tool_outcome(add_args_check(args@), res),
        res matches Ok(v) ==> adds_record(table@, v@),
{
    let args = arg_object(args)?;
    let content = get_required_string(args, "content")?;
    let id = internal(insert(conn, table, content))?;
    let v = object2("entity", json_str(table), "id", Json::Int(id));
    assert(v@ == added_view(table@, id));
    Ok(v)
}

/// `tag_record`: attach each tag to the record.
fn tag_record(conn: &rusqlite::Connection, args: &Json) -> (res: Result<Json, ToolError>)
    ensures
        tool_outcome(tag_args_check(args@), res),
        res matches Ok(v) ==> tags_record(arg_fields(args@), v@),
{
    let fields = arg_object(args)?;
    let entity = get_required_entity(fields, "entity")?;
    let id = get_required_i64(fields, "id")?;
    let tags = get_required_string_array(fields, "tags")?;
    let ghost f = fields_view(fields@);
    let ghost tag_seq = tag_list(f);
    assert(tags@.map_values(|s: String| s@) == tag_seq);
    let mut outcomes: Vec<Json> = Vec::new();
    let ghost mut outs: Seq<TagOutcome> = Seq::empty();
    let mut i: usize = 0;
    while i < tags.len()
        invariant
            i <= tags.len(),
            tag_args_check(args@) is None,
            is_entity(entity@),
            tag_seq.len() == tags@.len(),
            forall|k: int| 0 <= k < tags@.len() ==> #[trigger] tag_seq[k] == tags@[k]@,
            outcomes@.len() == i,
            outs.len() == i,
            forall|k: int|
                0 <= k < i ==> (#[trigger] outcomes@[k])@ == tag_result_view(
                    tag_normal_form(tag_seq[k]),
                    outs[k],
                ),
            forall|k: int| 0 <= k < i ==> tag_is_normal(tag_normal_form(#[trigger] tag_seq[k])),
        decreases tags.len() - i,
    {
        let tag = tags[i].as_str();
        let outcome = internal(add_tag(conn, entity, id, tag))?;
        let normalized = internal(normalize_tag_text(tag))?;
        outcomes.push(object2("tag", Json::Str(normalized), "outcome", outcome_json(outcome)));
        proof {
            outs = outs.push(outcome);
        }
        i = i + 1;
    }
    proof {
        lemma_items_view(outcomes@);
        assert(items_view(outcomes@) =~= Seq::new(
            tag_seq.len(),
            |k: int| tag_result_view(tag_normal_form(tag_seq[k]), outs[k]),
        ));
    }
    let v = object3("entity", json_str(entity), "id", Json::Int(id), "results", array(outcomes));
    assert(v@ == tagged_view(entity@, id, tag_seq, outs));
    Ok(v)
}

/// `untag_record`: remove one tag from the record (soft unless `hard`).
fn untag_record(conn: &rusqlite::Connection, args: &Json) -> (res: Result<Json, ToolError>)
    ensures
        tool_outcome(untag_args_check(args@), res),
        untag_args_check(args@) is None ==> tag_checked_outcome(
            required_string(arg_fields(args@), "tag"@)->Some_0,
            res,
        ),
        res matches Ok(v) ==> untags_record(arg_fields(args@), v@),
{
    let fields = arg_object(args)?;
    let entity = get_required_entity(fields, "entity")?;
    let id = get_required_i64(fields, "id")?;
    let tag = get_required_string(fields, "tag")?;
    let hard = match get_optional_bool(fields, "hard") {
        Some(b) => b,
        None => false,
    };
    let affected = internal(remove_tag(conn, entity, id, tag, hard))?;
    let normalized = internal(normalize_tag_text(tag))?;
    let v = object5(
        "entity",
        json_str(entity),
        "id",
        Json::Int(id),
        "tag",
        Json::Str(normalized),
        "hard",
        Json::Bool(hard),
        "affected",
        count_to_json(affected),
    );
    assert(v@ == untagged_view(entity@, id, tag_normal_form(tag@), hard, affected));
    Ok(v)
}

/// The diagnostics report, whether the repair ran, and how many tag rows it removed.
pub fn doctor_result_json(report: &DoctorReport, fix: bool, removed: usize) -> (j: Json)
    ensures
        j@ == doctor_result_view(*report, fix, removed),
{
    object3(
        "report",
        doctor_report_to_json(report),
        "fix",
        Json::Bool(fix),
        "removed",
        count_to_json(removed),
    )
}

/// `doctor`: the diagnostics report, after the safe repair when `fix` is set.
fn doctor_tool(conn: &rusqlite::Connection, args: &Json) -> (res: Result<Json, ToolError>)
    ensures
        tool_outcome(doctor_args_check(args@), res),
        res matches Ok(v) ==> diagnoses(arg_fields(args@), v@),
{
    let fields = arg_object(args)?;
    let fix = match get_optional_bool(fields, "fix") {
        Some(b) => b,
        None => false,
    };
    let report = internal(doctor(conn))?;
    let removed = if fix {
        internal(doctor_fix(conn, &report))?
    } else {
        0
    };
    let ghost before = report;
    let after = if fix {
        report_after_fix(report)
    } else {
        report
    };
    let v = doctor_result_json(&after, fix, removed);
    proof {
        let rows = choose|rows: Seq<(TagIssue, RecordState)>| report_of(before, rows);
        assert(report_of(before, rows));
        if fix {
            let kept = rows_without_ids(rows, fix_targets_spec(before));
            assert(report_of(after, kept));
        } else {
            assert(report_of(after, rows));
        }
    }
    Ok(v)
}

/// Run tool `name` with `args` on the database.
pub fn execute_tool(conn: &rusqlite::Connection, name: &str, args: &Json) -> (res: Result<
    Json,
    ToolError,
>)
    ensures
        tool_outcome(tool_arg_check(name@, args@), res),
        tool_arg_check(name@, args@) is None && checked_tag(name@, args@) is Some
            ==> tag_checked_outcome(checked_tag(name@, args@)->Some_0, res),
        res matches Ok(v) ==> tool_result(name@, args@, v@),
        name@ == "ping"@ ==> res is Ok,
{
    if same_text(name, "ping") {
        Ok(object2("ok", Json::Bool(true), "message", json_str("pong")))
    } else if same_text(name, "list_facts") {
        list_entity(conn, crate::db::entity_table(0))
    } else if same_text(name, "list_decisions") {
        list_entity(conn, crate::db::entity_table(1))
    } else if same_text(name, "list_modules") {
        list_entity(conn, crate::db::entity_table(3))
    } else if same_text(name, "list_commands") {
        list_entity(conn, crate::db::entity_table(2))
    } else if same_text(name, "find_by_tag") {
        find_by_tag_tool(conn, args)
    } else if same_text(name, "add_fact") {
        add_to_entity(conn, crate::db::entity_table(0), args)
    } else if same_text(name, "add_decision") {
        add_to_entity(conn, crate::db::entity_table(1), args)
    } else if same_text(name, "add_module") {
        add_to_entity(conn, crate::db::entity_table(3), args)
    } else if same_text(name, "add_command") {
        add_to_entity(conn, crate::db::entity_table(2), args)
    } else if same_text(name, "tag_record") {
        tag_record(conn, args)
    } else if same_text(name, "untag_record") {
        untag_record(conn, args)
    } else if same_text(name, "doctor") {
        doctor_tool(conn, args)
    } else {
        Err(invalid_params("unknown tool: ", name))
    }
}

// ---------------------------------------------------------------------------
// Tool and server descriptions

/// Number of tools.
pub const TOOL_COUNT: usize = 13;

/// The name of the `i`-th tool, in the order in which they are listed.
pub open spec fn tool_name(i: int) -> Seq<char> {
    if i == 0 {
        "ping"@
    } else if i == 1 {
        "list_facts"@
    } else if i == 2 {
        "list_decisions"@
    } else if i == 3 {
        "list_modules"@
    } else if i == 4 {
        "list_commands"@
    } else if i == 5 {
        "find_by_tag"@
    } else if i == 6 {
        "add_fact"@
    } else if i == 7 {
        "add_decision"@
    } else if i == 8 {
        "add_module"@
    } else if i == 9 {
        "add_command"@
    } else if i == 10 {
        "tag_record"@
    } else if i == 11 {
        "untag_record"@
    } else {
        "doctor"@
    }
}

fn empty_object() -> (j: Json)
    ensures
        j@ == JsonV::Object(Seq::empty()),
{
    let m: Vec<(String, Json)> = Vec::new();
    assert(fields_view(m@) =~= Seq::empty());
    object(m)
}

/// `{"type": t}`.
pub open spec fn type_view(t: Seq<char>) -> JsonV {
    JsonV::Object(seq![("type"@, JsonV::Str(t))])
}

fn type_of(t: &str) -> (j: Json)
    ensures
        j@ == type_view(t@),
{
    object1("type", json_str(t))
}

/// An array of strings.
pub open spec fn str_array_view(items: Seq<Seq<char>>) -> JsonV {
    JsonV::Array(items.map_values(|s: Seq<char>| JsonV::Str(s)))
}

fn str_array(items: &[&str]) -> (j: Json)
    ensures
        j@ == str_array_view(items@.map_values(|s: &str| s@)),
{
    let mut out: Vec<Json> = Vec::new();
    let mut i: usize = 0;
    while i < items.len()
        invariant
            i <= items@.len(),
            out@.len() == i,
            forall|k: int| 0 <= k < i ==> (#[trigger] out@[k])@ == JsonV::Str(items@[k]@),
        decreases items@.len() - i,
    {
        out.push(json_str(items[i]));
        i = i + 1;
    }
    proof {
        lemma_items_view(out@);
        assert(items_view(out@) =~= items@.map_values(|s: &str| s@).map_values(
            |s: Seq<char>| JsonV::Str(s),
        ));
    }
    array(out)
}

/// The schema of an entity name: one of the four entity tables.
pub open spec fn entity_enum_view() -> JsonV {
    JsonV::Object(
        seq![
            ("type"@, JsonV::Str("string"@)),
            ("enum"@, str_array_view(seq![entity_name(0), entity_name(1), entity_name(2), entity_name(3)])),
        ],
    )
}

fn entity_enum() -> (j: Json)
    ensures
        j@ == entity_enum_view(),
{
    let names = [
        crate::db::entity_table(0),
        crate::db::entity_table(1),
        crate::db::entity_table(2),
        crate::db::entity_table(3),
    ];
    let e = str_array(&names);
    assert(names@.map_values(|s: &str| s@) =~= seq![
        entity_name(0),
        entity_name(1),
        entity_name(2),
        entity_name(3),
    ]);
    object2("type", json_str("string"), "enum", e)
}

/// The schema of a tool without arguments.
pub open spec fn empty_schema_view() -> JsonV {
    JsonV::Object(
        seq![
            ("type"@, JsonV::Str("object"@)),
            ("properties"@, JsonV::Object(Seq::empty())),
            ("additionalProperties"@, JsonV::Bool(false)),
        ],
    )
}

fn empty_schema() -> (j: Json)
    ensures
        j@ == empty_schema_view(),
{
    object3(
        "type",
        json_str("object"),
        "properties",
        empty_object(),
        "additionalProperties",
        Json::Bool(false),
    )
}

/// An object schema with the properties `props`, of which `required` must be given.
pub open spec fn object_schema_view(props: JsonV, required: Seq<Seq<char>>) -> JsonV {
    JsonV::Object(
        seq![
            ("type"@, JsonV::Str("object"@)),
            ("properties"@, props),
            ("required"@, str_array_view(required)),
            ("additionalProperties"@, JsonV::Bool(false)),
        ],
    )
}

fn object_schema(props: Json, required: &[&str]) -> (j: Json)
    ensures
        j@ == object_schema_view(props@, required@.map_values(|s: &str| s@)),
{
    object4(
        "type",
        json_str("object"),
        "properties",
        props,
        "required",
        str_array(required),
        "additionalProperties",
        Json::Bool(false),
    )
}

/// The schema of the tools that add a record: a required `content` string.
pub open spec fn content_schema_view() -> JsonV {
    object_schema_view(JsonV::Object(seq![("content"@, type_view("string"@))]), seq!["content"@])
}

fn content_schema() -> (j: Json)
    ensures
        j@ == content_schema_view(),
{
    let required = ["content"];
    let j = object_schema(object1("content", type_of("string")), &required);
    assert(required@.map_values(|s: &str| s@) =~= seq!["content"@]);
    j
}

/// What the `i`-th tool does.
pub open spec fn tool_description(i: int) -> Seq<char> {
    if i == 0 {
        "Health check for the MCP transport."@
    } else if i == 1 {
        "List active facts."@
    } else if i == 2 {
        "List active decisions."@
    } else if i == 3 {
        "List active modules."@
    } else if i == 4 {
        "List active commands."@
    } else if i == 5 {
        "Find active records by tag across entities."@
    } else if i == 6 {
        "Add a fact record."@
    } else if i == 7 {
        "Add a decision record."@
    } else if i == 8 {
        "Add a module record."@
    } else if i == 9 {
        "Add a command record."@
    } else if i == 10 {
        "Attach one or more tags to a record."@
    } else if i == 11 {
        "Remove a tag from a record."@
    } else {
        "Diagnose DB and tag integrity; optionally apply safe fix."@
    }
}

/// The input schema of the `i`-th tool.
pub open spec fn tool_schema(i: int) -> JsonV {
    if i <= 4 {
        empty_schema_view()
    } else if i == 5 {
        object_schema_view(
            JsonV::Object(seq![("tag"@, type_view("string"@)), ("entity"@, entity_enum_view())]),
            seq!["tag"@],
        )
    } else if i <= 9 {
        content_schema_view()
    } else if i == 10 {
        object_schema_view(
            JsonV::Object(
                seq![
                    ("entity"@, entity_enum_view()),
                    ("id"@, type_view("integer"@)),
                    ("tags"@, JsonV::Object(seq![("type"@, JsonV::Str("array"@)), ("items"@, type_view("string"@))])),
                ],
            ),
            seq!["entity"@, "id"@, "tags"@],
        )
    } else if i == 11 {
        object_schema_view(
            JsonV::Object(
                seq![
                    ("entity"@, entity_enum_view()),
                    ("id"@, type_view("integer"@)),
                    ("tag"@, type_view("string"@)),
                    ("hard"@, type_view("boolean"@)),
                ],
            ),
            seq!["entity"@, "id"@, "tag"@],
        )
    } else {
        JsonV::Object(
            seq![
                ("type"@, JsonV::Str("object"@)),
                ("properties"@, JsonV::Object(seq![("fix"@, type_view("boolean"@))])),
                ("additionalProperties"@, JsonV::Bool(false)),
            ],
        )
    }
}

/// The description of the `i`-th tool: its name, what it does and its input schema.
pub open spec fn tool_view(i: int) -> JsonV {
    JsonV::Object(
        seq![
            ("name"@, JsonV::Str(tool_name(i))),
            ("description"@, JsonV::Str(tool_description(i))),
            ("inputSchema"@, tool_schema(i)),
        ],
    )
}

fn tool(name: &str, description: &str, schema: Json) -> (j: Json)
    ensures
        j@ == JsonV::Object(
            seq![("name"@, JsonV::Str(name@)), ("description"@, JsonV::Str(description@)), ("inputSchema"@, schema@)],
        ),
{
    object3("name", json_str(name), "description", json_str(description), "inputSchema", schema)
}

/// The `i`-th tool description: its name, what it does and its input schema.
pub fn tool_at(i: usize) -> (j: Json)
    requires
        i < TOOL_COUNT,
    ensures
        j@ == tool_view(i as int),
{
    if i == 0 {
        tool("ping", "Health check for the MCP transport.", empty_schema())
    } else if i == 1 {
        tool("list_facts", "List active facts.", empty_schema())
    } else if i == 2 {
        tool("list_decisions", "List active decisions.", empty_schema())
    } else if i == 3 {
        tool("list_modules", "List active modules.", empty_schema())
    } else if i == 4 {
        tool("list_commands", "List active commands.", empty_schema())
    } else if i == 5 {
        let required = ["tag"];
        let schema = object_schema(
            object2("tag", type_of("string"), "entity", entity_enum()),
            &required,
        );
        assert(required@.map_values(|s: &str| s@) =~= seq!["tag"@]);
        tool("find_by_tag", "Find active records by tag across entities.", schema)
    } else if i == 6 {
        tool("add_fact", "Add a fact record.", content_schema())
    } else if i == 7 {
        tool("add_decision", "Add a decision record.", content_schema())
    } else if i == 8 {
        tool("add_module", "Add a module record.", content_schema())
    } else if i == 9 {
        tool("add_command", "Add a command record.", content_schema())
    } else if i == 10 {
        let required = ["entity", "id", "tags"];
        let schema = object_schema(
            object3(
                "entity",
                entity_enum(),
                "id",
                type_of("integer"),
                "tags",
                object2("type", json_str("array"), "items", type_of("string")),
            ),
            &required,
        );
        assert(required@.map_values(|s: &str| s@) =~= seq!["entity"@, "id"@, "tags"@]);
        tool("tag_record", "Attach one or more tags to a record.", schema)
    } else if i == 11 {
        let required = ["entity", "id", "tag"];
        let schema = object_schema(
            object4(
                "entity",
                entity_enum(),
                "id",
                type_of("integer"),
                "tag",
                type_of("string"),
                "hard",
                type_of("boolean"),
            ),
            &required,
        );
        assert(required@.map_values(|s: &str| s@) =~= seq!["entity"@, "id"@, "tag"@]);
        tool("untag_record", "Remove a tag from a record.", schema)
    } else {
        let schema = object3(
            "type",
            json_str("object"),
            "properties",
            object1("fix", type_of("boolean")),
            "additionalProperties",
            Json::Bool(false),
        );
        tool("doctor", "Diagnose DB and tag integrity; optionally apply safe fix.", schema)
    }
}

/// The tool list: the description of each tool, in order.
pub open spec fn tools_listed(items: Seq<JsonV>) -> bool {
    &&& items.len() == TOOL_COUNT
    &&& forall|i: int| 0 <= i < TOOL_COUNT ==> #[trigger] items[i] == tool_view(i)
}

/// The descriptions of all tools, in order.
pub fn tool_specs() -> (tools: Vec<Json>)
    ensures
        tools_listed(items_view(tools@)),
{
    let mut tools: Vec<Json> = Vec::new();
    let mut i: usize = 0;
    while i < TOOL_COUNT
        invariant
            i <= TOOL_COUNT,
            tools@.len() == i,
            forall|k: int| 0 <= k < i ==> (#[trigger] tools@[k])@ == tool_view(k),
        decreases TOOL_COUNT - i,
    {
        tools.push(tool_at(i));
        i = i + 1;
    }
    proof {
        lemma_items_view(tools@);
    }
    tools
}

/// The names `execute_tool` runs a tool for.
pub open spec fn tool_dispatched(name: Seq<char>) -> bool {
    ||| name == "ping"@
    ||| list_tool_table(name) is Some
    ||| name == "find_by_tag"@
    ||| add_tool_table(name) is Some
    ||| name == "tag_record"@
    ||| name == "untag_record"@
    ||| name == "doctor"@
}

/// Every listed tool is one that `execute_tool` runs, and every other name
/// is refused as an unknown tool before any work.
pub proof fn law_listed_tools_are_known(i: int, name: Seq<char>, args: JsonV)
    requires
        0 <= i < TOOL_COUNT,
    ensures
        tool_dispatched(tool_name(i)),
        !tool_dispatched(name) ==> tool_arg_check(name, args) == Some("unknown tool: "@ + name),
{
}

/// The result of `initialize`.
pub open spec fn initialize_view(version: Seq<char>) -> JsonV {
    JsonV::Object(
        seq![
            ("protocolVersion"@, JsonV::Str("2024-11-05"@)),
            ("capabilities"@, JsonV::Object(seq![("tools"@, JsonV::Object(Seq::empty())), ("resources"@, JsonV::Object(Seq::empty()))])),
            ("serverInfo"@, JsonV::Object(seq![("name"@, JsonV::Str("mem-cli"@)), ("version"@, JsonV::Str(version))])),
        ],
    )
}

/// The result of `initialize` for a server of version `version`.
pub fn initialize_result(version: &str) -> (j: Json)
    ensures
        j@ == initialize_view(version@),
{
    object3(
        "protocolVersion",
        json_str(MCP_PROTOCOL_VERSION),
        "capabilities",
        object2("tools", empty_object(), "resources", empty_object()),
        "serverInfo",
        object2("name", json_str("mem-cli"), "version", json_str(version)),
    )
}

// ---------------------------------------------------------------------------
// Requests

/// The method of a request, when it is a string.
pub open spec fn request_method(req: JsonV) -> Option<Seq<char>> {
    match json_get(req, "method"@) {
        Some(JsonV::Str(m)) => Some(m),
        _ => None,
    }
}

/// The id of a request, when it has one (a notification has none).
pub open spec fn request_id(req: JsonV) -> Option<JsonV> {
    json_get(req, "id"@)
}

/// The parameters of a request: an empty object when absent.
pub open spec fn request_params(req: JsonV) -> JsonV {
    match json_get(req, "params"@) {
        Some(p) => p,
        None => JsonV::Object(Seq::empty()),
    }
}

/// The tool a `tools/call` names, when the name is a non-empty string.
pub open spec fn call_name(params: JsonV) -> Option<Seq<char>> {
    match json_get(params, "name"@) {
        Some(JsonV::Str(n)) => if n.len() > 0 {
            Some(n)
        } else {
            None
        },
        _ => None,
    }
}

/// The arguments of a `tools/call`: `null` when absent.
pub open spec fn call_args(params: JsonV) -> JsonV {
    match json_get(params, "arguments"@) {
        Some(a) => a,
        None => JsonV::Null,
    }
}

/// The URI a `resources/read` names, or the message of the error response.
pub open spec fn read_uri(params: JsonV) -> Result<Seq<char>, Seq<char>> {
    match params {
        JsonV::Object(f) => match fields_get(f, "uri"@) {
            Some(JsonV::Str(u)) => if u.len() > 0 {
                Ok(u)
            } else {
                Err("resources/read requires non-empty field: uri"@)
            },
            _ => Err("resources/read requires non-empty field: uri"@),
        },
        _ => Err("resources/read params must be an object"@),
    }
}

/// The listing of the resources.
pub open spec fn resources_view() -> JsonV {
    JsonV::Array(Seq::new(RESOURCE_COUNT as nat, |i: int| resource_spec_view(i)))
}

/// A response to `id` whose result is `{"tools": [..]}` with the tools listed.
pub open spec fn tools_response(r: JsonV, id: Option<JsonV>) -> bool {
    match r {
        JsonV::Object(f) => {
            &&& f.len() == 3
            &&& f[0] == ("jsonrpc"@, JsonV::Str("2.0"@))
            &&& f[1] == ("id"@, id_view(id))
            &&& f[2].0 == "result"@
            &&& match f[2].1 {
                JsonV::Object(g) => {
                    &&& g.len() == 1
                    &&& g[0].0 == "tools"@
                    &&& match g[0].1 {
                        JsonV::Array(items) => tools_listed(items),
                        _ => false,
                    }
                },
                _ => false,
            }
        },
        _ => false,
    }
}

/// What the server does with a request.
#[derive(Debug)]
pub enum Action {
    /// Nothing: the request is a notification.
    Ignore,
    /// Send this response.
    Respond(Json),
    /// Open the database, run the tool and send `tool_call_response`.
    CallTool { id: Option<Json>, name: String, args: Json },
    /// Open the database, read the entity and send `resource_contents`.
    ReadResource { id: Option<Json>, uri: String, entity: String },
}

/// The request has no method.
#[derive(Debug)]
pub enum RequestError {
    MissingMethod,
}

/// The action for a request with method `m`, id `id` and parameters `params`.
pub open spec fn action_for(
    a: Action,
    m: Seq<char>,
    id: Option<JsonV>,
    params: JsonV,
    version: Seq<char>,
) -> bool {
    if id is None {
        a is Ignore
    } else if m == "initialize"@ {
        a matches Action::Respond(r) && r@ == success_view(id, initialize_view(version))
    } else if m == "tools/list"@ {
        a matches Action::Respond(r) && tools_response(r@, id)
    } else if m == "tools/call"@ {
        match call_name(params) {
            None => a matches Action::Respond(r) && r@ == error_view(
                id,
                INVALID_PARAMS,
                "tools/call requires non-empty field: name"@,
            ),
            Some(n) => a matches Action::CallTool { id: i, name, args } && opt_view(i) == id && name@
                == n && args@ == call_args(params),
        }
    } else if m == "resources/list"@ {
        a matches Action::Respond(r) && r@ == success_view(
            id,
            JsonV::Object(seq![("resources"@, resources_view())]),
        )
    } else if m == "resources/read"@ {
        match read_uri(params) {
            Err(msg) => a matches Action::Respond(r) && r@ == error_view(id, INVALID_PARAMS, msg),
            Ok(u) => match uri_entity(u) {
                None => a matches Action::Respond(r) && r@ == error_view(
                    id,
                    INVALID_PARAMS,
                    "unknown resource uri: "@ + u,
                ),
                Some(e) => a matches Action::ReadResource { id: i, uri, entity } && opt_view(i) == id
                    && uri@ == u && entity@ == e,
            },
        }
    } else {
        a matches Action::Respond(r) && r@ == error_view(id, METHOD_NOT_FOUND, "method not found: "@ + m)
    }
}

fn copy_opt(j: Option<&Json>) -> (c: Option<Json>)
    ensures
        match j {
            Some(v) => c matches Some(w) && w@ == v@,
            None => c is None,
        },
{
    match j {
        Some(v) => Some(copy_json(v)),
        None => None,
    }
}

/// Decide what to do with a JSON-RPC request; `version` is the server's version.
/// A request without a method is an error; a notification (no id) is ignored.
pub fn handle_request(request: &Json, version: &str) -> (res: Result<Action, RequestError>)
    ensures
        match request_method(request@) {
            None => res is Err,
            Some(m) => res matches Ok(a) && action_for(
                a,
                m,
                request_id(request@),
                request_params(request@),
                version@,
            ),
        },
{
    let method = match request.get("method") {
        Some(v) => match v.as_str() {
            Some(m) => m,
            None => {
                return Err(RequestError::MissingMethod);
            },
        },
        None => {
            return Err(RequestError::MissingMethod);
        },
    };
    let id = copy_opt(request.get("id"));
    let params = match request.get("params") {
        Some(p) => copy_json(p),
        None => empty_object(),
    };
    if id.is_none() {
        return Ok(Action::Ignore);
    }
    if same_text(method, "initialize") {
        Ok(Action::Respond(success_response(id, initialize_result(version))))
    } else if same_text(method, "tools/list") {
        let tools = tool_specs();
        let ghost items = items_view(tools@);
        let result = object1("tools", array(tools));
        let r = success_response(id, result);
        assert(tools_response(r@, request_id(request@)));
        Ok(Action::Respond(r))
    } else if same_text(method, "tools/call") {
        let name = match params.get("name") {
            Some(n) => n.as_str(),
            None => None,
        };
        match name {
            Some(n) => {
                if n.unicode_len() > 0 {
                    let args = match params.get("arguments") {
                        Some(a) => copy_json(a),
                        None => Json::Null,
                    };
                    return Ok(Action::CallTool { id, name: String::from_str(n), args });
                }
            },
            None => {},
        }
        Ok(
            Action::Respond(
                error_response(id, INVALID_PARAMS, "tools/call requires non-empty field: name"),
            ),
        )
    } else if same_text(method, "resources/list") {
        let specs = resource_specs();
        assert(items_view(specs@) =~= Seq::new(
            RESOURCE_COUNT as nat,
            |i: int| resource_spec_view(i),
        ));
        Ok(Action::Respond(success_response(id, object1("resources", array(specs)))))
    } else if same_text(method, "resources/read") {
        let fields = match params.as_object() {
            Some(f) => f,
            None => {
                return Ok(
                    Action::Respond(
                        error_response(id, INVALID_PARAMS, "resources/read params must be an object"),
                    ),
                );
            },
        };
        let uri = match crate::json::fields_lookup(fields, "uri") {
            Some(u) => u.as_str(),
            None => None,
        };
        let uri = match uri {
            Some(u) => {
                if u.unicode_len() > 0 {
                    u
                } else {
                    return Ok(
                        Action::Respond(
                            error_response(
                                id,
                                INVALID_PARAMS,
                                "resources/read requires non-empty field: uri",
                            ),
                        ),
                    );
                }
            },
            None => {
                return Ok(
                    Action::Respond(
                        error_response(
                            id,
                            INVALID_PARAMS,
                            "resources/read requires non-empty field: uri",
                        ),
                    ),
                );
            },
        };
        match entity_from_uri(uri) {
            Some(entity) => Ok(
                Action::ReadResource {
                    id,
                    uri: String::from_str(uri),
                    entity: String::from_str(entity),
                },
            ),
            None => {
                let msg = concat2("unknown resource uri: ", uri);
                Ok(Action::Respond(error_response(id, INVALID_PARAMS, msg.as_str())))
            },
        }
    } else {
        let msg = concat2("method not found: ", method);
        Ok(Action::Respond(error_response(id, METHOD_NOT_FOUND, msg.as_str())))
    }
}

/// The view of a tool's structured result inside a `tools/call` response.
pub open spec fn tool_success_view(structured: JsonV) -> JsonV {
    JsonV::Object(
        seq![
            ("content"@, JsonV::Array(seq![JsonV::Object(seq![("type"@, JsonV::Str("text"@)), ("text"@, JsonV::Str("ok"@))])])),
            ("structuredContent"@, structured),
            ("isError"@, JsonV::Bool(false)),
        ],
    )
}

/// The response to a `tools/call` of `name` with `args`: the tool's result,
/// an invalid-params error with the check's message, or an internal error.
pub fn tool_call_response(conn: &rusqlite::Connection, id: Option<Json>, name: &str, args: &Json) -> (r:
    Json)
    ensures
        match tool_arg_check(name@, args@) {
            Some(m) => r@ == error_view(opt_view(id), INVALID_PARAMS, m),
            None => (exists|s: JsonV|
                tool_result(name@, args@, s) && r@ == success_view(
                    opt_view(id),
                    #[trigger] tool_success_view(s),
                )) || (exists|m: Seq<char>| r@ == #[trigger] error_view(opt_view(id), INTERNAL_ERROR, m)),
        },
        name@ == "ping"@ ==> r@ == success_view(opt_view(id), tool_success_view(pong_view())),
        ({
            let t = checked_tag(name@, args@)->Some_0;
            tool_arg_check(name@, args@) is None && checked_tag(name@, args@) is Some
                && !tag_is_normal(tag_normal_form(t)) ==> exists|e: MemError, m: Seq<char>|
                #[trigger] normalize_tag_post(t, Err(e)) && #[trigger] message_spec(e, m) && r@
                    == error_view(opt_view(id), INTERNAL_ERROR, m)
        }),
{
    let ghost idv = opt_view(id);
    match execute_tool(conn, name, args) {
        Ok(structured) => {
            let ghost sv = structured@;
            let mut items: Vec<Json> = Vec::new();
            items.push(object2("type", json_str("text"), "text", json_str("ok")));
            proof {
                lemma_items_view(items@);
                assert(items_view(items@) =~= seq![
                    JsonV::Object(seq![("type"@, JsonV::Str("text"@)), ("text"@, JsonV::Str("ok"@))]),
                ]);
            }
            let result = object3(
                "content",
                array(items),
                "structuredContent",
                structured,
                "isError",
                Json::Bool(false),
            );
            let r = success_response(id, result);
            assert(r@ == success_view(idv, tool_success_view(sv)));
            r
        },
        Err(ToolError::InvalidParams(m)) => error_response(id, INVALID_PARAMS, m.as_str()),
        Err(ToolError::Internal(e)) => {
            let m = e.message();
            let r = error_response(id, INTERNAL_ERROR, m.as_str());
            assert(r@ == error_view(idv, INTERNAL_ERROR, m@));
            r
        },
    }
}

/// The response when the database cannot be opened for a request.
pub fn db_open_failure(id: Option<Json>, message: &str) -> (r: Json)
    ensures
        r@ == error_view(opt_view(id), INTERNAL_ERROR, "failed to open DB: "@ + message@),
{
    let m = concat2("failed to open DB: ", message);
    error_response(id, INTERNAL_ERROR, m.as_str())
}

/// The payload of a resource: the entity and its active records.
pub fn resource_payload(conn: &rusqlite::Connection, entity: &str) -> (res: Result<Json, MemError>)
    ensures
        crate::db::checked_table_outcome(entity@, res),
        res matches Ok(v) ==> lists_records(entity@, v@),
{
    let records = list_active(conn, entity)?;
    let v = object2("entity", json_str(entity), "records", records_to_json(&records));
    assert(v@ == entity_records_view(entity@, records@));
    Ok(v)
}

/// The view of a resource's contents inside a `resources/read` response.
pub open spec fn contents_view(uri: Seq<char>, text: Seq<char>) -> JsonV {
    JsonV::Object(
        seq![
            ("contents"@, JsonV::Array(seq![JsonV::Object(seq![("uri"@, JsonV::Str(uri)), ("mimeType"@, JsonV::Str("application/json"@)), ("text"@, JsonV::Str(text))])])),
        ],
    )
}

/// The response to a `resources/read` of `uri` whose payload serializes to `text`.
pub fn resource_contents(id: Option<Json>, uri: &str, text: &str) -> (r: Json)
    ensures
        r@ == success_view(opt_view(id), contents_view(uri@, text@)),
{
    let entry = object3(
        "uri",
        json_str(uri),
        "mimeType",
        json_str("application/json"),
        "text",
        json_str(text),
    );
    let ghost e = entry@;
    let mut items: Vec<Json> = Vec::new();
    items.push(entry);
    proof {
        lemma_items_view(items@);
        assert(items_view(items@) =~= seq![e]);
    }
    success_response(id, object1("contents", array(items)))
}

} // verus!
