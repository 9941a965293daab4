//! The project around the storage: the entities a user names, where the
//! repository root and the project marker are, and the project's slug.
//!
//! Paths are lists of components from the outermost directory inward; the
//! ancestors of a path of `n` components are its prefixes of length `n`,
//! `n - 1`, ..., `0`, looked at in that order.
use vstd::prelude::*;

use crate::db::{entity_name, entity_table, is_entity};
use crate::error::MemError;
use crate::json::{
    array, copy_json, fields_get, fields_lookup, fields_view, json_str, lemma_fields_get_push,
    lemma_fields_view, object, object1, object2, Json, JsonV,
};
use crate::slug::{slugify, slugify_spec};
use crate::text::{
    find_first, find_text, lemma_find_first_occurs, occurs_at, push_char, trim_back, trim_both,
    trim_end_set, trim_set, TrimSet,
};

verus! {

/// The entities a user names on the command line.
#[derive(Debug, Clone, Copy, PartialEq, Eq, Structural)]
pub enum Entity {
    Facts,
    Decisions,
    Commands,
    Modules,
}

/// The position of the entity's table among the entity tables.
pub open spec fn entity_index(e: Entity) -> int {
    match e {
        Entity::Facts => 0,
        Entity::Decisions => 1,
        Entity::Commands => 2,
        Entity::Modules => 3,
    }
}

impl Entity {
    /// Table name of the entity.
    pub fn table(self) -> (t: &'static str)
        ensures
            t@ == entity_name(entity_index(self)),
            is_entity(t@),
    {
        let t = match self {
            Entity::Facts => entity_table(0),
            Entity::Decisions => entity_table(1),
            Entity::Commands => entity_table(2),
            Entity::Modules => entity_table(3),
        };
        assert(entity_name(entity_index(self)) == t@);
        t
    }
}

/// The length of the longest ancestor, among the prefixes of length `depth`
/// down to `0`, whose flag is set (a missing flag counts as unset).
pub open spec fn nearest_marked(flags: Seq<bool>, depth: int) -> Option<int>
    decreases depth + 1,
{
    if depth < 0 {
        None
    } else if depth < flags.len() && flags[depth] {
        Some(depth)
    } else {
        nearest_marked(flags, depth - 1)
    }
}

/// Walk up from the prefix of length `depth` and stop at the first one whose
/// flag is set: its length, or `None` when none is.
pub fn nearest_marked_depth(depth: usize, flags: &Vec<bool>) -> (r: Option<usize>)
    ensures
        match r {
            Some(k) => nearest_marked(flags@, depth as int) == Some(k as int),
            None => nearest_marked(flags@, depth as int) is None,
        },
{
    let mut k: usize = depth;
    loop
        invariant
            k <= depth,
            nearest_marked(flags@, depth as int) == nearest_marked(flags@, k as int),
        decreases k,
    {
        if k < flags.len() && flags[k] {
            return Some(k);
        }
        if k == 0 {
            assert(nearest_marked(flags@, -1) is None);
            return None;
        }
        k = k - 1;
    }
}

/// The repository root of `start`: its nearest ancestor (itself included)
/// that holds `.git`, else `start` itself.
pub open spec fn repo_root_spec(start: Seq<String>, has_git: Seq<bool>) -> Seq<String> {
    match nearest_marked(has_git, start.len() as int) {
        Some(k) => start.take(k),
        None => start,
    }
}

/// Find the repository root (the nearest directory, going up from `start`,
/// that contains `.git`), otherwise return `start`. `has_git[k]` says
/// whether the prefix of `start` of length `k` contains `.git`.
pub fn repo_root(start: &Vec<String>, has_git: &Vec<bool>) -> (root: Vec<String>)
    ensures
        root@ == repo_root_spec(start@, has_git@),
{
    let len = match nearest_marked_depth(start.len(), has_git) {
        Some(k) => k,
        None => start.len(),
    };
    proof {
        if let Some(k) = nearest_marked(has_git@, start@.len() as int) {
            lemma_nearest_marked_bounds(has_git@, start@.len() as int);
        }
    }
    let mut root: Vec<String> = Vec::new();
    let mut i: usize = 0;
    while i < len
        invariant
            i <= len <= start@.len(),
            root@ == start@.take(i as int),
        decreases len - i,
    {
        root.push(start[i].clone());
        proof {
            assert(start@.take(i + 1) =~= start@.take(i as int).push(start@[i as int]));
        }
        i = i + 1;
    }
    proof {
        if len == start.len() {
            assert(start@.take(len as int) =~= start@);
        }
    }
    root
}

/// The nearest marked prefix lies between `0` and `depth`.
pub proof fn lemma_nearest_marked_bounds(flags: Seq<bool>, depth: int)
    ensures
        nearest_marked(flags, depth) matches Some(k) ==> 0 <= k <= depth && k < flags.len()
            && flags[k],
    decreases depth + 1,
{
    if depth >= 0 && !(depth < flags.len() && flags[depth]) {
        lemma_nearest_marked_bounds(flags, depth - 1);
    }
}

/// The name a new project is given: the name asked for, else the name of the
/// repository root directory, else `project`.
pub open spec fn project_base_spec(name: Option<Seq<char>>, dir_name: Option<Seq<char>>) -> Seq<
    char,
> {
    match name {
        Some(n) => n,
        None => match dir_name {
            Some(d) => d,
            None => seq!['p', 'r', 'o', 'j', 'e', 'c', 't'],
        },
    }
}

/// The slug of a new project: the slug of its name, a dash, and the random id.
pub fn project_slug(name: Option<&str>, dir_name: Option<&str>, id: &str) -> (slug: String)
    ensures
        slug@ == slugify_spec(
            project_base_spec(
                match name {
                    Some(n) => Some(n@),
                    None => None,
                },
                match dir_name {
                    Some(d) => Some(d@),
                    None => None,
                },
            ),
        ) + seq!['-'] + id@,
{
    let base = match name {
        Some(n) => slugify(n),
        None => match dir_name {
            Some(d) => slugify(d),
            None => {
                let p = "project";
                proof {
                    reveal_strlit("project");
                }
                assert(p@ =~= seq!['p', 'r', 'o', 'j', 'e', 'c', 't']);
                slugify(p)
            },
        },
    };
    let mut slug = base;
    slug.append("-");
    proof {
        reveal_strlit("-");
    }
    slug.append(id);
    slug
}

/// The slug of a new project, as `project_slug` makes it.
pub open spec fn new_project_slug(name: Option<Seq<char>>, dir_name: Option<Seq<char>>, id: Seq<char>) -> Seq<char> {
    slugify_spec(project_base_spec(name, dir_name)) + seq!['-'] + id
}

/// What `init` does about the project marker.
#[derive(Debug)]
pub enum MarkerPlan<P> {
    /// A marker was found: keep its directory as the project root, and its slug.
    Reuse(P, String),
    /// No marker was found: write one with this new slug in the repository root.
    Create(String),
}

/// What `init` does about the marker: an existing marker (its directory and
/// slug) is kept as it is; without one, a new slug is made from the name
/// (else the repository directory's name, else `project`) and the fresh id.
pub fn init_marker_plan<P>(
    existing: Option<(P, String)>,
    name: Option<&str>,
    dir_name: Option<&str>,
    id: &str,
) -> (plan: MarkerPlan<P>)
    ensures
        match existing {
            Some((d, s)) => plan matches MarkerPlan::Reuse(e, t) && e == d && t == s,
            None => plan matches MarkerPlan::Create(t) && t@ == new_project_slug(
                match name {
                    Some(n) => Some(n@),
                    None => None,
                },
                match dir_name {
                    Some(d) => Some(d@),
                    None => None,
                },
                id@,
            ),
        },
{
    match existing {
        Some((d, s)) => MarkerPlan::Reuse(d, s),
        None => MarkerPlan::Create(project_slug(name, dir_name, id)),
    }
}

/// Whether `init` copies the database of the legacy `.memory` directory into
/// place: only when that file exists and the database does not yet.
pub fn copies_legacy_db(legacy_exists: bool, db_exists: bool) -> (copy: bool)
    ensures
        copy == (legacy_exists && !db_exists),
{
    legacy_exists && !db_exists
}

/// The lowercase hexadecimal digit of `d` (`0` to `15`).
pub open spec fn hex_char(d: u64) -> char {
    if d < 10 {
        (48 + d) as char
    } else {
        (87 + d) as char
    }
}

/// The `i`-th of the 16 hexadecimal digits of `v`, most significant first.
pub open spec fn hex_digit_at(v: u64, i: int) -> char {
    hex_char((v >> ((60 - 4 * i) as u64)) & 0xf)
}

/// `v` as 16 lowercase hexadecimal digits, zero-padded (`{:016x}`).
pub open spec fn hex16(v: u64) -> Seq<char> {
    Seq::new(16, |i: int| hex_digit_at(v, i))
}

/// A lowercase hexadecimal digit.
pub open spec fn is_hex_digit(c: char) -> bool {
    ('0' <= c && c <= '9') || ('a' <= c && c <= 'f')
}

/// A project id is 16 characters long, each a lowercase hexadecimal digit.
pub proof fn law_random_id_is_hex(entropy: u64)
    ensures
        hex16(entropy).len() == 16,
        forall|i: int| 0 <= i < 16 ==> is_hex_digit(#[trigger] hex16(entropy)[i]),
{
    assert forall|i: int| 0 <= i < 16 implies is_hex_digit(#[trigger] hex16(entropy)[i]) by {
        let shift: u64 = (60 - 4 * i) as u64;
        let d: u64 = (entropy >> shift) & 0xf;
        assert(d < 16) by (bit_vector)
            requires
                d == (entropy >> shift) & 0xf,
        ;
        assert(hex16(entropy)[i] == hex_char(d));
    }
}

fn hex_digit(d: u64) -> (c: char)
    requires
        d < 16,
    ensures
        c == hex_char(d),
{
    let b: u8 = d as u8;
    if b < 10 {
        (48u8 + b) as char
    } else {
        (87u8 + b) as char
    }
}

/// The identifier of a new project: the 64-bit `entropy` (a hash of the
/// time, the process id and an address) as 16 hexadecimal digits.
pub fn random_id(entropy: u64) -> (id: String)
    ensures
        id@ == hex16(entropy),
{
    let mut id = String::new();
    let mut i: u64 = 0;
    while i < 16
        invariant
            i <= 16,
            id@ == Seq::new(i as nat, |j: int| hex_digit_at(entropy, j)),
        decreases 16 - i,
    {
        let shift: u64 = 60 - 4 * i;
        let d: u64 = (entropy >> shift) & 0xf;
        assert(d < 16) by (bit_vector)
            requires
                d == (entropy >> shift) & 0xf,
        ;
        let c = hex_digit(d);
        push_char(&mut id, c);
        proof {
            assert(id@ =~= Seq::new((i + 1) as nat, |j: int| hex_digit_at(entropy, j)));
        }
        i = i + 1;
    }
    id
}

/// The line that opens the block of `AGENTS.md` that this tool manages.
pub const AGENTS_START: &'static str = "<!-- mem-cli:start -->";

/// The line that closes the managed block of `AGENTS.md`.
pub const AGENTS_END: &'static str = "<!-- mem-cli:end -->";

/// The text of the managed block between its opening line and the slug.
pub const AGENTS_INTRO: &'static str = "\n## mem-cli context storage\n\nProject context is stored locally per developer, outside the repository:\n`${XDG_DATA_HOME:-~/.local/share}/mem/<slug>/project_context.db`.\nThe project slug (`";

/// The text of the managed block between the slug and its closing line.
pub const AGENTS_OUTRO: &'static str = "`) is fixed in the `.mem-project` file.\nThe path can be overridden via the `MEMORY_DB_DIR` variable.\n";

/// The managed block for the project with slug `slug`, ending in a newline.
pub open spec fn agents_block_spec(slug: Seq<char>) -> Seq<char> {
    AGENTS_START@ + AGENTS_INTRO@ + slug + AGENTS_OUTRO@ + AGENTS_END@ + seq!['\n']
}

/// The managed block of `AGENTS.md`: where the context is stored and which
/// slug the project has.
pub fn agents_block(slug: &str) -> (block: String)
    ensures
        block@ == agents_block_spec(slug@),
{
    let mut block = String::from_str(AGENTS_START);
    block.append(AGENTS_INTRO);
    block.append(slug);
    block.append(AGENTS_OUTRO);
    block.append(AGENTS_END);
    push_char(&mut block, '\n');
    block
}

/// `AGENTS.md` with the managed block put in: in place of the old block when
/// the file has an opening line followed (later) by a closing line; the block
/// alone when the file is empty or blank; else after the file's text, with
/// its trailing white space replaced by one empty line.
pub open spec fn merged_agents_md(existing: Seq<char>, block: Seq<char>) -> Seq<char> {
    let s = find_first(existing, AGENTS_START@);
    let e = find_first(existing, AGENTS_END@);
    if s is Some && e is Some && e->0 > s->0 {
        existing.take(s->0) + block + existing.skip(e->0 + AGENTS_END@.len())
    } else if trim_both(existing, TrimSet::WhiteSpace).len() == 0 {
        block
    } else {
        trim_back(existing, TrimSet::WhiteSpace) + seq!['\n', '\n'] + block
    }
}

/// The new content of `AGENTS.md`, from its current content (empty when the
/// file does not exist) and the managed block.
pub fn merge_agents_md(existing: &str, block: &str) -> (content: String)
    ensures
        content@ == merged_agents_md(existing@, block@),
{
    let s = find_text(existing, AGENTS_START);
    let e = find_text(existing, AGENTS_END);
    let n = existing.unicode_len();
    if let Some(si) = s {
        if let Some(ei) = e {
            if ei > si {
                let end = ei + AGENTS_END.unicode_len();
                let mut content = String::from_str(existing.substring_char(0, si));
                content.append(block);
                content.append(existing.substring_char(end, n));
                proof {
                    assert(existing@.subrange(0, si as int) =~= existing@.take(si as int));
                    assert(existing@.subrange(end as int, n as int) =~= existing@.skip(end as int));
                }
                return content;
            }
        }
    }
    if trim_set(existing, TrimSet::WhiteSpace).unicode_len() == 0 {
        return String::from_str(block);
    }
    let mut content = String::from_str(trim_end_set(existing, TrimSet::WhiteSpace));
    content.append("\n\n");
    proof {
        reveal_strlit("\n\n");
    }
    content.append(block);
    content
}

/// After a merge, `AGENTS.md` holds the managed block.
pub proof fn law_merged_agents_md_holds_block(existing: Seq<char>, block: Seq<char>)
    ensures
        exists|i: int| occurs_at(merged_agents_md(existing, block), block, i),
{
    let merged = merged_agents_md(existing, block);
    lemma_find_first_occurs(existing, AGENTS_START@);
    lemma_find_first_occurs(existing, AGENTS_END@);
    let s = find_first(existing, AGENTS_START@);
    let e = find_first(existing, AGENTS_END@);
    if s is Some && e is Some && e->0 > s->0 {
        let k = s->0;
        assert(merged.subrange(k, k + block.len()) =~= block);
        assert(occurs_at(merged, block, k));
    } else if trim_both(existing, TrimSet::WhiteSpace).len() == 0 {
        assert(merged.subrange(0, block.len() as int) =~= block);
        assert(occurs_at(merged, block, 0));
    } else {
        let k: int = trim_back(existing, TrimSet::WhiteSpace).len() as int + 2;
        assert(merged.subrange(k, k + block.len()) =~= block);
        assert(occurs_at(merged, block, k));
    }
}

// ---------------------------------------------------------------------------
// The MCP client configuration

/// The file, in the repository root, where MCP clients look for servers.
pub const MCP_CONFIG_FILE: &'static str = ".mcp.json";

/// The member of the configuration that holds the servers by name.
pub const MCP_SERVERS: &'static str = "mcpServers";

/// The name under which this tool's server is registered.
pub const SERVER_NAME: &'static str = "mem-cli";

/// How a client starts this tool's MCP server: `mem-cli mcp`.
pub open spec fn server_entry_view() -> JsonV {
    JsonV::Object(
        seq![("command"@, JsonV::Str("mem-cli"@)), ("args"@, JsonV::Array(seq![JsonV::Str("mcp"@)]))],
    )
}

/// `members` with the value of every member named `key` replaced by `value`.
pub open spec fn set_member(members: Seq<(Seq<char>, JsonV)>, key: Seq<char>, value: JsonV) -> Seq<
    (Seq<char>, JsonV),
> {
    members.map_values(
        |m: (Seq<char>, JsonV)|
            if m.0 == key {
                (key, value)
            } else {
                m
            },
    )
}

/// The configuration after the server entry is ensured: `Ok(None)` when the
/// entry is already there, `Ok(Some(..))` with the new configuration (the
/// entry added, every other member and server kept, in order), or `Err`
/// with the reason when the configuration is not an object or its servers
/// are not an object. An absent file counts as an empty configuration.
pub open spec fn with_server(config: Option<JsonV>) -> Result<Option<JsonV>, Seq<char>> {
    let members = match config {
        Some(JsonV::Object(m)) => m,
        _ => Seq::empty(),
    };
    if config is Some && !(config->Some_0 is Object) {
        Err("the file must hold a JSON object"@)
    } else {
        match fields_get(members, MCP_SERVERS@) {
            None => Ok(
                Some(
                    JsonV::Object(
                        members.push(
                            (MCP_SERVERS@, JsonV::Object(seq![(SERVER_NAME@, server_entry_view())])),
                        ),
                    ),
                ),
            ),
            Some(JsonV::Object(servers)) => if fields_get(servers, SERVER_NAME@) is Some {
                Ok(None)
            } else {
                Ok(
                    Some(
                        JsonV::Object(
                            set_member(
                                members,
                                MCP_SERVERS@,
                                JsonV::Object(servers.push((SERVER_NAME@, server_entry_view()))),
                            ),
                        ),
                    ),
                )
            },
            Some(_) => Err("mcpServers must be a JSON object"@),
        }
    }
}

fn server_entry() -> (j: Json)
    ensures
        j@ == server_entry_view(),
{
    let mut args: Vec<Json> = Vec::new();
    args.push(json_str("mcp"));
    proof {
        crate::json::lemma_items_view(args@);
        assert(crate::json::items_view(args@) =~= seq![JsonV::Str("mcp"@)]);
    }
    object2("command", json_str("mem-cli"), "args", array(args))
}

/// A copy of the members with the value of each member named `key` replaced
/// by a copy of `value`.
fn replace_member(members: &Vec<(String, Json)>, key: &str, value: &Json) -> (out: Vec<(String, Json)>)
    ensures
        fields_view(out@) == set_member(fields_view(members@), key@, value@),
{
    proof {
        lemma_fields_view(members@);
    }
    let mut out: Vec<(String, Json)> = Vec::new();
    let mut i: usize = 0;
    while i < members.len()
        invariant
            i <= members.len(),
            fields_view(members@).len() == members@.len(),
            forall|m: int| 0 <= m < members@.len() ==> #[trigger] fields_view(members@)[m] == (
                members@[m].0@,
                members@[m].1@,
            ),
            out@.len() == i,
            forall|m: int|
                0 <= m < i ==> (#[trigger] out@[m]).0@ == set_member(
                    fields_view(members@),
                    key@,
                    value@,
                )[m].0 && out@[m].1@ == set_member(fields_view(members@), key@, value@)[m].1,
        decreases members.len() - i,
    {
        let (k, v) = &members[i];
        if crate::text::same_text(k.as_str(), key) {
            out.push((String::from_str(key), copy_json(value)));
        } else {
            out.push((k.clone(), copy_json(v)));
        }
        i = i + 1;
    }
    proof {
        lemma_fields_view(out@);
        assert(fields_view(out@) =~= set_member(fields_view(members@), key@, value@));
    }
    out
}

/// Ensure the configuration registers this tool's MCP server (`None` for an
/// absent file): `Ok(None)` when it already does, else the configuration to
/// write.
pub fn with_mcp_server(config: Option<Json>) -> (res: Result<Option<Json>, MemError>)
    ensures
        match with_server(
            match config {
                Some(c) => Some(c@),
                None => None,
            },
        ) {
            Ok(None) => res matches Ok(None),
            Ok(Some(v)) => res matches Ok(Some(j)) && j@ == v,
            Err(m) => res matches Err(MemError::McpConfig(t)) && t@ == m,
        },
{
    let members = match config {
        None => {
            let v = object1(MCP_SERVERS, object1(SERVER_NAME, server_entry()));
            assert(fields_get(Seq::<(Seq<char>, JsonV)>::empty(), MCP_SERVERS@) is None);
            assert(Seq::<(Seq<char>, JsonV)>::empty().push(
                (MCP_SERVERS@, JsonV::Object(seq![(SERVER_NAME@, server_entry_view())])),
            ) =~= seq![(MCP_SERVERS@, JsonV::Object(seq![(SERVER_NAME@, server_entry_view())]))]);
            return Ok(Some(v));
        },
        Some(Json::Object(members)) => members,
        Some(_) => {
            proof {
                reveal_strlit("the file must hold a JSON object");
            }
            return Err(MemError::McpConfig(String::from_str("the file must hold a JSON object")));
        },
    };
    let ghost fv = fields_view(members@);
    let found = match fields_lookup(&members, MCP_SERVERS) {
        None => None,
        Some(Json::Object(servers)) => {
            if fields_lookup(servers, SERVER_NAME).is_some() {
                return Ok(None);
            }
            let mut list: Vec<(String, Json)> = Vec::new();
            let mut i: usize = 0;
            while i < servers.len()
                invariant
                    i <= servers.len(),
                    fields_view(list@) == fields_view(servers@.take(i as int)),
                decreases servers.len() - i,
            {
                let (k, v) = &servers[i];
                let ghost before = list@;
                list.push((k.clone(), copy_json(v)));
                assert(list@.drop_last() =~= before);
                assert(servers@.take(i + 1).drop_last() =~= servers@.take(i as int));
                i = i + 1;
            }
            assert(servers@.take(servers.len() as int) =~= servers@);
            let ghost before = list@;
            list.push((String::from_str(SERVER_NAME), server_entry()));
            assert(list@.drop_last() =~= before);
            Some(object(list))
        },
        Some(_) => {
            proof {
                reveal_strlit("mcpServers must be a JSON object");
            }
            return Err(MemError::McpConfig(String::from_str("mcpServers must be a JSON object")));
        },
    };
    match found {
        Some(servers) => Ok(Some(object(replace_member(&members, MCP_SERVERS, &servers)))),
        None => {
            let mut members = members;
            let ghost before = members@;
            members.push((String::from_str(MCP_SERVERS), object1(SERVER_NAME, server_entry())));
            assert(members@.drop_last() =~= before);
            Ok(Some(object(members)))
        },
    }
}

/// After the server entry is ensured, the configuration registers this
/// tool's server, every other server is kept as it was, and ensuring the
/// entry again changes nothing.
pub proof fn law_server_entry_ensured(config: Option<JsonV>, name: Seq<char>)
    requires
        with_server(config) is Ok,
        name != SERVER_NAME@,
    ensures
        ({
            let after = match with_server(config)->Ok_0 {
                Some(v) => v,
                None => config->Some_0,
            };
            let before_servers = match config {
                Some(JsonV::Object(m)) => match fields_get(m, MCP_SERVERS@) {
                    Some(JsonV::Object(s)) => s,
                    _ => Seq::empty(),
                },
                _ => Seq::empty(),
            };
            &&& after is Object
            &&& fields_get(after->Object_0, MCP_SERVERS@) matches Some(JsonV::Object(s))
                && fields_get(s, SERVER_NAME@) is Some && fields_get(s, name) == fields_get(before_servers, name)
            &&& with_server(Some(after)) == Ok::<Option<JsonV>, Seq<char>>(None)
        }),
{
    let members = match config {
        Some(JsonV::Object(m)) => m,
        _ => Seq::empty(),
    };
    match fields_get(members, MCP_SERVERS@) {
        None => {
            let entry = (MCP_SERVERS@, JsonV::Object(seq![(SERVER_NAME@, server_entry_view())]));
            lemma_fields_get_push(members, entry, MCP_SERVERS@);
            let s = seq![(SERVER_NAME@, server_entry_view())];
            assert(s.drop_first() =~= Seq::<(Seq<char>, JsonV)>::empty());
        },
        Some(JsonV::Object(servers)) => {
            if fields_get(servers, SERVER_NAME@) is None {
                let grown = servers.push((SERVER_NAME@, server_entry_view()));
                lemma_set_member_get(members, MCP_SERVERS@, MCP_SERVERS@, JsonV::Object(grown));
                lemma_fields_get_push(servers, (SERVER_NAME@, server_entry_view()), SERVER_NAME@);
                lemma_fields_get_push(servers, (SERVER_NAME@, server_entry_view()), name);
            }
        },
        Some(_) => {},
    }
}

/// Replacing the members named `key` changes what `key` gives (when it is
/// there) and nothing else.
pub proof fn lemma_set_member_get(
    members: Seq<(Seq<char>, JsonV)>,
    key: Seq<char>,
    probe: Seq<char>,
    value: JsonV,
)
    ensures
        fields_get(set_member(members, key, value), probe) == if probe == key {
            match fields_get(members, key) {
                Some(_) => Some(value),
                None => None,
            }
        } else {
            fields_get(members, probe)
        },
    decreases members.len(),
{
    if members.len() > 0 {
        assert(set_member(members, key, value).drop_first() =~= set_member(
            members.drop_first(),
            key,
            value,
        ));
        lemma_set_member_get(members.drop_first(), key, probe, value);
    }
}

} // verus!
