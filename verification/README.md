# mem-cli

Long-lived project context for coding sessions (facts, decisions, commands,
modules, and tags over them), kept in SQLite, with a command line and an MCP
server on stdio.

The library under `src/` is written in Verus and its functions carry
`requires`/`ensures` contracts that Verus proves. The exceptions are the
trusted wrappers around outside calls (the `rusqlite` calls in
`src/sqlite.rs`, and a few `char`/`String`/`Debug` calls of std in
`src/text.rs`), marked `#[verifier::external_body]`: Verus takes their
contracts on trust, and their doc comments say what each one claims.

## Layout

- `src/text.rs` — trimming (Unicode white space, dashes), ASCII lowering,
  substring search, and the few `char`/`String` calls of std the rest uses.
- `src/tags.rs` — tag normalization (`[a-z0-9._-]`, at most 64 characters).
- `src/slug.rs` — project slugs, the `.mem-project` marker, where the
  database lives (override, data directory, legacy `.memory/`).
- `src/project.rs` — entities, the repository root and marker lookup over a
  path's ancestors, new project ids and slugs, the managed block of
  `AGENTS.md`, and the `mem-cli` entry of `.mcp.json`.
- `src/sqlite.rs` — the `rusqlite` calls, each behind a small trusted wrapper.
- `src/db.rs` — schema migrations, records, tags, and the integrity
  diagnostics (`doctor`) with its safe repair.
- `src/commands.rs` — what each command of the command line does and reports.
- `src/json.rs` — JSON values as the protocol logic reads and builds them.
- `src/frame.rs` — how incoming MCP messages are framed (a JSON line, or
  `Content-Length` headers and a body).
- `src/mcp.rs` — JSON-RPC requests to actions and responses, the tools and
  the resources.
- `src/error.rs` — the library's errors and their messages.
- `app/` — the program: argument parsing, the file system, the environment,
  stdin/stdout, and JSON text (through `serde_json`).
- `tests/` — tests of the library, run against a real SQLite database in memory.

## Laws proved

Among the proof functions: normalizing a tag twice gives the same tag; a
`Content-Length` written in decimal reads back as the same length; a marker
written as a slug and a newline reads back as the slug; merging the managed
block into `AGENTS.md` always leaves the block in the file; ensuring the MCP
server entry keeps every other server and is idempotent; the migration plan
for a database at the current version is empty; a diagnostics report built
from a list of examined tag rows shows problems exactly when one of those
rows is dangling, names an unknown entity or is not in normal form; every
listed tool is one the server runs, and every resource URI names an entity.
Among the contracts: the slug of an ASCII name is made of lowercase letters,
digits and single dashes, passes the slug check and is its own slug; the
database directory follows the precedence override, marker, legacy
directory; a tag search groups exactly the non-empty per-table results, in
table order; a hard update of a record that is not active removes nothing;
each field of a record, a tag row or a tag count is read from the column of
its name in the select list the query is built with; a tool or command that
takes a tag refuses one that is not in normal form with the tag's own error.

What SQLite stores and returns is not modelled: the database functions state
the whitelist and tag checks, the statements and parameters they build, and
the decisions they take on what the database answers, not the answers.
