//! The errors of the library.
use vstd::prelude::*;

use crate::sqlite::sql_error_message;
use crate::text::{debug_quoted, debug_text};

verus! {

/// What can go wrong in the library's operations.
#[derive(Debug)]
pub enum MemError {
    /// The entity (table) name is not one of the four known entities.
    UnknownEntity(String),
    /// The tag is empty after trimming.
    EmptyTag,
    /// The normalized tag is longer than the limit; it holds the normalized tag.
    TagTooLong(String),
    /// The tag holds a character outside `[a-z0-9._-]`; it holds the tag as given.
    InvalidTag(String),
    /// The project marker holds an invalid slug; it holds the trimmed content.
    CorruptMarker(String),
    /// The user data directory cannot be determined.
    NoDataHome,
    /// A query produced more rows than can be collected.
    TooManyRows,
    /// A query that should give one row gave none.
    NoRows,
    /// The MCP client configuration (`.mcp.json`) has a shape the entry
    /// cannot be put in; it holds the reason.
    McpConfig(String),
    /// An error reported by SQLite.
    Storage(rusqlite::Error),
}

/// The decimal digits of `n`, without sign or leading zeros.
pub open spec fn decimal_text(n: nat) -> Seq<char>
    decreases n,
{
    if n < 10 {
        seq![digit_char(n)]
    } else {
        decimal_text(n / 10).push(digit_char(n % 10))
    }
}

/// The character of the decimal digit `d`.
pub open spec fn digit_char(d: nat) -> char {
    if d == 0 {
        '0'
    } else if d == 1 {
        '1'
    } else if d == 2 {
        '2'
    } else if d == 3 {
        '3'
    } else if d == 4 {
        '4'
    } else if d == 5 {
        '5'
    } else if d == 6 {
        '6'
    } else if d == 7 {
        '7'
    } else if d == 8 {
        '8'
    } else {
        '9'
    }
}

fn digit(d: u64) -> (c: char)
    requires
        d < 10,
    ensures
        c == digit_char(d as nat),
{
    if d == 0 {
        '0'
    } else if d == 1 {
        '1'
    } else if d == 2 {
        '2'
    } else if d == 3 {
        '3'
    } else if d == 4 {
        '4'
    } else if d == 5 {
        '5'
    } else if d == 6 {
        '6'
    } else if d == 7 {
        '7'
    } else if d == 8 {
        '8'
    } else {
        '9'
    }
}

/// Append the decimal digits of `n` to `s`.
fn push_decimal(s: &mut String, n: u64)
    ensures
        final(s)@ == old(s)@ + decimal_text(n as nat),
    decreases n,
{
    if n >= 10 {
        push_decimal(s, n / 10);
    }
    crate::text::push_char(s, digit(n % 10));
    proof {
        if n < 10 {
            assert(old(s)@ + decimal_text(n as nat) =~= old(s)@.push(digit_char(n as nat)));
        } else {
            assert(old(s)@ + decimal_text(n as nat) =~= (old(s)@ + decimal_text((n / 10) as nat)).push(
                digit_char((n % 10) as nat),
            ));
        }
    }
}

/// The decimal digits of `n` (as `usize::to_string` writes them).
pub(crate) fn usize_text(n: usize) -> (s: String)
    ensures
        s@ == decimal_text(n as nat),
{
    let mut s = String::new();
    push_decimal(&mut s, n as u64);
    assert(s@ =~= decimal_text(n as nat));
    s
}

/// The decimal text of `n`, after a `-` when it is negative.
pub open spec fn signed_text(n: int) -> Seq<char> {
    if n < 0 {
        seq!['-'] + decimal_text((-n) as nat)
    } else {
        decimal_text(n as nat)
    }
}

/// The decimal digits of `n`, after a `-` when it is negative (as
/// `i64::to_string` writes them).
pub(crate) fn i64_text(n: i64) -> (s: String)
    ensures
        s@ == signed_text(n as int),
{
    let mut s = String::new();
    if n < 0 {
        crate::text::push_char(&mut s, '-');
        let magnitude: u64 = (-(n + 1)) as u64 + 1;
        push_decimal(&mut s, magnitude);
        assert(s@ =~= seq!['-'] + decimal_text((-n) as nat));
    } else {
        push_decimal(&mut s, n as u64);
        assert(s@ =~= decimal_text(n as nat));
    }
    s
}

/// The message of an error, as the command line and the protocol show it.
/// The message of an SQLite error is the one `rusqlite` gives.
pub open spec fn message_spec(e: MemError, msg: Seq<char>) -> bool {
    match e {
        MemError::UnknownEntity(t) => msg == "unknown entity: "@ + t@,
        MemError::EmptyTag => msg == "empty tag"@,
        MemError::TagTooLong(t) => msg == "tag is too long (max 64 characters): "@ + debug_text(
            t@,
        ),
        MemError::InvalidTag(t) => msg == "invalid tag "@ + debug_text(t@)
            + ": allowed characters are [a-z0-9._-]"@,
        MemError::CorruptMarker(s) => msg == "corrupt marker: invalid slug "@ + debug_text(s@),
        MemError::NoDataHome => msg == "failed to determine the data directory (HOME/XDG_DATA_HOME)"@,
        MemError::TooManyRows => msg == "query returned too many rows"@,
        MemError::NoRows => msg == "Query returned no rows"@,
        MemError::McpConfig(r) => msg == "invalid .mcp.json: "@ + r@,
        MemError::Storage(_) => true,
    }
}

impl MemError {
    /// The message of the error.
    pub fn message(&self) -> (msg: String)
        ensures
            message_spec(*self, msg@),
    {
        match self {
            MemError::UnknownEntity(t) => {
                let mut m = String::from_str("unknown entity: ");
                m.append(t.as_str());
                m
            },
            MemError::EmptyTag => String::from_str("empty tag"),
            MemError::TagTooLong(t) => {
                let mut m = String::from_str("tag is too long (max 64 characters): ");
                let q = debug_quoted(t.as_str());
                m.append(q.as_str());
                m
            },
            MemError::InvalidTag(t) => {
                let mut m = String::from_str("invalid tag ");
                let q = debug_quoted(t.as_str());
                m.append(q.as_str());
                m.append(": allowed characters are [a-z0-9._-]");
                m
            },
            MemError::CorruptMarker(s) => {
                let mut m = String::from_str("corrupt marker: invalid slug ");
                let q = debug_quoted(s.as_str());
                m.append(q.as_str());
                m
            },
            MemError::NoDataHome => String::from_str(
                "failed to determine the data directory (HOME/XDG_DATA_HOME)",
            ),
            MemError::TooManyRows => String::from_str("query returned too many rows"),
            MemError::NoRows => String::from_str("Query returned no rows"),
            MemError::McpConfig(r) => {
                let mut m = String::from_str("invalid .mcp.json: ");
                m.append(r.as_str());
                m
            },
            MemError::Storage(e) => sql_error_message(e),
        }
    }
}

} // verus!
