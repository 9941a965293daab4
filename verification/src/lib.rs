//! Long-lived project context: the storage rules, tag and slug handling,
//! the diagnostics over the tag store and the MCP request logic, verified.

pub mod commands;
pub mod db;
pub mod error;
pub mod frame;
pub mod json;
pub mod mcp;
pub mod project;
pub mod slug;
pub mod sqlite;
pub mod tags;
pub mod text;
