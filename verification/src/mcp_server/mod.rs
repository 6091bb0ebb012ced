//! The MCP server program's library side.
pub mod args;
