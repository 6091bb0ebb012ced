pub mod core_functions;
pub mod editor;
pub mod execution;
pub mod inference;
pub mod interface;
pub mod mcp_core;
pub mod mcp_server;
pub mod scan;
pub mod search;
pub mod storage;
pub mod text;
