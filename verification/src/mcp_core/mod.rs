//! The library side of the Model Context Protocol core: routing of the
//! requests of a tools-only server.
pub mod server;
