//! The core function library: templates known to the engine and its errors.
pub mod error;
pub mod registry;
