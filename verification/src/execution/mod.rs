//! The Clojure execution engine's library side.
pub mod error;
pub mod shell_native;
pub mod value;
