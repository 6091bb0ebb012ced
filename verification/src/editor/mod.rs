//! Structural editing of Clojure source.
pub mod ast;
pub mod edit;
pub mod error;
pub mod reader;
pub mod reader_api;
pub mod unparse;
pub mod zipper;

pub use ast::{ClojureAst, Form, FormKind, Span};
pub use edit::{edit_description, Edit, EditResult, Editor};
pub use error::EditorError;
pub use unparse::unparse;
pub use zipper::Zipper;
