//! Errors of the structural editor.
use vstd::prelude::*;
use vstd::string::*;

verus! {

/// Why an edit could not be applied.
#[derive(Debug)]
pub enum EditorError {
    /// The source could not be read as Clojure forms.
    Parse(String),
    /// The named form does not occur in the source.
    NotFound(String),
    /// The form was found but the edit does not apply to it.
    InvalidEdit(String),
}

/// An `EditorError` with its message as characters.
pub enum ErrorView {
    Parse(Seq<char>),
    NotFound(Seq<char>),
    InvalidEdit(Seq<char>),
}

impl View for EditorError {
    type V = ErrorView;

    open spec fn view(&self) -> ErrorView {
        match self {
            EditorError::Parse(m) => ErrorView::Parse(m@),
            EditorError::NotFound(m) => ErrorView::NotFound(m@),
            EditorError::InvalidEdit(m) => ErrorView::InvalidEdit(m@),
        }
    }
}

impl EditorError {
    /// The human-readable form of the error.
    pub fn message(&self) -> (r: String)
        ensures
            r@ == match self@ {
                ErrorView::Parse(m) => "parse error: "@ + m,
                ErrorView::NotFound(m) => "form not found: "@ + m,
                ErrorView::InvalidEdit(m) => "invalid edit: "@ + m,
            },
    {
        let mut out = String::new();
        match self {
            EditorError::Parse(m) => {
                out.append("parse error: ");
                out.append(m.as_str());
            },
            EditorError::NotFound(m) => {
                out.append("form not found: ");
                out.append(m.as_str());
            },
            EditorError::InvalidEdit(m) => {
                out.append("invalid edit: ");
                out.append(m.as_str());
            },
        }
        out
    }
}

} // verus!
