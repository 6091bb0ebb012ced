//! Errors of the inference engine.
use vstd::prelude::*;
use vstd::string::*;
use crate::editor::error::{EditorError, ErrorView};
use crate::execution::error::{ExecutionError, known_text};
use crate::execution::value::{nat_text, push_nat};

verus! {

/// Why a turn with the model, or a tool it asked for, failed.
#[derive(Debug)]
pub enum InferenceError {
    /// The request could not be sent, or its reply not read; the text says
    /// why.
    Http(String),
    /// A value could not be serialized or deserialized; the text says why.
    Serde(String),
    Execution(ExecutionError),
    Editor(EditorError),
    /// The provider answered with a status other than success.
    Llm { status: u16, message: String },
    UnknownTool(String),
}

/// The message of an editor error.
pub open spec fn editor_text(e: ErrorView) -> Seq<char> {
    match e {
        ErrorView::Parse(m) => "parse error: "@ + m,
        ErrorView::NotFound(m) => "form not found: "@ + m,
        ErrorView::InvalidEdit(m) => "invalid edit: "@ + m,
    }
}

/// The message of `e`, where the library knows it all: for every error but
/// an execution error from serde_json.
pub open spec fn inference_text(e: InferenceError) -> Option<Seq<char>> {
    match e {
        InferenceError::Http(m) => Some("http error: "@ + m@),
        InferenceError::Serde(m) => Some("serialization error: "@ + m@),
        InferenceError::Execution(x) => match known_text(x) {
            Some(t) => Some("execution error: "@ + t),
            None => None,
        },
        InferenceError::Editor(x) => Some("editor error: "@ + editor_text(x@)),
        InferenceError::Llm { status, message } => Some(
            "llm error: "@ + nat_text(status as nat) + " — "@ + message@,
        ),
        InferenceError::UnknownTool(n) => Some("unknown tool: "@ + n@),
    }
}

impl InferenceError {
    /// The human-readable form of the error.
    pub fn message(&self) -> (r: String)
        ensures
            inference_text(*self) matches Some(t) ==> r@ == t,
            *self is Execution ==> r@.len() >= "execution error: "@.len() && r@.subrange(
                0,
                "execution error: "@.len() as int,
            ) == "execution error: "@,
    {
        let mut out = String::new();
        match self {
            InferenceError::Http(m) => {
                out.append("http error: ");
                out.append(m.as_str());
            },
            InferenceError::Serde(m) => {
                out.append("serialization error: ");
                out.append(m.as_str());
            },
            InferenceError::Execution(x) => {
                out.append("execution error: ");
                let ghost head = out@;
                let t = x.message();
                out.append(t.as_str());
                assert(out@.subrange(0, head.len() as int) =~= head);
            },
            InferenceError::Editor(x) => {
                out.append("editor error: ");
                let t = x.message();
                out.append(t.as_str());
            },
            InferenceError::Llm { status, message } => {
                out.append("llm error: ");
                push_nat(*status as u64, &mut out);
                out.append(" — ");
                out.append(message.as_str());
            },
            InferenceError::UnknownTool(n) => {
                out.append("unknown tool: ");
                out.append(n.as_str());
            },
        }
        out
    }
}

} // verus!
